//! The names that the runtime gives to branches and directories, and the checks
//! that keep it to its own.

use crate::git_paths::{fault, git_error, normalize_git_path, repository_path, GitError};
use crate::git_worktree::ChangeIntent;
use crate::ids::{
    hyphenated, id_hex, id_text, is_hex, lemma_hex_digits, lemma_ids_have_their_own_text, simple_hex,
};
use crate::order::{in_order, insert_ordered, lemma_in_order, ordered};
use crate::paths::{is_within, name_back, named_back, parts_of, path_parts, within};
use crate::text::{
    after_last, after_last_char, begins_with, byte_count, byte_len, contains, contains_char,
    first_chars, has_part, holds_text, is_ascii_word, lowered_char, same_text, split_words,
    stands_at, starts_with, strip_end, strip_start, take_chars, texts_of, to_chars, trim,
    trim_end_of, trim_start_of, trimmed, unicode_lower_char, words, ascii_word,
};
use vstd::prelude::*;
use vstd::string::*;

verus! {

/// The characters of a text in lower case.
pub open spec fn lower_forms(text: Seq<char>) -> Seq<char>
    decreases text.len(),
{
    if text.len() == 0 {
        Seq::empty()
    } else {
        lower_forms(text.drop_last()) + lowered_char(text.last())
    }
}

/// A slug so far, and whether a separator is due before its next character.
pub struct SlugState {
    pub slug: Seq<char>,
    pub separator: bool,
}

/// The slug after some characters: letters and digits are kept, a run of
/// anything else between them becomes one hyphen, and it stops at forty.
pub open spec fn slug_state(chars: Seq<char>) -> SlugState
    decreases chars.len(),
{
    if chars.len() == 0 {
        SlugState { slug: Seq::empty(), separator: false }
    } else {
        let before = slug_state(chars.drop_last());
        if before.slug.len() >= 40 {
            before
        } else if is_ascii_word(chars.last()) {
            SlugState {
                slug: (if before.separator && before.slug.len() > 0 {
                    before.slug.push('-')
                } else {
                    before.slug
                }).push(chars.last()),
                separator: false,
            }
        } else {
            SlugState { slug: before.slug, separator: true }
        }
    }
}

/// The slug of a text.
pub open spec fn slug_of(text: Seq<char>) -> Seq<char> {
    let slug = slug_state(lower_forms(text)).slug;
    if slug.len() == 0 {
        "task"@
    } else {
        strip_end(slug, "-"@)
    }
}

/// A character that a slug may hold.
pub open spec fn is_slug_char(c: char) -> bool {
    'a' <= c <= 'z' || '0' <= c <= '9' || c == '-'
}

/// Whether a text has the shape of a slug: not empty, at most forty-one
/// characters of the allowed kinds, no hyphen at an end and no two in a row.
pub open spec fn is_slug(text: Seq<char>) -> bool {
    &&& 0 < text.len() <= 41
    &&& forall|i: int| 0 <= i < text.len() ==> is_slug_char(#[trigger] text[i])
    &&& text[0] != '-'
    &&& text.last() != '-'
    &&& forall|i: int| 0 < i < text.len() ==> !(text[i - 1] == '-' && #[trigger] text[i] == '-')
}

spec fn slug_so_far(text: Seq<char>) -> bool {
    text.len() > 0 ==> is_slug(text)
}

/// A lower-case form holds no upper-case ASCII letter.
proof fn lemma_lower_forms(text: Seq<char>)
    ensures
        forall|i: int| 0 <= i < lower_forms(text).len() ==> !('A' <= #[trigger] lower_forms(text)[i] <= 'Z'),
    decreases text.len(),
{
    if text.len() > 0 {
        lemma_lower_forms(text.drop_last());
        let before = lower_forms(text.drop_last());
        let added = lowered_char(text.last());
        let all = lower_forms(text);
        assert forall|i: int| 0 <= i < all.len() implies !('A' <= #[trigger] all[i] <= 'Z') by {
            if i < before.len() {
                assert(all[i] == before[i]);
            } else {
                assert(all[i] == added[i - before.len()]);
            }
        }
    }
}

/// What a slug may hold is in lower case.
proof fn lemma_slug_in_lower_case(text: Seq<char>)
    requires
        forall|i: int| 0 <= i < text.len() ==> is_slug_char(#[trigger] text[i]),
    ensures
        lower_forms(text) == text,
    decreases text.len(),
{
    if text.len() > 0 {
        assert forall|i: int| 0 <= i < text.drop_last().len() implies is_slug_char(
            #[trigger] text.drop_last()[i],
        ) by {
            assert(text.drop_last()[i] == text[i]);
        }
        lemma_slug_in_lower_case(text.drop_last());
        assert(is_slug_char(text[text.len() - 1]));
        assert(lowered_char(text.last()) =~= seq![text.last()]);
        assert(text.drop_last() + seq![text.last()] =~= text);
    } else {
        assert(lower_forms(text) =~= text);
    }
}

/// A slug that is longer than forty characters has its last hyphen before its
/// last character.
spec fn is_cut(text: Seq<char>) -> bool {
    text.len() == 41 ==> text[39] == '-'
}

/// The slug of the first characters of a slug.
spec fn slug_prefix(text: Seq<char>, k: int) -> SlugState {
    if k == 0 {
        SlugState { slug: Seq::empty(), separator: false }
    } else if text[k - 1] == '-' {
        SlugState { slug: text.take(k - 1), separator: true }
    } else {
        SlugState { slug: text.take(k), separator: false }
    }
}

proof fn lemma_slug_prefix(text: Seq<char>, k: int)
    requires
        is_slug(text),
        is_cut(text),
        0 <= k <= text.len(),
    ensures
        slug_state(text.take(k)) == slug_prefix(text, k),
    decreases k,
{
    if k > 0 {
        lemma_slug_prefix(text, k - 1);
        assert(text.take(k).drop_last() =~= text.take(k - 1));
        assert(text.take(k).last() == text[k - 1]);
        assert(is_slug_char(text[k - 1]));
        let before = slug_prefix(text, k - 1);
        assert(before.slug.len() < 40);
        if text[k - 1] != '-' {
            if k > 1 && text[k - 2] == '-' {
                assert(k > 2);
                assert(text.take(k - 2).push('-').push(text[k - 1]) =~= text.take(k));
            } else {
                assert(before.slug.push(text[k - 1]) =~= text.take(k));
            }
        }
    }
}

proof fn lemma_slug_state(chars: Seq<char>)
    requires
        forall|i: int| 0 <= i < chars.len() ==> !('A' <= #[trigger] chars[i] <= 'Z'),
    ensures
        slug_so_far(slug_state(chars).slug),
        is_cut(slug_state(chars).slug),
    decreases chars.len(),
{
    if chars.len() > 0 {
        assert forall|i: int| 0 <= i < chars.drop_last().len() implies !('A'
            <= #[trigger] chars.drop_last()[i] <= 'Z') by {
            assert(chars.drop_last()[i] == chars[i]);
        }
        lemma_slug_state(chars.drop_last());
        let before = slug_state(chars.drop_last());
        assert(!('A' <= chars[chars.len() - 1] <= 'Z'));
    }
}

proof fn lemma_no_words_no_slug(chars: Seq<char>)
    requires
        forall|i: int| 0 <= i < chars.len() ==> !is_ascii_word(#[trigger] chars[i]),
    ensures
        slug_state(chars).slug.len() == 0,
    decreases chars.len(),
{
    if chars.len() > 0 {
        assert forall|i: int| 0 <= i < chars.drop_last().len() implies !is_ascii_word(
            #[trigger] chars.drop_last()[i],
        ) by {
            assert(chars.drop_last()[i] == chars[i]);
        }
        lemma_no_words_no_slug(chars.drop_last());
        assert(!is_ascii_word(chars[chars.len() - 1]));
    }
}

/// The slug of every text has the shape of a slug, and a slug is its own slug. A
/// text without letters and digits has the slug `task`.
pub proof fn lemma_slugs_are_stable(text: Seq<char>)
    ensures
        is_slug(slug_of(text)),
        slug_of(slug_of(text)) == slug_of(text),
        (forall|i: int| 0 <= i < lower_forms(text).len() ==> !is_ascii_word(#[trigger] lower_forms(text)[i]))
            ==> slug_of(text) == "task"@,
{
    let slug = slug_state(lower_forms(text)).slug;
    reveal_strlit("task");
    reveal_strlit("-");
    assert("-"@ =~= seq!['-']);
    lemma_lower_forms(text);
    lemma_slug_state(lower_forms(text));
    let result = slug_of(text);
    if slug.len() > 0 {
        assert(!"-"@.contains(slug.last()));
        assert(result == slug);
    }
    assert(is_slug(result) && is_cut(result));
    lemma_slug_in_lower_case(result);
    lemma_slug_prefix(result, result.len() as int);
    assert(result.take(result.len() as int) =~= result);
    assert(!"-"@.contains(result.last()));
    if forall|i: int| 0 <= i < lower_forms(text).len() ==> !is_ascii_word(#[trigger] lower_forms(text)[i]) {
        lemma_no_words_no_slug(lower_forms(text));
    }
}

/// A short name made of lower-case letters, digits and single hyphens.
pub fn sanitize_slug(value: &str) -> (r: String)
    ensures
        r@ == slug_of(value@),
        is_slug(r@),
{
    let chars = to_chars(value);
    let mut lower: Vec<char> = Vec::new();
    let mut i: usize = 0;
    assert(lower@ =~= lower_forms(chars@.take(0)));
    while i < chars.len()
        invariant
            0 <= i <= chars.len(),
            lower@ == lower_forms(chars@.take(i as int)),
        decreases chars.len() - i,
    {
        assert(chars@.take(i + 1).drop_last() =~= chars@.take(i as int));
        let mut forms = unicode_lower_char(chars[i]);
        let ghost added = forms@;
        let ghost kept = lower@;
        lower.append(&mut forms);
        assert(lower@ =~= kept + added);
        i += 1;
    }
    assert(chars@.take(chars@.len() as int) =~= chars@);
    let mut slug: Vec<char> = Vec::new();
    let mut separator = false;
    let mut k: usize = 0;
    assert(lower@.take(0) =~= Seq::empty());
    while k < lower.len()
        invariant
            0 <= k <= lower.len(),
            slug@ == slug_state(lower@.take(k as int)).slug,
            separator == slug_state(lower@.take(k as int)).separator,
        decreases lower.len() - k,
    {
        assert(lower@.take(k + 1).drop_last() =~= lower@.take(k as int));
        if slug.len() < 40 {
            if ascii_word(lower[k]) {
                if separator && slug.len() > 0 {
                    slug.push('-');
                }
                slug.push(lower[k]);
                separator = false;
            } else {
                separator = true;
            }
        }
        k += 1;
    }
    proof {
        assert(lower@.take(lower@.len() as int) =~= lower@);
        lemma_lower_forms(value@);
        lemma_slug_state(lower@);
        reveal_strlit("task");
        reveal_strlit("-");
        assert("-"@ =~= seq!['-']);
        if slug@.len() > 0 {
            assert(!"-"@.contains(slug@.last()));
            assert(strip_end(slug@, "-"@) == slug@);
        }
    }
    if slug.len() == 0 {
        "task".to_owned()
    } else {
        trim_end_of(crate::text::from_chars(&slug).as_str(), "-")
    }
}

/// Whether a branch belongs to the runtime.
pub open spec fn is_own_branch(branch: Seq<char>) -> bool {
    begins_with(branch, "ditch/agent/"@) && !has_part(branch, ".."@) && !has_part(branch, "@{"@)
}

/// Refuses a branch that does not belong to the runtime.
pub fn validate_ditch_branch(branch: &str) -> (r: Result<(), GitError>)
    ensures
        match r {
            Ok(()) => is_own_branch(branch@),
            Err(e) => !is_own_branch(branch@) && e@ == fault(
                "unsafe_branch"@,
                "Refusing to mutate a branch not owned by Ditch"@,
            ),
        },
{
    if !starts_with(branch, "ditch/agent/") || contains(branch, "..") || contains(branch, "@{") {
        Err(git_error("unsafe_branch", "Refusing to mutate a branch not owned by Ditch"))
    } else {
        Ok(())
    }
}

/// The branch of a session with the given slug.
pub open spec fn agent_branch(session_id: u128, slug: Seq<char>) -> Seq<char> {
    "ditch/agent/"@ + hyphenated(session_id) + "/"@ + slug
}

/// The branch of a session with the given slug.
pub fn branch_for_agent(session_id: u128, slug: &str) -> (r: String)
    ensures
        r@ == agent_branch(session_id, slug@),
{
    let mut r = "ditch/agent/".to_owned();
    r.append(id_text(session_id).as_str());
    r.append("/");
    r.append(slug);
    r
}

/// The branch that is made for a session always belongs to the runtime.
pub proof fn lemma_agent_branch_is_own(session_id: u128, slug: Seq<char>)
    requires
        is_slug(slug),
    ensures
        is_own_branch(agent_branch(session_id, slug)),
{
    let branch = agent_branch(session_id, slug);
    let id = hyphenated(session_id);
    lemma_hex_digits(session_id as nat, 32);
    reveal_strlit("ditch/agent/");
    reveal_strlit("/");
    reveal_strlit("..");
    reveal_strlit("@{");
    assert(branch.subrange(0, 12) =~= "ditch/agent/"@);
    assert forall|i: int| 0 <= i < id.len() implies is_hex(#[trigger] id[i]) || id[i] == '-' by {
    }
    assert forall|i: int| 0 <= i < branch.len() implies #[trigger] branch[i] != '.' && branch[i] != '@' by {
        if i < 12 {
            assert(branch[i] == "ditch/agent/"@[i]);
        } else if i < 12 + id.len() {
            assert(branch[i] == id[i - 12]);
        } else if i == 12 + id.len() {
            assert(branch[i] == "/"@[0]);
        } else {
            assert(branch[i] == slug[i - 13 - id.len()]);
        }
    }
    assert forall|at: int| !#[trigger] stands_at(branch, ".."@, at) by {
        if stands_at(branch, ".."@, at) {
            assert(branch.subrange(at, at + 2)[0] == '.');
            assert(branch[at] == '.');
        }
    }
    assert forall|at: int| !#[trigger] stands_at(branch, "@{"@, at) by {
        if stands_at(branch, "@{"@, at) {
            assert(branch.subrange(at, at + 2)[0] == '@');
            assert(branch[at] == '@');
        }
    }
}

/// The branch on which a conflict of a session is resolved.
pub open spec fn resolver_branch(session_id: u128) -> Seq<char> {
    "ditch/resolver/"@ + simple_hex(session_id)
}

/// The branch on which a conflict of a session is resolved.
pub fn branch_for_resolver(session_id: u128) -> (r: String)
    ensures
        r@ == resolver_branch(session_id),
{
    let mut r = "ditch/resolver/".to_owned();
    r.append(id_hex(session_id).as_str());
    r
}

/// Refuses a resolver branch that does not belong to the session.
pub fn validate_resolution_branch(session_id: u128, branch: &str) -> (r: Result<(), GitError>)
    ensures
        match r {
            Ok(()) => branch@ == resolver_branch(session_id),
            Err(e) => branch@ != resolver_branch(session_id) && e@ == fault(
                "resolution_ownership_unproven"@,
                "Refusing to modify a resolver branch whose ownership cannot be proven"@,
            ),
        },
{
    let expected = branch_for_resolver(session_id);
    if same_text(branch, expected.as_str()) {
        Ok(())
    } else {
        Err(
            git_error(
                "resolution_ownership_unproven",
                "Refusing to modify a resolver branch whose ownership cannot be proven",
            ),
        )
    }
}

/// Whether the place of a worktree shows that it belongs to a session of a
/// project: `worktrees`, the project, and a name that starts with the session.
pub open spec fn is_managed_place(path: Seq<char>, project_id: u128, session_id: u128) -> bool {
    let parts = path_parts(path);
    &&& name_back(parts, 1) == Some(simple_hex(project_id))
    &&& name_back(parts, 2) == Some("worktrees"@)
    &&& name_back(parts, 0) is Some
    &&& begins_with(name_back(parts, 0)->0, simple_hex(session_id).take(12) + "-"@)
}

/// Refuses a worktree whose place does not show that it belongs to the session.
pub fn verify_managed_path(path: &str, project_id: u128, session_id: u128) -> (r: Result<(), GitError>)
    ensures
        match r {
            Ok(()) => is_managed_place(path@, project_id, session_id),
            Err(e) => !is_managed_place(path@, project_id, session_id) && e@ == fault(
                "worktree_ownership_unproven"@,
                "Refusing cleanup because the workspace path does not match Ditch ownership metadata"@,
            ),
        },
{
    let parts = parts_of(path);
    let project = id_hex(project_id);
    let session = id_hex(session_id);
    proof {
        lemma_hex_digits(session_id as nat, 32);
    }
    let mut prefix = take_chars(session.as_str(), 12);
    prefix.append("-");
    let leaf_fits = match crate::paths::last_name(path) {
        Some(leaf) => starts_with(leaf.as_str(), prefix.as_str()),
        None => false,
    };
    if named_back(&parts, 1, project.as_str()) && named_back(&parts, 2, "worktrees") && leaf_fits {
        Ok(())
    } else {
        Err(
            git_error(
                "worktree_ownership_unproven",
                "Refusing cleanup because the workspace path does not match Ditch ownership metadata",
            ),
        )
    }
}

/// Whether the place of a resolution workspace shows that it belongs to a
/// session of a project.
pub open spec fn is_resolution_place(path: Seq<char>, project_id: u128, session_id: u128) -> bool {
    let parts = path_parts(path);
    &&& name_back(parts, 1) == Some(simple_hex(project_id))
    &&& name_back(parts, 2) == Some("resolution-worktrees"@)
    &&& name_back(parts, 0) == Some(simple_hex(session_id))
}

/// Refuses a resolution workspace whose place does not show that it belongs to
/// the session.
pub fn verify_resolution_path(path: &str, project_id: u128, session_id: u128) -> (r: Result<(), GitError>)
    ensures
        match r {
            Ok(()) => is_resolution_place(path@, project_id, session_id),
            Err(e) => !is_resolution_place(path@, project_id, session_id) && e@ == fault(
                "resolution_ownership_unproven"@,
                "Refusing to modify a resolution workspace whose ownership cannot be proven"@,
            ),
        },
{
    let parts = parts_of(path);
    if named_back(&parts, 1, id_hex(project_id).as_str()) && named_back(&parts, 2, "resolution-worktrees")
        && named_back(&parts, 0, id_hex(session_id).as_str()) {
        Ok(())
    } else {
        Err(
            git_error(
                "resolution_ownership_unproven",
                "Refusing to modify a resolution workspace whose ownership cannot be proven",
            ),
        )
    }
}

/// Whether a path lies below a root and never climbs.
pub open spec fn is_child_place(path: Seq<char>, root: Seq<char>) -> bool {
    !path_parts(path).contains(".."@) && is_within(path, root)
}

/// Refuses a path outside the runtime's storage.
pub fn verify_child_path(root: &str, candidate: &str) -> (r: Result<(), GitError>)
    ensures
        match r {
            Ok(()) => is_child_place(candidate@, root@),
            Err(e) => !is_child_place(candidate@, root@) && e@ == fault(
                "managed_path_invalid"@,
                "The managed workspace path is outside Ditch storage"@,
            ),
        },
{
    let parts = parts_of(candidate);
    if holds_text(&parts, "..") || !within(candidate, root) {
        Err(git_error("managed_path_invalid", "The managed workspace path is outside Ditch storage"))
    } else {
        Ok(())
    }
}

/// The marks that may stand around a path in a sentence.
pub open spec fn quote_marks() -> Seq<char> {
    "`'\",;:()[]"@
}

/// A word without the marks around it.
pub open spec fn bare_word(word: Seq<char>) -> Seq<char> {
    strip_end(strip_start(word, quote_marks()), quote_marks())
}

/// Whether a word looks like a relative path: it has a directory separator, or
/// a short file extension.
pub open spec fn looks_like_path(word: Seq<char>) -> bool {
    &&& !begins_with(word, "/"@)
    &&& !has_part(word, ".."@)
    &&& (word.contains('/') || (after_last(word, '.') is Some && 0 < after_last(word, '.')->0.len()
        && byte_count(after_last(word, '.')->0) <= 12))
}

/// The repository path that a word of a prompt names.
pub open spec fn word_path(word: Seq<char>) -> Option<Seq<char>> {
    if looks_like_path(bare_word(word)) {
        match repository_path(strip_end(bare_word(word), "."@)) {
            Ok(path) => Some(path),
            Err(_) => None,
        }
    } else {
        None
    }
}

/// The repository paths that a list of words names.
pub open spec fn named_paths(list: Seq<Seq<char>>) -> Set<Seq<char>>
    decreases list.len(),
{
    if list.len() == 0 {
        Set::empty()
    } else {
        match word_path(list.last()) {
            Some(path) => named_paths(list.drop_last()).insert(path),
            None => named_paths(list.drop_last()),
        }
    }
}

/// Whether a word looks like a relative path.
fn path_like(word: &str) -> (r: bool)
    ensures
        r == looks_like_path(word@),
{
    if starts_with(word, "/") || contains(word, "..") {
        return false;
    }
    if contains_char(word, '/') {
        return true;
    }
    match after_last_char(word, '.') {
        Some(extension) => !extension.as_str().is_empty() && byte_len(extension.as_str()) <= 12,
        None => false,
    }
}

/// What a prompt says will change: the beginning of the prompt, and the paths
/// that it names.
pub fn infer_change_intent(prompt: &str) -> (r: ChangeIntent)
    ensures
        r.summary@ == first_chars(trimmed(prompt@), 240),
        texts_of(r.expected_paths@) == in_order(named_paths(words(prompt@))),
        r.shared_paths@.len() == 0,
{
    let list = split_words(prompt);
    let ghost views = texts_of(list@);
    let mut paths: Vec<String> = Vec::new();
    let mut i: usize = 0;
    proof {
        assert(views.take(0) =~= Seq::empty());
        assert(texts_of(paths@).to_set() =~= Set::empty());
    }
    while i < list.len()
        invariant
            0 <= i <= list.len(),
            views == texts_of(list@),
            ordered(texts_of(paths@)),
            texts_of(paths@).to_set() == named_paths(views.take(i as int)),
        decreases list.len() - i,
    {
        proof {
            assert(views.take(i + 1).drop_last() =~= views.take(i as int));
            assert(views.take(i + 1).last() == list@[i as int]@);
        }
        let bare = trim_end_of(
            trim_start_of(list[i].as_str(), "`'\",;:()[]").as_str(),
            "`'\",;:()[]",
        );
        if path_like(bare.as_str()) {
            match normalize_git_path(trim_end_of(bare.as_str(), ".").as_str()) {
                Ok(path) => {
                    insert_ordered(&mut paths, path);
                },
                Err(_) => {},
            }
        }
        i += 1;
    }
    proof {
        assert(views.take(list@.len() as int) =~= views);
        lemma_in_order(texts_of(paths@));
    }
    ChangeIntent {
        summary: take_chars(trim(prompt).as_str(), 240),
        expected_paths: paths,
        shared_paths: Vec::new(),
    }
}

/// A slug of up to forty characters is kept as it is, and whatever stands between
/// its words in their place, as long as it is neither a letter nor a digit, gives
/// the same slug.
pub proof fn lemma_words_become_a_slug(text: Seq<char>, slug: Seq<char>)
    requires
        is_slug(slug),
        slug.len() <= 40,
        lower_forms(text) == text,
        text.len() == slug.len(),
        forall|i: int|
            0 <= i < slug.len() ==> (if slug[i] == '-' {
                !is_ascii_word(#[trigger] text[i])
            } else {
                text[i] == slug[i]
            }),
    ensures
        slug_of(text) == slug,
        slug_of(slug) == slug,
{
    lemma_slug_prefix(slug, slug.len() as int);
    assert(slug.take(slug.len() as int) =~= slug);
    assert(slug_state(slug).slug == slug);
    lemma_slug_by_kind(text, slug);
    assert(!"-"@.contains(slug.last())) by {
        reveal_strlit("-");
    }
    lemma_slug_in_lower_case(slug);
}

proof fn lemma_slug_by_kind(left: Seq<char>, right: Seq<char>)
    requires
        left.len() == right.len(),
        forall|i: int|
            0 <= i < right.len() ==> #[trigger] left[i] == right[i] || (!is_ascii_word(left[i])
                && !is_ascii_word(right[i])),
    ensures
        slug_state(left) == slug_state(right),
    decreases left.len(),
{
    if left.len() > 0 {
        lemma_slug_by_kind(left.drop_last(), right.drop_last());
        assert(left[left.len() - 1] == left.last());
    }
}

/// A branch is never taken for the runtime's own where it does not start with
/// `ditch/agent/`, where it holds two dots in a row or `@{`.
pub proof fn lemma_foreign_branches_are_left_alone(branch: Seq<char>, i: int)
    requires
        is_own_branch(branch),
        0 <= i,
    ensures
        branch.len() >= 12,
        branch.take(12) == "ditch/agent/"@,
        i + 1 < branch.len() ==> !(branch[i] == '.' && branch[i + 1] == '.') && !(branch[i] == '@' && branch[i
            + 1] == '{'),
{
    reveal_strlit("ditch/agent/");
    reveal_strlit("..");
    reveal_strlit("@{");
    assert(branch.subrange(0, 12) =~= branch.take(12));
    if i + 1 < branch.len() {
        if branch[i] == '.' && branch[i + 1] == '.' {
            assert(branch.subrange(i, i + 2) =~= ".."@);
            assert(stands_at(branch, ".."@, i));
        }
        if branch[i] == '@' && branch[i + 1] == '{' {
            assert(branch.subrange(i, i + 2) =~= "@{"@);
            assert(stands_at(branch, "@{"@, i));
        }
    }
}

/// The branch of a session names the session and ends with the slug. Sessions
/// have branches of their own, both to work on and to resolve conflicts on.
pub proof fn lemma_branches_name_their_session(one: u128, other: u128, slug: Seq<char>, second: Seq<char>)
    ensures
        agent_branch(one, slug).len() == 12 + 36 + 1 + slug.len(),
        agent_branch(one, slug).take(12) == "ditch/agent/"@,
        agent_branch(one, slug).subrange(12, 48) == hyphenated(one),
        agent_branch(one, slug).skip(49) == slug,
        resolver_branch(one).len() == 15 + 32,
        resolver_branch(one).take(15) == "ditch/resolver/"@,
        resolver_branch(one).skip(15) == simple_hex(one),
        one != other ==> agent_branch(one, slug) != agent_branch(other, second),
        one != other ==> resolver_branch(one) != resolver_branch(other),
        agent_branch(one, slug) != resolver_branch(other),
{
    reveal_strlit("ditch/agent/");
    reveal_strlit("ditch/resolver/");
    reveal_strlit("/");
    lemma_ids_have_their_own_text(one, other);
    lemma_hex_digits(one as nat, 32);
    lemma_hex_digits(other as nat, 32);
    let branch = agent_branch(one, slug);
    assert(branch.take(12) =~= "ditch/agent/"@);
    assert(branch.subrange(12, 48) =~= hyphenated(one));
    assert(branch.skip(49) =~= slug);
    assert(agent_branch(other, second).subrange(12, 48) =~= hyphenated(other));
    assert(resolver_branch(one).take(15) =~= "ditch/resolver/"@);
    assert(resolver_branch(one).skip(15) =~= simple_hex(one));
    assert(resolver_branch(other).skip(15) =~= simple_hex(other));
    assert(branch[6] == 'a');
    assert(resolver_branch(other)[6] == 'r');
}

/// A place belongs to one session of one project alone: its last three parts are
/// `worktrees`, the project and a name that begins with the session's first digits,
/// or `resolution-worktrees`, the project and the session.
pub proof fn lemma_places_belong_to_their_project(path: Seq<char>, project: u128, session: u128, other: u128, second: u128)
    ensures
        is_managed_place(path, project, session) ==> {
            let parts = path_parts(path);
            let n = parts.len() as int;
            &&& n >= 3
            &&& parts[n - 3] == "worktrees"@
            &&& parts[n - 2] == simple_hex(project)
            &&& parts[n - 1].len() >= 13
            &&& parts[n - 1].take(12) == simple_hex(session).take(12)
            &&& parts[n - 1][12] == '-'
        },
        is_resolution_place(path, project, session) ==> {
            let parts = path_parts(path);
            let n = parts.len() as int;
            &&& n >= 3
            &&& parts[n - 3] == "resolution-worktrees"@
            &&& parts[n - 2] == simple_hex(project)
            &&& parts[n - 1] == simple_hex(session)
        },
        is_managed_place(path, project, session) && is_managed_place(path, other, second) ==> project == other,
        is_resolution_place(path, project, session) && is_resolution_place(path, other, second) ==> project
            == other && session == second,
        !(is_managed_place(path, project, session) && is_resolution_place(path, other, second)),
{
    reveal_strlit("-");
    reveal_strlit("worktrees");
    reveal_strlit("resolution-worktrees");
    lemma_ids_have_their_own_text(project, other);
    lemma_ids_have_their_own_text(session, second);
    lemma_hex_digits(session as nat, 32);
    assert("worktrees"@.len() != "resolution-worktrees"@.len());
    if is_managed_place(path, project, session) {
        let parts = path_parts(path);
        let name = parts[parts.len() - 1];
        let start = simple_hex(session).take(12) + "-"@;
        assert(name.subrange(0, 13) == start);
        assert(name.subrange(0, 13)[12] == name[12]);
        assert(start[12] == '-');
        assert forall|i: int| 0 <= i < 12 implies name[i] == simple_hex(session).take(12)[i] by {
            assert(name.subrange(0, 13)[i] == name[i]);
        }
        assert(name.take(12) =~= simple_hex(session).take(12));
    }
}

/// A word of a prompt counts as a path only where it is a relative one that
/// never climbs; then it is the word without the marks around it. A word with a
/// separator in it always does, unless Git would refuse it.
pub proof fn lemma_words_that_are_paths(word: Seq<char>)
    ensures
        word_path(word) is Some ==> {
            let bare = bare_word(word);
            &&& bare.len() > 0
            &&& bare[0] != '/'
            &&& !has_part(bare, ".."@)
            &&& repository_path(strip_end(bare, "."@)) is Ok
            &&& word_path(word) == Some(repository_path(strip_end(bare, "."@))->Ok_0)
        },
        ({
            let bare = bare_word(word);
            bare.contains('/') && bare[0] != '/' && !has_part(bare, ".."@) && repository_path(
                strip_end(bare, "."@),
            ) is Ok ==> word_path(word) is Some
        }),
{
    reveal_strlit("/");
    let bare = bare_word(word);
    if bare.len() > 0 {
        assert(begins_with(bare, "/"@) == (bare[0] == '/')) by {
            if bare[0] == '/' {
                assert(bare.subrange(0, 1) =~= "/"@);
            } else if begins_with(bare, "/"@) {
                assert(bare.subrange(0, 1)[0] == bare[0]);
            }
        }
    } else {
        assert(!bare.contains('/'));
        assert(after_last(bare, '.') is None);
    }
}

/// The paths that words name are those of the words, and no others.
pub proof fn lemma_named_paths_are_those_of_words(list: Seq<Seq<char>>, path: Seq<char>)
    ensures
        named_paths(list).contains(path) <==> exists|i: int|
            0 <= i < list.len() && word_path(#[trigger] list[i]) == Some(path),
    decreases list.len(),
{
    if list.len() > 0 {
        let before = list.drop_last();
        lemma_named_paths_are_those_of_words(before, path);
        assert forall|i: int| 0 <= i < before.len() implies #[trigger] before[i] == list[i] by {}
        if named_paths(before).contains(path) {
            let i = choose|i: int| 0 <= i < before.len() && word_path(#[trigger] before[i]) == Some(path);
            assert(word_path(list[i]) == Some(path));
        }
        if word_path(list.last()) == Some(path) {
            assert(word_path(list[list.len() - 1]) == Some(path));
        }
        if exists|i: int| 0 <= i < list.len() && word_path(#[trigger] list[i]) == Some(path) {
            let i = choose|i: int| 0 <= i < list.len() && word_path(#[trigger] list[i]) == Some(path);
            if i < before.len() {
                assert(word_path(before[i]) == Some(path));
            }
        }
    }
}

} // verus!
