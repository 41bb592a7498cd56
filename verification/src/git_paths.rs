//! What Git prints about paths: repository paths, status records, changed files
//! and worktree lists.

use crate::order::{insert_ordered, ordered};
use crate::text::{
    after_prefix, begins_with, contains_char, lemma_pieces_not_empty, pieces, replace_char, same_text,
    split_text, split_zero, starts_with, text_of, texts_of, utf8_text,
};
use vstd::prelude::*;
use vstd::string::*;
use vstd::utf8::{decode_utf8, valid_utf8};

verus! {

/// A failed Git operation: a stable code and a message for people.
#[derive(Debug)]
pub struct GitError {
    pub code: &'static str,
    pub message: String,
}

/// The mathematical value of a failure.
pub struct GitFault {
    pub code: Seq<char>,
    pub message: Seq<char>,
}

impl View for GitError {
    type V = GitFault;

    open spec fn view(&self) -> GitFault {
        GitFault { code: self.code@, message: self.message@ }
    }
}

impl GitError {
    /// The failure of an input or output operation, with its description.
    pub fn from_io(description: &str) -> (r: GitError)
        ensures
            r@ == fault("git_io_failed"@, description@),
    {
        git_error("git_io_failed", description)
    }

    /// The text that people are shown.
    pub fn text(&self) -> (r: String)
        ensures
            r@ == self@.message,
    {
        self.message.clone()
    }

    /// A failure equal to this one.
    pub fn copy(&self) -> (r: GitError)
        ensures
            r == *self,
    {
        GitError { code: self.code, message: self.message.clone() }
    }
}

/// The failure with the given code and message.
pub open spec fn fault(code: Seq<char>, message: Seq<char>) -> GitFault {
    GitFault { code, message }
}

/// The failure with the given code and message.
pub fn git_error(code: &'static str, message: &str) -> (r: GitError)
    ensures
        r@ == fault(code@, message@),
{
    GitError { code, message: message.to_owned() }
}

/// A sentence about a task: what stands before the word, and what follows it.
pub open spec fn of_task(start: Seq<char>, rest: Seq<char>) -> Seq<char> {
    start + " task "@ + rest
}

/// A sentence about a task.
pub fn task_text(start: &str, rest: &str) -> (r: String)
    ensures
        r@ == of_task(start@, rest@),
{
    let mut text = start.to_owned();
    text.append(" task ");
    text.append(rest);
    text
}

/// One worktree as `git worktree list --porcelain -z` describes it.
#[derive(Clone, Debug, PartialEq, Eq)]
pub struct ListedWorktree {
    pub path: String,
    pub head: Option<String>,
    pub branch: Option<String>,
    pub locked: bool,
    pub prunable: bool,
}

/// The mathematical value of a listed worktree.
pub struct ListedView {
    pub path: Seq<char>,
    pub head: Option<Seq<char>>,
    pub branch: Option<Seq<char>>,
    pub locked: bool,
    pub prunable: bool,
}

impl View for ListedWorktree {
    type V = ListedView;

    open spec fn view(&self) -> ListedView {
        ListedView {
            path: self.path@,
            head: text_of(self.head),
            branch: text_of(self.branch),
            locked: self.locked,
            prunable: self.prunable,
        }
    }
}

/// One changed file between two commits.
#[derive(Clone, Debug, PartialEq, Eq)]
pub struct WorktreeFileChange {
    pub status: String,
    pub path: String,
    pub previous_path: Option<String>,
}

/// The mathematical value of a changed file.
pub struct ChangeView {
    pub status: Seq<char>,
    pub path: Seq<char>,
    pub previous_path: Option<Seq<char>>,
}

impl View for WorktreeFileChange {
    type V = ChangeView;

    open spec fn view(&self) -> ChangeView {
        ChangeView {
            status: self.status@,
            path: self.path@,
            previous_path: text_of(self.previous_path),
        }
    }
}

/// Whether a relative path begins at the current directory or climbs to a
/// parent directory.
pub open spec fn leaves_its_place(path: Seq<char>) -> bool {
    let steps = pieces(path, '/');
    steps[0] == "."@ || steps.contains(".."@)
}

/// The repository path that Git's text stands for.
pub open spec fn repository_path(value: Seq<char>) -> Result<Seq<char>, GitFault> {
    if value.len() == 0 || value[0] == '/' || value.contains('\0') {
        Err(fault("invalid_git_path"@, "Git returned an unsafe repository path"@))
    } else if leaves_its_place(value) {
        Err(fault("invalid_git_path"@, "Unsafe repository path: "@ + value))
    } else {
        Ok(value.map_values(|c: char| if c == '\\' { '/' } else { c }))
    }
}

/// The repository path that the bytes of a status record stand for.
pub open spec fn byte_path(bytes: Seq<u8>) -> Result<Seq<char>, GitFault> {
    if valid_utf8(bytes) {
        repository_path(decode_utf8(bytes))
    } else {
        Err(not_utf8_path())
    }
}

pub open spec fn not_utf8_path() -> GitFault {
    fault(
        "non_utf8_git_path"@,
        "This repository contains a non-UTF-8 path, which this Ditch version cannot safely display"@,
    )
}

/// What follows so many spaces.
pub open spec fn after_spaces(field: Seq<u8>, spaces: nat) -> Option<Seq<u8>>
    decreases field.len(),
{
    if spaces == 0 {
        Some(field)
    } else if field.len() == 0 {
        None
    } else if field[0] == 32u8 {
        after_spaces(field.drop_first(), (spaces - 1) as nat)
    } else {
        after_spaces(field.drop_first(), spaces)
    }
}

/// The path behind so many spaces of a status record.
pub open spec fn status_path(field: Seq<u8>, spaces: nat) -> Result<Seq<char>, GitFault> {
    match after_spaces(field, spaces) {
        Some(rest) => byte_path(rest),
        None => Err(fault("git_status_parse_failed"@, "Malformed porcelain v2 status record"@)),
    }
}

/// How many spaces stand before the path of a status record of the given kind,
/// where the kind carries one: untracked, changed, renamed and unmerged files.
pub open spec fn spaces_before_path(kind: u8) -> Option<nat> {
    if kind == 63u8 {
        Some(1)
    } else if kind == 49u8 {
        Some(8)
    } else if kind == 50u8 {
        Some(9)
    } else if kind == 117u8 {
        Some(10)
    } else {
        None
    }
}

/// The set of paths that status records name, where all of them can be read.
pub open spec fn status_paths(fields: Seq<Seq<u8>>) -> Result<Set<Seq<char>>, GitFault>
    decreases fields.len(),
{
    if fields.len() == 0 {
        Ok(Set::empty())
    } else if fields[0].len() == 0 || spaces_before_path(fields[0][0]) is None {
        status_paths(fields.skip(1))
    } else {
        match status_path(fields[0], spaces_before_path(fields[0][0])->0) {
            Err(e) => Err(e),
            Ok(path) => if fields[0][0] == 50u8 && fields.len() > 1 {
                match byte_path(fields[1]) {
                    Err(e) => Err(e),
                    Ok(original) => joined_paths(
                        Set::empty().insert(path).insert(original),
                        status_paths(fields.skip(2)),
                    ),
                }
            } else {
                joined_paths(Set::empty().insert(path), status_paths(fields.skip(1)))
            },
        }
    }
}

/// The union of some paths with what follows.
pub open spec fn joined_paths(
    paths: Set<Seq<char>>,
    rest: Result<Set<Seq<char>>, GitFault>,
) -> Result<Set<Seq<char>>, GitFault> {
    match rest {
        Ok(more) => Ok(paths.union(more)),
        Err(e) => Err(e),
    }
}

/// Whether a change status tells of a rename or a copy.
pub open spec fn is_renamed(status: Seq<char>) -> bool {
    status.len() > 0 && (status[0] == 'R' || status[0] == 'C')
}

/// The changes that the fields of `git diff --name-status -z` tell of.
pub open spec fn named_changes(fields: Seq<Seq<u8>>) -> Result<Seq<ChangeView>, GitFault>
    decreases fields.len(),
{
    if fields.len() == 0 {
        Ok(Seq::empty())
    } else if !valid_utf8(fields[0]) {
        Err(fault("git_diff_parse_failed"@, "Git returned a non-UTF-8 change status"@))
    } else {
        let status = decode_utf8(fields[0]);
        let used: int = if is_renamed(status) { 3 } else { 2 };
        if fields.len() < used {
            Err(fault("git_diff_parse_failed"@, "Git returned an incomplete changed-file record"@))
        } else {
            match named_change(status, fields) {
                Err(e) => Err(e),
                Ok(change) => match named_changes(fields.skip(used)) {
                    Err(e) => Err(e),
                    Ok(rest) => Ok(seq![change] + rest),
                },
            }
        }
    }
}

/// The change that a complete record tells of.
pub open spec fn named_change(status: Seq<char>, fields: Seq<Seq<u8>>) -> Result<ChangeView, GitFault> {
    if !valid_utf8(fields[1]) || (is_renamed(status) && !valid_utf8(fields[2])) {
        Err(not_utf8_path())
    } else {
        match repository_path(decode_utf8(fields[1])) {
            Err(e) => Err(e),
            Ok(first) => if is_renamed(status) {
                match repository_path(decode_utf8(fields[2])) {
                    Err(e) => Err(e),
                    Ok(second) => Ok(ChangeView { status, path: second, previous_path: Some(first) }),
                }
            } else {
                Ok(ChangeView { status, path: first, previous_path: None })
            },
        }
    }
}

/// The fields that are not empty.
pub open spec fn filled_fields(fields: Seq<Seq<u8>>) -> Seq<Seq<u8>>
    decreases fields.len(),
{
    if fields.len() == 0 {
        Seq::empty()
    } else if fields.last().len() > 0 {
        filled_fields(fields.drop_last()).push(fields.last())
    } else {
        filled_fields(fields.drop_last())
    }
}

/// The worktrees that a list has finished, and the one it is describing.
pub struct ListProgress {
    pub done: Seq<ListedView>,
    pub current: Option<ListedView>,
}

impl ListProgress {
    /// All worktrees seen so far.
    pub open spec fn all(self) -> Seq<ListedView> {
        match self.current {
            Some(item) => self.done.push(item),
            None => self.done,
        }
    }
}

/// Whether a line holds a word alone or followed by a space.
pub open spec fn flagged(line: Seq<char>, word: Seq<char>) -> bool {
    line == word || begins_with(line, word + seq![' '])
}

/// The description of a worktree after one more of its lines.
pub open spec fn described(item: ListedView, line: Seq<char>) -> ListedView {
    if begins_with(line, "HEAD "@) {
        ListedView { head: Some(line.skip("HEAD "@.len() as int)), ..item }
    } else if begins_with(line, "branch "@) {
        ListedView { branch: Some(line.skip("branch "@.len() as int)), ..item }
    } else if flagged(line, "locked"@) {
        ListedView { locked: true, ..item }
    } else if flagged(line, "prunable"@) {
        ListedView { prunable: true, ..item }
    } else {
        item
    }
}

/// The progress of a list after one more field.
pub open spec fn list_step(before: ListProgress, field: Seq<u8>) -> Result<ListProgress, GitFault> {
    if field.len() == 0 {
        Ok(ListProgress { done: before.all(), current: None })
    } else if !valid_utf8(field) {
        Err(fault("worktree_parse_failed"@, "Git returned a non-UTF-8 worktree path"@))
    } else {
        let line = decode_utf8(field);
        if begins_with(line, "worktree "@) {
            Ok(
                ListProgress {
                    done: before.all(),
                    current: Some(
                        ListedView {
                            path: line.skip("worktree "@.len() as int),
                            head: None,
                            branch: None,
                            locked: false,
                            prunable: false,
                        },
                    ),
                },
            )
        } else {
            match before.current {
                Some(item) => Ok(
                    ListProgress { done: before.done, current: Some(described(item, line)) },
                ),
                None => Ok(before),
            }
        }
    }
}

/// The progress of a list after all its fields.
pub open spec fn list_progress(fields: Seq<Seq<u8>>) -> Result<ListProgress, GitFault>
    decreases fields.len(),
{
    if fields.len() == 0 {
        Ok(ListProgress { done: Seq::empty(), current: None })
    } else {
        match list_progress(fields.drop_last()) {
            Ok(before) => list_step(before, fields.last()),
            Err(e) => Err(e),
        }
    }
}

/// The repository path that Git's text stands for.
pub fn normalize_git_path(value: &str) -> (r: Result<String, GitError>)
    ensures
        match r {
            Ok(path) => repository_path(value@) == Ok::<Seq<char>, GitFault>(path@),
            Err(e) => repository_path(value@) == Err::<Seq<char>, GitFault>(e@),
        },
{
    proof {
        reveal_strlit("/");
    }
    if value.is_empty() || starts_with(value, "/") || contains_char(value, '\0') {
        assert(begins_with(value@, "/"@) ==> value@.subrange(0, 1)[0] == '/');
        return Err(git_error("invalid_git_path", "Git returned an unsafe repository path"));
    }
    assert(value@[0] == '/' ==> value@.subrange(0, 1) =~= "/"@);
    let steps = split_text(value, '/');
    proof {
        lemma_pieces_not_empty(value@, '/');
        assert(texts_of(steps@)[0] == steps@[0]@);
    }
    if same_text(steps[0].as_str(), ".") || crate::text::holds_text(&steps, "..") {
        let mut message = "Unsafe repository path: ".to_owned();
        message.append(value);
        return Err(git_error("invalid_git_path", message.as_str()));
    }
    Ok(replace_char(value, '\\', '/'))
}

/// Adds the repository path that some bytes stand for to a list in order.
pub fn insert_git_path(path: &[u8], paths: &mut Vec<String>) -> (r: Result<(), GitError>)
    requires
        ordered(texts_of(old(paths)@)),
    ensures
        ordered(texts_of(final(paths)@)),
        match r {
            Ok(()) => byte_path(path@) is Ok && texts_of(final(paths)@).to_set() == texts_of(
                old(paths)@,
            ).to_set().insert(byte_path(path@)->Ok_0),
            Err(e) => byte_path(path@) == Err::<Seq<char>, GitFault>(e@) && *final(paths) == *old(paths),
        },
{
    match utf8_text(path) {
        None => Err(
            git_error(
                "non_utf8_git_path",
                "This repository contains a non-UTF-8 path, which this Ditch version cannot safely display",
            ),
        ),
        Some(value) => match normalize_git_path(value.as_str()) {
            Ok(normalized) => {
                insert_ordered(paths, normalized);
                Ok(())
            },
            Err(e) => Err(e),
        },
    }
}

/// Adds the path behind so many spaces of a status record to a list in order.
pub fn insert_status_path(field: &[u8], spaces: usize, paths: &mut Vec<String>) -> (r: Result<
    (),
    GitError,
>)
    requires
        ordered(texts_of(old(paths)@)),
    ensures
        ordered(texts_of(final(paths)@)),
        match r {
            Ok(()) => status_path(field@, spaces as nat) is Ok && texts_of(final(paths)@).to_set()
                == texts_of(old(paths)@).to_set().insert(status_path(field@, spaces as nat)->Ok_0),
            Err(e) => status_path(field@, spaces as nat) == Err::<Seq<char>, GitFault>(e@)
                && *final(paths) == *old(paths),
        },
{
    let mut offset: usize = 0;
    let mut left: usize = spaces;
    assert(field@.skip(0) =~= field@);
    while left > 0
        invariant
            0 <= offset <= field.len(),
            after_spaces(field@, spaces as nat) == after_spaces(field@.skip(offset as int), left as nat),
            *paths == *old(paths),
            ordered(texts_of(paths@)),
        decreases field.len() - offset,
    {
        if offset >= field.len() {
            return Err(git_error("git_status_parse_failed", "Malformed porcelain v2 status record"));
        }
        assert(field@.skip(offset as int).drop_first() =~= field@.skip(offset + 1));
        if field[offset] == 32 {
            left -= 1;
        }
        offset += 1;
    }
    let mut rest: Vec<u8> = Vec::new();
    let mut i: usize = offset;
    while i < field.len()
        invariant
            offset <= i <= field.len(),
            rest@ == field@.subrange(offset as int, i as int),
        decreases field.len() - i,
    {
        rest.push(field[i]);
        i += 1;
        assert(rest@ =~= field@.subrange(offset as int, i as int));
    }
    assert(rest@ =~= field@.skip(offset as int));
    insert_git_path(rest.as_slice(), paths)
}

proof fn lemma_joined(a: Set<Seq<char>>, b: Set<Seq<char>>, rest: Result<Set<Seq<char>>, GitFault>)
    ensures
        joined_paths(a, joined_paths(b, rest)) == joined_paths(a.union(b), rest),
{
    match rest {
        Ok(more) => {
            assert(a.union(b.union(more)) =~= a.union(b).union(more));
        },
        Err(_) => {},
    }
}

/// The paths that `git status --porcelain=v2 -z` names, in order and each once.
pub fn parse_status_porcelain_v2(bytes: &[u8]) -> (r: Result<Vec<String>, GitError>)
    ensures
        match r {
            Ok(paths) => ordered(texts_of(paths@)) && status_paths(pieces(bytes@, 0u8)) == Ok::<
                Set<Seq<char>>,
                GitFault,
            >(texts_of(paths@).to_set()),
            Err(e) => status_paths(pieces(bytes@, 0u8)) == Err::<Set<Seq<char>>, GitFault>(e@),
        },
{
    let fields = split_zero(bytes);
    let ghost views = pieces(bytes@, 0u8);
    let mut paths: Vec<String> = Vec::new();
    let mut index: usize = 0;
    proof {
        assert(views.skip(0) =~= views);
        assert(texts_of(paths@).to_set() =~= Set::empty());
        match status_paths(views) {
            Ok(s) => {
                assert(Set::<Seq<char>>::empty().union(s) =~= s);
            },
            Err(_) => {},
        }
    }
    while index < fields.len()
        invariant
            0 <= index <= fields.len(),
            views == pieces(bytes@, 0u8),
            fields.len() == views.len(),
            forall|i: int| 0 <= i < fields.len() ==> #[trigger] fields@[i]@ == views[i],
            ordered(texts_of(paths@)),
            status_paths(views) == joined_paths(
                texts_of(paths@).to_set(),
                status_paths(views.skip(index as int)),
            ),
        decreases fields.len() - index,
    {
        let ghost before = texts_of(paths@).to_set();
        let ghost here = views.skip(index as int);
        assert(here[0] == fields@[index as int]@);
        assert(here.skip(1) =~= views.skip(index + 1));
        let field = &fields[index];
        index += 1;
        if field.len() == 0 {
            continue;
        }
        let kind: u8 = field[0];
        let spaces: usize = if kind == 63 {
            1
        } else if kind == 49 {
            8
        } else if kind == 50 {
            9
        } else if kind == 117 {
            10
        } else {
            continue;
        };
        match insert_status_path(field.as_slice(), spaces, &mut paths) {
            Err(e) => {
                return Err(e);
            },
            Ok(()) => {},
        }
        let ghost path = status_path(here[0], spaces as nat)->Ok_0;
        proof {
            assert(before.union(Set::empty().insert(path)) =~= texts_of(paths@).to_set());
        }
        if kind == 50 && index < fields.len() {
            assert(here[1] == fields@[index as int]@);
            assert(here.skip(2) =~= views.skip(index + 1));
            match insert_git_path(fields[index].as_slice(), &mut paths) {
                Err(e) => {
                    return Err(e);
                },
                Ok(()) => {},
            }
            proof {
                let original = byte_path(here[1])->Ok_0;
                let both = Set::empty().insert(path).insert(original);
                assert(before.union(both) =~= texts_of(paths@).to_set());
                lemma_joined(before, both, status_paths(here.skip(2)));
            }
            index += 1;
        } else {
            proof {
                assert(kind == 50 ==> here.len() == 1);
                lemma_joined(before, Set::empty().insert(path), status_paths(here.skip(1)));
            }
        }
    }
    proof {
        assert(views.skip(index as int) =~= Seq::empty());
        assert(texts_of(paths@).to_set().union(Set::empty()) =~= texts_of(paths@).to_set());
    }
    Ok(paths)
}

/// Whether a path belongs to the user rather than to the runtime's own metadata.
pub open spec fn is_user_path(path: Seq<char>) -> bool {
    path != ".ditch"@ && !begins_with(path, ".ditch/"@)
}

/// The paths of a list that belong to the user.
pub open spec fn user_paths(paths: Seq<Seq<char>>) -> Seq<Seq<char>>
    decreases paths.len(),
{
    if paths.len() == 0 {
        Seq::empty()
    } else if is_user_path(paths.last()) {
        user_paths(paths.drop_last()).push(paths.last())
    } else {
        user_paths(paths.drop_last())
    }
}

/// The paths of a list that belong to the user.
pub fn user_changed_paths(paths: &Vec<String>) -> (r: Vec<String>)
    ensures
        texts_of(r@) == user_paths(texts_of(paths@)),
{
    let mut kept: Vec<String> = Vec::new();
    let ghost views = texts_of(paths@);
    let mut i: usize = 0;
    assert(views.take(0) =~= Seq::empty());
    assert(texts_of(kept@) =~= Seq::empty());
    while i < paths.len()
        invariant
            0 <= i <= paths.len(),
            views == texts_of(paths@),
            texts_of(kept@) == user_paths(views.take(i as int)),
        decreases paths.len() - i,
    {
        let ghost before = texts_of(kept@);
        assert(views.take(i + 1).drop_last() =~= views.take(i as int));
        assert(views.take(i + 1).last() == paths@[i as int]@);
        if !same_text(paths[i].as_str(), ".ditch") && !starts_with(paths[i].as_str(), ".ditch/") {
            kept.push(paths[i].clone());
            assert(texts_of(kept@) =~= before.push(paths@[i as int]@));
        }
        i += 1;
    }
    assert(views.take(paths@.len() as int) =~= views);
    kept
}

/// The changes that `git diff --name-status -z` tells of.
pub fn parse_name_status_z(bytes: &[u8]) -> (r: Result<Vec<WorktreeFileChange>, GitError>)
    ensures
        match r {
            Ok(changes) => named_changes(filled_fields(pieces(bytes@, 0u8))) == Ok::<
                Seq<ChangeView>,
                GitFault,
            >(changes@.map_values(|change: WorktreeFileChange| change@)),
            Err(e) => named_changes(filled_fields(pieces(bytes@, 0u8))) == Err::<
                Seq<ChangeView>,
                GitFault,
            >(e@),
        },
{
    let all = split_zero(bytes);
    let ghost every = pieces(bytes@, 0u8);
    let mut fields: Vec<Vec<u8>> = Vec::new();
    let mut i: usize = 0;
    assert(every.take(0) =~= Seq::empty());
    while i < all.len()
        invariant
            0 <= i <= all.len(),
            all.len() == every.len(),
            forall|k: int| 0 <= k < all.len() ==> #[trigger] all@[k]@ == every[k],
            fields.len() == filled_fields(every.take(i as int)).len(),
            forall|k: int|
                0 <= k < fields.len() ==> #[trigger] fields@[k]@ == filled_fields(every.take(i as int))[k],
        decreases all.len() - i,
    {
        assert(every.take(i + 1).drop_last() =~= every.take(i as int));
        assert(every.take(i + 1).last() == all@[i as int]@);
        if all[i].len() > 0 {
            let mut copy: Vec<u8> = Vec::new();
            let mut k: usize = 0;
            while k < all[i as usize].len()
                invariant
                    0 <= i < all.len(),
                    0 <= k <= all@[i as int].len(),
                    copy@ == all@[i as int]@.take(k as int),
                decreases all@[i as int].len() - k,
            {
                copy.push(all[i][k]);
                k += 1;
                assert(copy@ =~= all@[i as int]@.take(k as int));
            }
            assert(copy@ =~= all@[i as int]@);
            fields.push(copy);
        }
        i += 1;
    }
    assert(every.take(all@.len() as int) =~= every);
    let ghost views = filled_fields(every);
    let mut changes: Vec<WorktreeFileChange> = Vec::new();
    let ghost mut seen: Seq<ChangeView> = Seq::empty();
    let mut index: usize = 0;
    proof {
        assert(views.skip(0) =~= views);
        match named_changes(views) {
            Ok(s) => {
                assert(Seq::<ChangeView>::empty() + s =~= s);
            },
            Err(_) => {},
        }
    }
    while index < fields.len()
        invariant
            0 <= index <= fields.len(),
            fields.len() == views.len(),
            views == filled_fields(pieces(bytes@, 0u8)),
            forall|k: int| 0 <= k < fields.len() ==> #[trigger] fields@[k]@ == views[k],
            seen == changes@.map_values(|change: WorktreeFileChange| change@),
            named_changes(views) == (match named_changes(views.skip(index as int)) {
                Ok(rest) => Ok::<Seq<ChangeView>, GitFault>(seen + rest),
                Err(e) => Err::<Seq<ChangeView>, GitFault>(e),
            }),
        decreases fields.len() - index,
    {
        let ghost here = views.skip(index as int);
        assert(here[0] == fields@[index as int]@);
        let status = match utf8_text(fields[index].as_slice()) {
            Some(text) => text,
            None => {
                return Err(git_error("git_diff_parse_failed", "Git returned a non-UTF-8 change status"));
            },
        };
        proof {
            reveal_strlit("R");
            reveal_strlit("C");
            assert(status@.len() > 0 && status@[0] == 'R' ==> status@.subrange(0, 1) =~= "R"@);
            assert(status@.len() > 0 && status@[0] == 'C' ==> status@.subrange(0, 1) =~= "C"@);
            assert(begins_with(status@, "R"@) ==> status@.subrange(0, 1)[0] == 'R');
            assert(begins_with(status@, "C"@) ==> status@.subrange(0, 1)[0] == 'C');
        }
        let renamed = starts_with(status.as_str(), "R") || starts_with(status.as_str(), "C");
        let used: usize = if renamed {
            3
        } else {
            2
        };
        if fields.len() - index < used {
            return Err(
                git_error("git_diff_parse_failed", "Git returned an incomplete changed-file record"),
            );
        }
        assert(here[1] == fields@[index + 1]@);
        let first = match utf8_text(fields[index + 1].as_slice()) {
            Some(text) => text,
            None => {
                return Err(
                    git_error(
                        "non_utf8_git_path",
                        "This repository contains a non-UTF-8 path, which this Ditch version cannot safely display",
                    ),
                );
            },
        };
        let change = if renamed {
            assert(here[2] == fields@[index + 2]@);
            let second = match utf8_text(fields[index + 2].as_slice()) {
                Some(text) => text,
                None => {
                    return Err(
                        git_error(
                            "non_utf8_git_path",
                            "This repository contains a non-UTF-8 path, which this Ditch version cannot safely display",
                        ),
                    );
                },
            };
            let previous = match normalize_git_path(first.as_str()) {
                Ok(path) => path,
                Err(e) => {
                    return Err(e);
                },
            };
            let path = match normalize_git_path(second.as_str()) {
                Ok(path) => path,
                Err(e) => {
                    return Err(e);
                },
            };
            WorktreeFileChange { status, path, previous_path: Some(previous) }
        } else {
            let path = match normalize_git_path(first.as_str()) {
                Ok(path) => path,
                Err(e) => {
                    return Err(e);
                },
            };
            WorktreeFileChange { status, path, previous_path: None }
        };
        assert(named_change(decode_utf8(here[0]), here) == Ok::<ChangeView, GitFault>(change@));
        proof {
            assert(here.skip(used as int) =~= views.skip(index + used));
            match named_changes(here.skip(used as int)) {
                Ok(rest) => {
                    assert(seen + (seq![change@] + rest) =~= seen.push(change@) + rest);
                },
                Err(_) => {},
            }
            seen = seen.push(change@);
        }
        changes.push(change);
        assert(seen =~= changes@.map_values(|change: WorktreeFileChange| change@));
        index += used;
    }
    proof {
        assert(views.skip(index as int) =~= Seq::empty());
        assert(seen + Seq::<ChangeView>::empty() =~= seen);
    }
    Ok(changes)
}

/// The worktrees that `git worktree list --porcelain -z` describes.
pub fn parse_worktree_porcelain(bytes: &[u8]) -> (r: Result<Vec<ListedWorktree>, GitError>)
    ensures
        match r {
            Ok(list) => list_progress(pieces(bytes@, 0u8)) is Ok && list_progress(
                pieces(bytes@, 0u8),
            )->Ok_0.all() == list@.map_values(|item: ListedWorktree| item@),
            Err(e) => list_progress(pieces(bytes@, 0u8)) == Err::<ListProgress, GitFault>(e@),
        },
{
    let fields = split_zero(bytes);
    let ghost views = pieces(bytes@, 0u8);
    let mut done: Vec<ListedWorktree> = Vec::new();
    let mut current: Option<ListedWorktree> = None;
    let mut i: usize = 0;
    proof {
        assert(views.take(0) =~= Seq::empty());
        assert(done@.map_values(|item: ListedWorktree| item@) =~= Seq::empty());
    }
    while i < fields.len()
        invariant
            0 <= i <= fields.len(),
            views == pieces(bytes@, 0u8),
            fields.len() == views.len(),
            forall|k: int| 0 <= k < fields.len() ==> #[trigger] fields@[k]@ == views[k],
            list_progress(views.take(i as int)) == Ok::<ListProgress, GitFault>(
                ListProgress {
                    done: done@.map_values(|item: ListedWorktree| item@),
                    current: match current {
                        Some(item) => Some(item@),
                        None => None,
                    },
                },
            ),
        decreases fields.len() - i,
    {
        let ghost before = list_progress(views.take(i as int))->Ok_0;
        proof {
            assert(views.take(i + 1).drop_last() =~= views.take(i as int));
            assert(views.take(i + 1).last() == fields@[i as int]@);
            assert(views.take(fields@.len() as int) =~= views);
        }
        let field = &fields[i];
        i += 1;
        if field.len() == 0 {
            match current {
                Some(item) => {
                    let ghost listed = done@;
                    done.push(item);
                    assert(done@.map_values(|item: ListedWorktree| item@) =~= before.all());
                },
                None => {},
            }
            current = None;
            continue;
        }
        let line = match utf8_text(field.as_slice()) {
            Some(text) => text,
            None => {
                proof {
                    lemma_list_fails(views, i as int);
                }
                return Err(git_error("worktree_parse_failed", "Git returned a non-UTF-8 worktree path"));
            },
        };
        let path = after_prefix(line.as_str(), "worktree ");
        match path {
            Some(path) => {
                match current {
                    Some(item) => {
                        done.push(item);
                        assert(done@.map_values(|item: ListedWorktree| item@) =~= before.all());
                    },
                    None => {},
                }
                assert(path@ =~= line@.skip("worktree "@.len() as int));
                current = Some(
                    ListedWorktree { path, head: None, branch: None, locked: false, prunable: false },
                );
            },
            None => {
                match current {
                    Some(item) => {
                        let updated = describe(item, line.as_str());
                        current = Some(updated);
                    },
                    None => {
                        current = None;
                    },
                }
            },
        }
    }
    assert(views.take(fields@.len() as int) =~= views);
    let ghost end = list_progress(views)->Ok_0;
    match current {
        Some(item) => {
            done.push(item);
            assert(done@.map_values(|item: ListedWorktree| item@) =~= end.all());
        },
        None => {},
    }
    Ok(done)
}

proof fn lemma_list_fails(fields: Seq<Seq<u8>>, at: int)
    requires
        0 <= at <= fields.len(),
        list_progress(fields.take(at)) is Err,
    ensures
        list_progress(fields) == list_progress(fields.take(at)),
    decreases fields.len() - at,
{
    if at == fields.len() {
        assert(fields.take(at) =~= fields);
    } else {
        assert(fields.take(at + 1).drop_last() =~= fields.take(at));
        lemma_list_fails(fields, at + 1);
    }
}

/// The description of a worktree after one more of its lines.
fn describe(item: ListedWorktree, line: &str) -> (r: ListedWorktree)
    ensures
        r@ == described(item@, line@),
{
    let mut item = item;
    match after_prefix(line, "HEAD ") {
        Some(head) => {
            assert(head@ =~= line@.skip("HEAD "@.len() as int));
            item.head = Some(head);
            return item;
        },
        None => {},
    }
    match after_prefix(line, "branch ") {
        Some(branch) => {
            assert(branch@ =~= line@.skip("branch "@.len() as int));
            item.branch = Some(branch);
            return item;
        },
        None => {},
    }
    proof {
        reveal_strlit("locked");
        reveal_strlit("locked ");
        reveal_strlit("prunable");
        reveal_strlit("prunable ");
        assert("locked"@ + seq![' '] =~= "locked "@);
        assert("prunable"@ + seq![' '] =~= "prunable "@);
    }
    if same_text(line, "locked") || starts_with(line, "locked ") {
        item.locked = true;
    } else if same_text(line, "prunable") || starts_with(line, "prunable ") {
        item.prunable = true;
    }
    item
}

/// A repository path is never absolute, holds no zero, never climbs, and differs
/// from what Git printed in nothing but its separators. Everything else that Git
/// prints is taken.
pub proof fn lemma_repository_paths_are_safe(value: Seq<char>)
    ensures
        match repository_path(value) {
            Ok(path) => {
                &&& 0 < path.len() == value.len()
                &&& value[0] != '/'
                &&& !pieces(value, '/').contains(".."@)
                &&& forall|i: int|
                    0 <= i < path.len() ==> #[trigger] path[i] != '\\' && value[i] != '\0' && path[i] == (
                    if value[i] == '\\' {
                        '/'
                    } else {
                        value[i]
                    })
            },
            Err(e) => e.code == "invalid_git_path"@ && (value.len() == 0 || value[0] == '/'
                || value.contains('\0') || pieces(value, '/')[0] == "."@ || pieces(value, '/').contains(
                ".."@,
            )),
        },
{
    if repository_path(value) is Ok {
        let path = repository_path(value)->Ok_0;
        assert forall|i: int| 0 <= i < path.len() implies #[trigger] path[i] != '\\' && value[i] != '\0'
            && path[i] == (if value[i] == '\\' {
            '/'
        } else {
            value[i]
        }) by {
            assert(value.contains(value[i]));
        }
    }
}

/// How many spaces some bytes hold.
pub open spec fn spaces_in(bytes: Seq<u8>) -> nat
    decreases bytes.len(),
{
    if bytes.len() == 0 {
        0
    } else {
        spaces_in(bytes.drop_first()) + if bytes[0] == 32u8 {
            1nat
        } else {
            0nat
        }
    }
}

/// What follows the fields of a status record, each with a space behind it, is
/// its path, spaces in it and all.
pub proof fn lemma_path_follows_its_fields(head: Seq<u8>, path: Seq<u8>)
    requires
        head.len() > 0,
        head.last() == 32u8,
    ensures
        after_spaces(head + path, spaces_in(head)) == Some(path),
    decreases head.len(),
{
    let field = head + path;
    let rest = head.drop_first();
    assert(field.drop_first() =~= rest + path);
    assert(field[0] == head[0]);
    if head.len() == 1 {
        assert(rest =~= Seq::empty());
        assert(rest + path =~= path);
        assert(spaces_in(rest) == 0);
        assert(spaces_in(head) == 1);
        assert(after_spaces(path, 0) == Some(path));
    } else {
        assert(rest.last() == 32u8);
        lemma_path_follows_its_fields(rest, path);
        lemma_some_spaces(rest);
        assert(spaces_in(head) == spaces_in(rest) + if head[0] == 32u8 {
            1nat
        } else {
            0nat
        });
    }
}

proof fn lemma_some_spaces(bytes: Seq<u8>)
    requires
        bytes.len() > 0,
        bytes.last() == 32u8,
    ensures
        spaces_in(bytes) > 0,
    decreases bytes.len(),
{
    if bytes.len() > 1 {
        assert(bytes.drop_first().last() == 32u8);
        lemma_some_spaces(bytes.drop_first());
    }
}

/// Every file that a status tells of is found among its paths: an untracked one
/// behind one space, a changed one behind eight, an unmerged one behind ten, and a
/// renamed one behind nine, together with what it was called before.
pub proof fn lemma_status_names_its_files(head: Seq<u8>, path: Seq<u8>, former: Seq<u8>, rest: Seq<Seq<u8>>)
    requires
        head.len() > 0,
        head.last() == 32u8,
        byte_path(path) is Ok,
        byte_path(former) is Ok,
        status_paths(rest) is Ok,
    ensures
        (head[0] == '?' as u8 && spaces_in(head) == 1) || (head[0] == '1' as u8 && spaces_in(head) == 8) || (
        head[0] == 'u' as u8 && spaces_in(head) == 10) ==> status_paths(seq![head + path] + rest) == Ok::<
            Set<Seq<char>>,
            GitFault,
        >(status_paths(rest)->Ok_0.insert(byte_path(path)->Ok_0)),
        head[0] == '2' as u8 && spaces_in(head) == 9 ==> status_paths(seq![head + path, former] + rest) == Ok::<
            Set<Seq<char>>,
            GitFault,
        >(
            status_paths(rest)->Ok_0.insert(byte_path(path)->Ok_0).insert(byte_path(former)->Ok_0),
        ),
{
    lemma_path_follows_its_fields(head, path);
    let field = head + path;
    assert(field[0] == head[0]);
    let more = status_paths(rest)->Ok_0;
    let one = byte_path(path)->Ok_0;
    let two = byte_path(former)->Ok_0;
    assert((seq![field] + rest).skip(1) =~= rest);
    assert((seq![field, former] + rest).skip(2) =~= rest);
    assert((seq![field] + rest)[0] == field);
    assert((seq![field, former] + rest)[0] == field);
    assert((seq![field, former] + rest)[1] == former);
    assert(Set::empty().insert(one).union(more) =~= more.insert(one));
    assert(Set::empty().insert(one).insert(two).union(more) =~= more.insert(one).insert(two));
    assert('?' as u8 == 63u8 && '1' as u8 == 49u8 && 'u' as u8 == 117u8 && '2' as u8 == 50u8);
}

/// A status that has nothing but headers and ignored files names no path.
pub proof fn lemma_other_records_name_nothing(field: Seq<u8>, rest: Seq<Seq<u8>>)
    requires
        field.len() == 0 || field[0] == '#' as u8 || field[0] == '!' as u8,
    ensures
        status_paths(seq![field] + rest) == status_paths(rest),
{
    assert((seq![field] + rest).skip(1) =~= rest);
    assert((seq![field] + rest)[0] == field);
    assert('#' as u8 == 35u8 && '!' as u8 == 33u8);
}

/// The first change that is told is that of the first record. A renamed or copied
/// file is named by its new path, with the old one beside it; any other has no old
/// path. The changes behind it are those of the records behind it.
pub proof fn lemma_changes_are_those_told(fields: Seq<Seq<u8>>)
    requires
        fields.len() > 0,
        named_changes(fields) is Ok,
    ensures
        ({
            let changes = named_changes(fields)->Ok_0;
            let status = decode_utf8(fields[0]);
            &&& changes.len() > 0
            &&& changes[0].status == status
            &&& status.len() > 0 && (status[0] == 'R' || status[0] == 'C') ==> {
                &&& fields.len() >= 3
                &&& repository_path(decode_utf8(fields[1])) == Ok::<Seq<char>, GitFault>(
                    changes[0].previous_path->0,
                )
                &&& changes[0].previous_path is Some
                &&& repository_path(decode_utf8(fields[2])) == Ok::<Seq<char>, GitFault>(changes[0].path)
                &&& named_changes(fields.skip(3)) == Ok::<Seq<ChangeView>, GitFault>(changes.skip(1))
            }
            &&& status.len() == 0 || (status[0] != 'R' && status[0] != 'C') ==> {
                &&& fields.len() >= 2
                &&& changes[0].previous_path is None
                &&& repository_path(decode_utf8(fields[1])) == Ok::<Seq<char>, GitFault>(changes[0].path)
                &&& named_changes(fields.skip(2)) == Ok::<Seq<ChangeView>, GitFault>(changes.skip(1))
            }
        }),
{
    let status = decode_utf8(fields[0]);
    let used: int = if is_renamed(status) {
        3
    } else {
        2
    };
    let change = named_change(status, fields)->Ok_0;
    let rest = named_changes(fields.skip(used))->Ok_0;
    assert((seq![change] + rest).skip(1) =~= rest);
    assert((seq![change] + rest)[0] == change);
}

/// No field is lost but the empty ones, and their order is kept.
pub proof fn lemma_filled_fields_are_kept(fields: Seq<Seq<u8>>)
    ensures
        filled_fields(fields) == fields.filter(|field: Seq<u8>| field.len() > 0),
    decreases fields.len(),
{
    reveal(Seq::filter);
    if fields.len() > 0 {
        lemma_filled_fields_are_kept(fields.drop_last());
    }
}

/// A line about a worktree tells just what it says: its head, its branch, that it
/// is locked or that it can be pruned. Everything else stays as it was.
pub proof fn lemma_worktree_lines(item: ListedView, rest: Seq<char>)
    ensures
        described(item, "HEAD "@ + rest) == (ListedView { head: Some(rest), ..item }),
        described(item, "branch "@ + rest) == (ListedView { branch: Some(rest), ..item }),
        described(item, "locked"@) == (ListedView { locked: true, ..item }),
        described(item, "locked "@ + rest) == (ListedView { locked: true, ..item }),
        described(item, "prunable"@) == (ListedView { prunable: true, ..item }),
        described(item, "prunable "@ + rest) == (ListedView { prunable: true, ..item }),
        described(item, "bare"@) == item,
        described(item, "detached"@) == item,
{
    reveal_strlit("HEAD ");
    reveal_strlit("branch ");
    reveal_strlit("locked");
    reveal_strlit("locked ");
    reveal_strlit("prunable");
    reveal_strlit("prunable ");
    reveal_strlit("bare");
    reveal_strlit("detached");
    lemma_begins("HEAD "@, rest);
    lemma_begins("branch "@, rest);
    assert("locked"@ + seq![' '] =~= "locked "@);
    assert("prunable"@ + seq![' '] =~= "prunable "@);
    lemma_begins("locked "@, rest);
    lemma_begins("prunable "@, rest);
    lemma_other_start("branch "@ + rest, "HEAD "@);
    lemma_other_start("locked"@, "HEAD "@);
    lemma_other_start("locked"@, "branch "@);
    lemma_other_start("locked "@ + rest, "HEAD "@);
    lemma_other_start("locked "@ + rest, "branch "@);
    lemma_other_start("prunable"@, "HEAD "@);
    lemma_other_start("prunable"@, "branch "@);
    lemma_other_start("prunable"@, "locked "@);
    assert("prunable"@[0] != "locked"@[0]);
    lemma_other_start("prunable "@ + rest, "HEAD "@);
    lemma_other_start("prunable "@ + rest, "branch "@);
    lemma_other_start("prunable "@ + rest, "locked "@);
    assert(("prunable "@ + rest)[0] != "locked"@[0]);
    lemma_other_start("bare"@, "HEAD "@);
    lemma_other_start("bare"@, "locked "@);
    lemma_other_start("bare"@, "prunable "@);
    assert("bare"@.len() == 4 && "locked"@.len() == 6 && "prunable"@.len() == 8);
    assert(!begins_with("bare"@, "branch "@));
    lemma_other_start("detached"@, "HEAD "@);
    lemma_other_start("detached"@, "branch "@);
    lemma_other_start("detached"@, "locked "@);
    lemma_other_start("detached"@, "prunable "@);
    assert("detached"@[0] == 'd' && "prunable"@[0] == 'p');
}

proof fn lemma_begins(start: Seq<char>, rest: Seq<char>)
    ensures
        begins_with(start + rest, start),
        (start + rest).skip(start.len() as int) == rest,
{
    assert((start + rest).subrange(0, start.len() as int) =~= start);
    assert((start + rest).skip(start.len() as int) =~= rest);
}

proof fn lemma_other_start(text: Seq<char>, start: Seq<char>)
    requires
        text.len() > 0,
        start.len() > 0,
        text[0] != start[0],
    ensures
        !begins_with(text, start),
{
    if begins_with(text, start) {
        assert(text.subrange(0, start.len() as int)[0] == text[0]);
    }
}

/// A worktree is listed for each line that names one, with that path and with
/// nothing known of it yet; those before it stay listed. An empty field ends a
/// description and loses nothing.
pub proof fn lemma_named_worktrees_are_listed(before: ListProgress, field: Seq<u8>, path: Seq<char>)
    ensures
        field.len() > 0 && valid_utf8(field) && decode_utf8(field) == "worktree "@ + path ==> (list_step(
            before,
            field,
        ) matches Ok(after) && after.all() == before.all().push(
            ListedView { path, head: None, branch: None, locked: false, prunable: false },
        )),
        field.len() == 0 ==> (list_step(before, field) matches Ok(after) && after.all() == before.all()
            && after.current is None),
        field.len() > 0 && !valid_utf8(field) ==> (list_step(before, field) matches Err(e) && e.code
            == "worktree_parse_failed"@),
{
    lemma_begins("worktree "@, path);
}

/// A path is the user's unless it is `.ditch` or lies below it; such paths are
/// left out of a list, and no others.
pub proof fn lemma_own_paths_are_left_out(paths: Seq<Seq<char>>, path: Seq<char>)
    ensures
        user_paths(paths).contains(path) <==> paths.contains(path) && path != ".ditch"@ && !(path.len() >= 7
            && path.take(7) == ".ditch/"@),
    decreases paths.len(),
{
    reveal_strlit(".ditch/");
    if path.len() >= 7 {
        assert(path.subrange(0, 7) =~= path.take(7));
    }
    if paths.len() > 0 {
        let before = paths.drop_last();
        lemma_own_paths_are_left_out(before, path);
        assert(paths =~= before.push(paths.last()));
        lemma_pushed_contains(before, paths.last(), path);
        lemma_pushed_contains(user_paths(before), paths.last(), path);
    }
}

proof fn lemma_pushed_contains(list: Seq<Seq<char>>, last: Seq<char>, text: Seq<char>)
    ensures
        list.push(last).contains(text) <==> list.contains(text) || last == text,
{
    let pushed = list.push(last);
    if list.contains(text) {
        let i = choose|i: int| 0 <= i < list.len() && list[i] == text;
        assert(pushed[i] == text);
    }
    if last == text {
        assert(pushed[list.len() as int] == text);
    }
    if pushed.contains(text) {
        let i = choose|i: int| 0 <= i < pushed.len() && pushed[i] == text;
        if i < list.len() {
            assert(list[i] == text);
        }
    }
}

} // verus!
