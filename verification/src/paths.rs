//! File paths with `/` between their steps.

use crate::text::{
    ends_with, finishes_with, glue_texts, glued, lemma_pieces_not_empty, pieces, same_text, split_text,
    starts_with, texts_of,
};
use vstd::prelude::*;
use vstd::string::*;

verus! {

/// The steps that are neither empty nor the current directory.
pub open spec fn real_steps(steps: Seq<Seq<char>>) -> Seq<Seq<char>>
    decreases steps.len(),
{
    if steps.len() == 0 {
        Seq::empty()
    } else if steps.last().len() == 0 || steps.last() == "."@ {
        real_steps(steps.drop_last())
    } else {
        real_steps(steps.drop_last()).push(steps.last())
    }
}

/// Whether a path starts at the root.
pub open spec fn is_absolute(path: Seq<char>) -> bool {
    path.len() > 0 && path[0] == '/'
}

/// The part of a path that says where it starts: at the root, at the current
/// directory, or nothing.
pub open spec fn start_part(path: Seq<char>) -> Seq<Seq<char>> {
    if is_absolute(path) {
        seq!["/"@]
    } else if pieces(path, '/')[0] == "."@ {
        seq!["."@]
    } else {
        Seq::empty()
    }
}

/// The parts of a path, repeated separators and inner `.` left out.
pub open spec fn path_parts(path: Seq<char>) -> Seq<Seq<char>> {
    start_part(path) + real_steps(pieces(path, '/'))
}

/// Whether a part is the name of a file or a directory.
pub open spec fn is_name(part: Seq<char>) -> bool {
    part != "/"@ && part != "."@ && part != ".."@
}

/// The name so many parts before the last one, where there is a name.
pub open spec fn name_back(parts: Seq<Seq<char>>, back: int) -> Option<Seq<char>> {
    let at = parts.len() - 1 - back;
    if 0 <= at && is_name(parts[at]) {
        Some(parts[at])
    } else {
        None
    }
}

/// Whether a path lies at or below another.
pub open spec fn is_within(path: Seq<char>, root: Seq<char>) -> bool {
    let parts = path_parts(path);
    let base = path_parts(root);
    base.len() <= parts.len() && parts.take(base.len() as int) == base
}

/// A path continued by another, which stands for itself where it is absolute.
pub open spec fn joined_path(root: Seq<char>, rest: Seq<char>) -> Seq<char> {
    if is_absolute(rest) {
        rest
    } else if root.len() == 0 || root.last() == '/' {
        root + rest
    } else {
        root + seq!['/'] + rest
    }
}

/// The path from one place to another below it.
pub open spec fn path_below(path: Seq<char>, root: Seq<char>) -> Seq<char> {
    glued(path_parts(path).skip(path_parts(root).len() as int), "/"@)
}

proof fn lemma_pieces_joined(a: Seq<char>, b: Seq<char>, separator: char)
    ensures
        pieces(a + b, separator) == pieces(a, separator).drop_last() + seq![
            pieces(a, separator).last() + pieces(b, separator)[0],
        ] + pieces(b, separator).drop_first(),
    decreases b.len(),
{
    lemma_pieces_not_empty(a, separator);
    lemma_pieces_not_empty(b, separator);
    let first = pieces(a, separator);
    if b.len() == 0 {
        assert(a + b =~= a);
        assert(first.last() + pieces(b, separator)[0] =~= first.last());
        assert(first =~= first.drop_last() + seq![first.last()] + pieces(b, separator).drop_first());
    } else {
        let shorter = b.drop_last();
        let c = b.last();
        lemma_pieces_joined(a, shorter, separator);
        lemma_pieces_not_empty(shorter, separator);
        assert((a + b).drop_last() =~= a + shorter);
        let before = pieces(a + shorter, separator);
        let rest = pieces(shorter, separator);
        let whole = first.drop_last() + seq![first.last() + pieces(b, separator)[0]] + pieces(
            b,
            separator,
        ).drop_first();
        if c == separator {
            assert(pieces(b, separator) =~= rest.push(Seq::empty()));
            assert(before.push(Seq::empty()) =~= whole);
        } else {
            assert(pieces(b, separator) =~= rest.update(rest.len() - 1, rest.last().push(c)));
            let last = before.len() - 1;
            if rest.len() == 1 {
                assert(before[last] == first.last() + rest[0]);
                assert((first.last() + rest[0]).push(c) =~= first.last() + rest[0].push(c));
            } else {
                assert(before[last] == rest.last());
            }
            assert(before.update(last, before.last().push(c)) =~= whole);
        }
    }
}

proof fn lemma_real_steps_joined(a: Seq<Seq<char>>, b: Seq<Seq<char>>)
    ensures
        real_steps(a + b) == real_steps(a) + real_steps(b),
    decreases b.len(),
{
    if b.len() == 0 {
        assert(a + b =~= a);
        assert(real_steps(a) + real_steps(b) =~= real_steps(a));
    } else {
        assert((a + b).drop_last() =~= a + b.drop_last());
        lemma_real_steps_joined(a, b.drop_last());
        assert(real_steps(a + b) =~= real_steps(a) + real_steps(b));
    }
}

/// A path continued by one that is not absolute lies below it: its parts, then the
/// steps of the other.
pub proof fn lemma_joined_is_below(root: Seq<char>, rest: Seq<char>)
    requires
        root.len() > 0,
        !is_absolute(rest),
    ensures
        path_parts(joined_path(root, rest)) == path_parts(root) + real_steps(pieces(rest, '/')),
        is_within(joined_path(root, rest), root),
{
    let joined = joined_path(root, rest);
    let own = pieces(root, '/');
    let more = pieces(rest, '/');
    let all = pieces(joined, '/');
    lemma_pieces_not_empty(root, '/');
    lemma_pieces_not_empty(rest, '/');
    lemma_real_steps_joined(own, more);
    if root.last() == '/' {
        let shorter = root.drop_last();
        let start = pieces(shorter, '/');
        lemma_pieces_not_empty(shorter, '/');
        assert(own =~= start.push(Seq::empty()));
        lemma_pieces_joined(root, rest, '/');
        assert(own.last() + more[0] =~= more[0]);
        assert(all =~= start + more);
        lemma_real_steps_joined(start, more);
        assert(own.drop_last() =~= start);
        assert(real_steps(own) == real_steps(start));
        assert(all[0] == own[0]);
    } else {
        let start = root + seq!['/'];
        assert(start.drop_last() =~= root);
        assert(pieces(start, '/') =~= own.push(Seq::empty()));
        lemma_pieces_joined(start, rest, '/');
        assert(Seq::<char>::empty() + more[0] =~= more[0]);
        assert(pieces(start, '/').last() + more[0] =~= more[0]);
        assert(joined =~= start + rest);
        assert(all =~= own + more);
        assert(all[0] == own[0]);
    }
    assert(joined[0] == root[0]);
    assert(start_part(joined) == start_part(root));
    assert(path_parts(joined) =~= path_parts(root) + real_steps(more));
    assert(path_parts(joined).take(path_parts(root).len() as int) =~= path_parts(root));
}

/// Whether a path starts at the root.
pub fn absolute(path: &str) -> (r: bool)
    ensures
        r == is_absolute(path@),
{
    proof {
        reveal_strlit("/");
        assert(is_absolute(path@) ==> path@.subrange(0, 1) =~= "/"@);
        assert(crate::text::begins_with(path@, "/"@) ==> path@.subrange(0, 1)[0] == '/');
    }
    starts_with(path, "/")
}

/// The parts of a path.
pub fn parts_of(path: &str) -> (r: Vec<String>)
    ensures
        texts_of(r@) == path_parts(path@),
{
    let steps = split_text(path, '/');
    let ghost views = pieces(path@, '/');
    let mut parts: Vec<String> = Vec::new();
    proof {
        lemma_pieces_not_empty(path@, '/');
        assert(texts_of(steps@)[0] == steps@[0]@);
    }
    if absolute(path) {
        parts.push("/".to_owned());
        assert(texts_of(parts@) =~= seq!["/"@]);
    } else if same_text(steps[0].as_str(), ".") {
        parts.push(".".to_owned());
        assert(texts_of(parts@) =~= seq!["."@]);
    } else {
        assert(texts_of(parts@) =~= Seq::empty());
    }
    let ghost start = texts_of(parts@);
    let mut i: usize = 0;
    assert(start + real_steps(views.take(0)) =~= start);
    while i < steps.len()
        invariant
            0 <= i <= steps.len(),
            views == texts_of(steps@),
            texts_of(parts@) == start + real_steps(views.take(i as int)),
        decreases steps.len() - i,
    {
        let ghost before = texts_of(parts@);
        proof {
            assert(views.take(i + 1).drop_last() =~= views.take(i as int));
            assert(views.take(i + 1).last() == steps@[i as int]@);
        }
        if !steps[i].as_str().is_empty() && !same_text(steps[i].as_str(), ".") {
            parts.push(steps[i].clone());
            assert(texts_of(parts@) =~= before.push(steps@[i as int]@));
            assert(texts_of(parts@) =~= start + real_steps(views.take(i + 1)));
        }
        i += 1;
    }
    assert(views.take(steps@.len() as int) =~= views);
    parts
}

/// Whether the name so many parts before the last one is the given one.
pub fn named_back(parts: &Vec<String>, back: usize, name: &str) -> (r: bool)
    ensures
        r == (name_back(texts_of(parts@), back as int) == Some(name@)),
{
    if back >= parts.len() {
        return false;
    }
    let at: usize = parts.len() - 1 - back;
    assert(texts_of(parts@)[at as int] == parts@[at as int]@);
    let part = parts[at].as_str();
    !same_text(part, "/") && !same_text(part, ".") && !same_text(part, "..") && same_text(part, name)
}

/// The last name of a path.
pub fn last_name(path: &str) -> (r: Option<String>)
    ensures
        crate::text::text_of(r) == name_back(path_parts(path@), 0),
{
    let parts = parts_of(path);
    if parts.len() == 0 {
        assert(texts_of(parts@).len() == 0);
        return None;
    }
    let at: usize = parts.len() - 1;
    assert(texts_of(parts@)[at as int] == parts@[at as int]@);
    let part = parts[at].as_str();
    if !same_text(part, "/") && !same_text(part, ".") && !same_text(part, "..") {
        Some(part.to_owned())
    } else {
        None
    }
}

/// Whether a path lies at or below another.
pub fn within(path: &str, root: &str) -> (r: bool)
    ensures
        r == is_within(path@, root@),
{
    let parts = parts_of(path);
    let base = parts_of(root);
    let ghost a = path_parts(path@);
    let ghost b = path_parts(root@);
    if base.len() > parts.len() {
        return false;
    }
    let mut i: usize = 0;
    while i < base.len()
        invariant
            0 <= i <= base.len() <= parts.len(),
            a == texts_of(parts@),
            b == texts_of(base@),
            a == path_parts(path@),
            b == path_parts(root@),
            forall|k: int| 0 <= k < i ==> a[k] == b[k],
        decreases base.len() - i,
    {
        assert(a[i as int] == parts@[i as int]@);
        assert(b[i as int] == base@[i as int]@);
        if !same_text(parts[i].as_str(), base[i].as_str()) {
            assert(a.take(b.len() as int)[i as int] != b[i as int]);
            return false;
        }
        i += 1;
    }
    assert(a.take(b.len() as int) =~= b);
    true
}

/// A path continued by another.
pub fn join_path(root: &str, rest: &str) -> (r: String)
    ensures
        r@ == joined_path(root@, rest@),
{
    if absolute(rest) {
        return rest.to_owned();
    }
    let mut r = root.to_owned();
    proof {
        reveal_strlit("/");
        assert(finishes_with(root@, "/"@) ==> root@.subrange(root@.len() - 1, root@.len() as int)[0] == '/');
        assert(root@.len() > 0 && root@.last() == '/' ==> root@.subrange(
            root@.len() - 1,
            root@.len() as int,
        ) =~= "/"@);
        assert("/"@ =~= seq!['/']);
    }
    if !root.is_empty() && !ends_with(root, "/") {
        r.push('/');
        assert(r@ =~= root@ + seq!['/']);
    }
    r.append(rest);
    r
}

/// The path from one place to another, where it lies at or below it.
pub fn relative_to(path: &str, root: &str) -> (r: Option<String>)
    ensures
        match r {
            Some(rest) => is_within(path@, root@) && rest@ == path_below(path@, root@),
            None => !is_within(path@, root@),
        },
{
    if !within(path, root) {
        return None;
    }
    let parts = parts_of(path);
    let base = parts_of(root);
    let ghost a = path_parts(path@);
    let mut rest: Vec<String> = Vec::new();
    let mut i: usize = base.len();
    assert(texts_of(rest@) =~= a.subrange(i as int, i as int));
    while i < parts.len()
        invariant
            base.len() <= i <= parts.len(),
            a == texts_of(parts@),
            texts_of(rest@) == a.subrange(base.len() as int, i as int),
        decreases parts.len() - i,
    {
        let ghost before = texts_of(rest@);
        rest.push(parts[i].clone());
        assert(texts_of(rest@) =~= before.push(parts@[i as int]@));
        i += 1;
        assert(texts_of(rest@) =~= a.subrange(base.len() as int, i as int));
    }
    assert(texts_of(base@).len() == base.len());
    assert(texts_of(rest@) =~= a.skip(base.len() as int));
    Some(glue_texts(&rest, "/"))
}

} // verus!
