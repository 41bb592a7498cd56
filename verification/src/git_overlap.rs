//! Where the work of two agents may meet.

use crate::git_worktree::{
    intent_paths, is_terminal, terminal_worktree, ChangeIntent, ManagedWorktree, OverlapRisk,
    WorktreeStatus,
};
use crate::order::{in_order, insert_ordered, lemma_in_order, ordered};
use crate::text::{
    append_texts, begins_with, copy_texts, finishes_with, is_ascii_text, lemma_lowered,
    lower_text, lowered, same_text, stands_here, strip_end, texts_of, to_chars, to_lower,
    trim_end_of, trim_suffixes, unicode_lower, uppered, without_suffixes,
};
use vstd::prelude::*;

verus! {

/// Whether a path lies under a directory.
pub open spec fn lies_under(path: Seq<char>, directory: Seq<char>) -> bool {
    begins_with(path, directory) && path.len() > directory.len() && path[directory.len() as int] == '/'
}

/// A path pattern reduced to the directory or file that it covers.
pub open spec fn covered(pattern: Seq<char>) -> Seq<char> {
    strip_end(without_suffixes(lower_text(pattern), "/**"@), "/"@)
}

/// Whether two path patterns cover a common place.
pub open spec fn patterns_meet(left: Seq<char>, right: Seq<char>) -> bool {
    ||| covered(left) == covered(right)
    ||| lies_under(covered(left), covered(right))
    ||| lies_under(covered(right), covered(left))
}

/// Whether two lists of path patterns cover a common place.
pub open spec fn pattern_lists_meet(left: Seq<Seq<char>>, right: Seq<Seq<char>>) -> bool {
    exists|i: int, j: int|
        0 <= i < left.len() && 0 <= j < right.len() && #[trigger] patterns_meet(left[i], right[j])
}

/// Whether two paths differ in nothing but their case.
pub open spec fn same_but_for_case(left: Seq<char>, right: Seq<char>) -> bool {
    lower_text(left) == lower_text(right)
}

/// Whether two lists of paths name a common path, whatever its case.
pub open spec fn paths_meet(left: Seq<Seq<char>>, right: Seq<Seq<char>>) -> bool {
    exists|i: int, j: int|
        0 <= i < left.len() && 0 <= j < right.len() && #[trigger] same_but_for_case(left[i], right[j])
}

/// Whether a list holds a path, whatever the case of its ASCII letters.
pub open spec fn names_path(paths: Seq<Seq<char>>, path: Seq<char>) -> bool {
    exists|j: int| 0 <= j < paths.len() && lowered(#[trigger] paths[j]) == lowered(path)
}

/// The paths of the first list that the second names too.
pub open spec fn shared_paths(left: Seq<Seq<char>>, right: Seq<Seq<char>>) -> Set<Seq<char>> {
    left.to_set().filter(|path: Seq<char>| names_path(right, path))
}

/// Whether a path lies under a directory.
pub fn path_is_under(path: &str, directory: &str) -> (r: bool)
    ensures
        r == lies_under(path@, directory@),
{
    let chars = to_chars(path);
    let wanted = to_chars(directory);
    stands_here(&chars, &wanted, 0) && chars.len() > wanted.len() && chars[wanted.len()] == '/'
}

/// Whether two path patterns cover a common place.
pub fn pattern_pair_overlaps(left: &str, right: &str) -> (r: bool)
    ensures
        r == patterns_meet(left@, right@),
{
    let a = trim_end_of(trim_suffixes(unicode_lower(left).as_str(), "/**").as_str(), "/");
    let b = trim_end_of(trim_suffixes(unicode_lower(right).as_str(), "/**").as_str(), "/");
    same_text(a.as_str(), b.as_str()) || path_is_under(a.as_str(), b.as_str()) || path_is_under(
        b.as_str(),
        a.as_str(),
    )
}

/// Whether two lists of path patterns cover a common place.
pub fn patterns_overlap(left: &Vec<String>, right: &Vec<String>) -> (r: bool)
    ensures
        r == pattern_lists_meet(texts_of(left@), texts_of(right@)),
{
    let ghost a = texts_of(left@);
    let ghost b = texts_of(right@);
    let mut i: usize = 0;
    while i < left.len()
        invariant
            0 <= i <= left.len(),
            a == texts_of(left@),
            b == texts_of(right@),
            forall|x: int, y: int| 0 <= x < i && 0 <= y < b.len() ==> !#[trigger] patterns_meet(a[x], b[y]),
        decreases left.len() - i,
    {
        let mut j: usize = 0;
        while j < right.len()
            invariant
                0 <= i < left.len(),
                0 <= j <= right.len(),
                a == texts_of(left@),
                b == texts_of(right@),
                forall|y: int| 0 <= y < j ==> !#[trigger] patterns_meet(a[i as int], b[y]),
            decreases right.len() - j,
        {
            assert(a[i as int] == left@[i as int]@);
            assert(b[j as int] == right@[j as int]@);
            if pattern_pair_overlaps(left[i].as_str(), right[j].as_str()) {
                assert(patterns_meet(a[i as int], b[j as int]));
                return true;
            }
            j += 1;
        }
        i += 1;
    }
    false
}

/// Whether two lists of paths name a common path, whatever its case.
pub fn paths_overlap(left: &Vec<String>, right: &Vec<String>) -> (r: bool)
    ensures
        r == paths_meet(texts_of(left@), texts_of(right@)),
{
    let ghost a = texts_of(left@);
    let ghost b = texts_of(right@);
    let mut i: usize = 0;
    while i < left.len()
        invariant
            0 <= i <= left.len(),
            a == texts_of(left@),
            b == texts_of(right@),
            forall|x: int, y: int|
                0 <= x < i && 0 <= y < b.len() ==> !#[trigger] same_but_for_case(a[x], b[y]),
        decreases left.len() - i,
    {
        let low = unicode_lower(left[i].as_str());
        let mut j: usize = 0;
        while j < right.len()
            invariant
                0 <= i < left.len(),
                0 <= j <= right.len(),
                a == texts_of(left@),
                b == texts_of(right@),
                low@ == lower_text(left@[i as int]@),
                forall|y: int| 0 <= y < j ==> !#[trigger] same_but_for_case(a[i as int], b[y]),
            decreases right.len() - j,
        {
            assert(a[i as int] == left@[i as int]@);
            assert(b[j as int] == right@[j as int]@);
            if same_text(low.as_str(), unicode_lower(right[j].as_str()).as_str()) {
                assert(same_but_for_case(a[i as int], b[j as int]));
                return true;
            }
            j += 1;
        }
        i += 1;
    }
    false
}

/// Whether a list holds a path, whatever the case of its ASCII letters.
fn holds_path(paths: &Vec<String>, path: &str) -> (r: bool)
    ensures
        r == names_path(texts_of(paths@), path@),
{
    let low = to_lower(path);
    let ghost views = texts_of(paths@);
    let mut j: usize = 0;
    while j < paths.len()
        invariant
            0 <= j <= paths.len(),
            views == texts_of(paths@),
            low@ == lowered(path@),
            forall|y: int| 0 <= y < j ==> lowered(#[trigger] views[y]) != lowered(path@),
        decreases paths.len() - j,
    {
        assert(views[j as int] == paths@[j as int]@);
        if same_text(to_lower(paths[j].as_str()).as_str(), low.as_str()) {
            return true;
        }
        j += 1;
    }
    false
}

/// The paths of the first list that the second names too, in order.
pub fn overlapping_paths(left: &Vec<String>, right: &Vec<String>) -> (r: Vec<String>)
    ensures
        texts_of(r@) == in_order(shared_paths(texts_of(left@), texts_of(right@))),
        ordered(texts_of(r@)),
        forall|path: Seq<char>| #[trigger]
            texts_of(r@).contains(path) <==> texts_of(left@).contains(path) && names_path(
                texts_of(right@),
                path,
            ),
        are_ascii(texts_of(left@)) && are_ascii(texts_of(right@)) ==> (r@.len() > 0 <==> paths_meet(
            texts_of(left@),
            texts_of(right@),
        )),
{
    let ghost a = texts_of(left@);
    let ghost b = texts_of(right@);
    let mut found: Vec<String> = Vec::new();
    let mut i: usize = 0;
    assert(texts_of(found@).to_set() =~= shared_paths(a.take(0), b));
    while i < left.len()
        invariant
            0 <= i <= left.len(),
            a == texts_of(left@),
            b == texts_of(right@),
            ordered(texts_of(found@)),
            texts_of(found@).to_set() == shared_paths(a.take(i as int), b),
        decreases left.len() - i,
    {
        let ghost before = a.take(i as int);
        let ghost after = a.take(i + 1);
        proof {
            assert(after =~= before.push(left@[i as int]@));
            assert forall|t: Seq<char>| after.to_set().contains(t) <==> before.to_set().contains(t) || t
                == left@[i as int]@ by {
                if after.to_set().contains(t) {
                    let k = choose|k: int| 0 <= k < after.len() && after[k] == t;
                    if k < i {
                        assert(before[k] == t);
                    }
                }
                if before.to_set().contains(t) {
                    let k = choose|k: int| 0 <= k < before.len() && before[k] == t;
                    assert(after[k] == t);
                }
                if t == left@[i as int]@ {
                    assert(after[i as int] == t);
                }
            }
        }
        if holds_path(right, left[i].as_str()) {
            insert_ordered(&mut found, left[i].clone());
        }
        assert(texts_of(found@).to_set() =~= shared_paths(after, b));
        i += 1;
    }
    proof {
        assert(a.take(left@.len() as int) =~= a);
        lemma_in_order(texts_of(found@));
        let all = texts_of(found@);
        assert forall|path: Seq<char>| #[trigger] all.contains(path) <==> a.contains(path) && names_path(
            b,
            path,
        ) by {
            assert(all.to_set().contains(path) <==> all.contains(path));
            assert(shared_paths(a, b).contains(path) <==> a.contains(path) && names_path(b, path));
        }
        lemma_shared_paths_are_overlap(a, b);
        if all.len() > 0 {
            assert(all.contains(all[0]));
            assert(shared_paths(a, b).contains(all[0]));
        }
        if exists|path: Seq<char>| #[trigger] shared_paths(a, b).contains(path) {
            let path = choose|path: Seq<char>| #[trigger] shared_paths(a, b).contains(path);
            assert(all.to_set().contains(path));
            assert(all.contains(path));
        }
    }
    found
}

/// Whether two intents name places that meet.
pub open spec fn intents_meet(left: Option<Seq<Seq<char>>>, right: Option<Seq<Seq<char>>>) -> bool {
    match (left, right) {
        (Some(left), Some(right)) => pattern_lists_meet(left, right),
        _ => false,
    }
}

/// Whether two intents name places that meet.
pub fn intents_overlap(left: &Option<ChangeIntent>, right: &Option<ChangeIntent>) -> (r: bool)
    ensures
        r == intents_meet(intent_paths(*left), intent_paths(*right)),
{
    match (left, right) {
        (Some(left), Some(right)) => {
            let mut a = copy_texts(&left.expected_paths);
            append_texts(&mut a, copy_texts(&left.shared_paths));
            let mut b = copy_texts(&right.expected_paths);
            append_texts(&mut b, copy_texts(&right.shared_paths));
            patterns_overlap(&a, &b)
        },
        _ => false,
    }
}

/// What the overlap of worktrees depends on.
pub struct Claim {
    pub project_id: u128,
    pub session_id: u128,
    pub over: bool,
    pub changed: Seq<Seq<char>>,
    pub intended: Option<Seq<Seq<char>>>,
}

/// What the overlap of a worktree depends on.
pub open spec fn claim(worktree: ManagedWorktree) -> Claim {
    Claim {
        project_id: worktree.project_id,
        session_id: worktree.session_id,
        over: is_terminal(worktree.status),
        changed: texts_of(worktree.changed_paths@),
        intended: intent_paths(worktree.intent),
    }
}

/// What the overlaps of worktrees depend on.
pub open spec fn claims(worktrees: Seq<ManagedWorktree>) -> Seq<Claim> {
    worktrees.map_values(|worktree: ManagedWorktree| claim(worktree))
}

/// Whether two worktrees get in each other's way.
pub open spec fn collide(left: Claim, right: Claim) -> bool {
    &&& left.project_id == right.project_id
    &&& !left.over
    &&& !right.over
    &&& (paths_meet(left.changed, right.changed) || intents_meet(left.intended, right.intended))
}

/// The overlap of one worktree with others.
pub struct Overlap {
    pub session_ids: Seq<u128>,
    pub paths: Seq<Seq<char>>,
    pub risk: OverlapRisk,
}

/// The overlap of one worktree with the first of a list, itself left out. The
/// shared paths are spelled as in the earlier of two worktrees, and the last
/// collision sets the risk.
pub open spec fn overlap_with(list: Seq<Claim>, at: int, first: int) -> Overlap
    decreases first,
{
    if first <= 0 {
        Overlap { session_ids: Seq::empty(), paths: Seq::empty(), risk: OverlapRisk::Absent }
    } else {
        let before = overlap_with(list, at, first - 1);
        let other = first - 1;
        let (left, right) = if at < other {
            (list[at], list[other])
        } else {
            (list[other], list[at])
        };
        if other == at || !collide(left, right) {
            before
        } else if paths_meet(left.changed, right.changed) {
            Overlap {
                session_ids: before.session_ids.push(list[other].session_id),
                paths: before.paths + in_order(shared_paths(left.changed, right.changed)),
                risk: OverlapRisk::Path,
            }
        } else {
            Overlap {
                session_ids: before.session_ids.push(list[other].session_id),
                paths: before.paths,
                risk: OverlapRisk::Intent,
            }
        }
    }
}

/// The status that a worktree has before its overlaps are counted.
pub open spec fn awake(status: WorktreeStatus, dirty: bool) -> WorktreeStatus {
    if status == WorktreeStatus::Waiting {
        if dirty {
            WorktreeStatus::Dirty
        } else {
            WorktreeStatus::Active
        }
    } else {
        status
    }
}

/// Whether a worktree records the given overlap.
pub open spec fn records_overlap(worktree: ManagedWorktree, overlap: Overlap) -> bool {
    &&& worktree.overlapping_session_ids@ == overlap.session_ids
    &&& texts_of(worktree.overlapping_paths@) == overlap.paths
    &&& worktree.overlap_risk == overlap.risk
}

/// Whether a worktree differs from an earlier state in nothing but what it
/// records of overlaps, and is awake.
pub open spec fn same_but_for_overlap(before: ManagedWorktree, after: ManagedWorktree) -> bool {
    after == (ManagedWorktree {
        overlapping_session_ids: after.overlapping_session_ids,
        overlapping_paths: after.overlapping_paths,
        overlap_risk: after.overlap_risk,
        status: awake(before.status, before.dirty),
        ..before
    })
}

/// How many of the worktrees have been held against the one at a place, when a
/// pass over all pairs has come to a pair.
spec fn counted(at: int, left: int, right: int, all: int) -> int {
    if at < left {
        all
    } else if at == left {
        right
    } else if at < right {
        left + 1
    } else {
        left
    }
}

/// Records for each worktree with which others it collides, over which paths
/// and how badly.
pub fn apply_overlap_projection(worktrees: &mut Vec<ManagedWorktree>)
    ensures
        final(worktrees).len() == old(worktrees).len(),
        forall|i: int|
            0 <= i < old(worktrees).len() ==> same_but_for_overlap(
                #[trigger] old(worktrees)@[i],
                final(worktrees)@[i],
            ) && records_overlap(
                final(worktrees)@[i],
                overlap_with(claims(old(worktrees)@), i, old(worktrees).len() as int),
            ),
{
    let ghost before = worktrees@;
    let ghost list = claims(worktrees@);
    let all: usize = worktrees.len();
    let mut i: usize = 0;
    while i < all
        invariant
            0 <= i <= all,
            all == worktrees.len(),
            before.len() == all,
            list == claims(before),
            forall|k: int| i <= k < all ==> worktrees@[k] == before[k],
            forall|k: int|
                0 <= k < i ==> same_but_for_overlap(#[trigger] before[k], worktrees@[k]) && records_overlap(
                    worktrees@[k],
                    overlap_with(list, k, 0),
                ),
        decreases all - i,
    {
        worktrees[i].overlapping_session_ids = Vec::new();
        worktrees[i].overlapping_paths = Vec::new();
        worktrees[i].overlap_risk = OverlapRisk::Absent;
        if matches!(worktrees[i].status, WorktreeStatus::Waiting) {
            if worktrees[i].dirty {
                worktrees[i].status = WorktreeStatus::Dirty;
            } else {
                worktrees[i].status = WorktreeStatus::Active;
            }
        }
        assert(texts_of(worktrees@[i as int].overlapping_paths@) =~= Seq::empty());
        i += 1;
    }
    let mut left: usize = 0;
    while left < all
        invariant
            0 <= left <= all,
            all == worktrees.len(),
            before.len() == all,
            list == claims(before),
            forall|k: int|
                0 <= k < all ==> same_but_for_overlap(#[trigger] before[k], worktrees@[k]) && records_overlap(
                    worktrees@[k],
                    overlap_with(list, k, counted(k, left as int, left as int, all as int)),
                ),
        decreases all - left,
    {
        let mut right: usize = left + 1;
        proof {
            let l = left as int;
            assert forall|k: int| 0 <= k < all implies #[trigger] overlap_with(
                list,
                k,
                counted(k, l, l + 1, all as int),
            ) == overlap_with(list, k, counted(k, l, l, all as int)) by {
            }
        }
        while right < all
            invariant
                0 <= left < right <= all,
                all == worktrees.len(),
                before.len() == all,
                list == claims(before),
                forall|k: int|
                    0 <= k < all ==> same_but_for_overlap(#[trigger] before[k], worktrees@[k])
                        && records_overlap(
                        worktrees@[k],
                        overlap_with(list, k, counted(k, left as int, right as int, all as int)),
                    ),
            decreases all - right,
        {
            let ghost now = worktrees@;
            let ghost l = left as int;
            let ghost r = right as int;
            proof {
                assert(same_but_for_overlap(before[l], now[l]));
                assert(same_but_for_overlap(before[r], now[r]));
                assert(list[l] == claim(now[l]));
                assert(list[r] == claim(now[r]));
                assert forall|k: int| 0 <= k < all && k != l && k != r implies counted(k, l, r, all as int)
                    == counted(k, l, r + 1, all as int) by {
                }
                assert(counted(l, l, r + 1, all as int) == r + 1);
                assert(counted(r, l, r + 1, all as int) == l + 1);
            }
            let together = worktrees[left].project_id == worktrees[right].project_id
                && !terminal_worktree(&worktrees[left]) && !terminal_worktree(&worktrees[right]);
            if together {
                let actual = paths_overlap(&worktrees[left].changed_paths, &worktrees[right].changed_paths);
                let intent = intents_overlap(&worktrees[left].intent, &worktrees[right].intent);
                if actual || intent {
                    let left_id: u128 = worktrees[left].session_id;
                    let right_id: u128 = worktrees[right].session_id;
                    worktrees[left].overlapping_session_ids.push(right_id);
                    worktrees[right].overlapping_session_ids.push(left_id);
                    let risk = if actual {
                        OverlapRisk::Path
                    } else {
                        OverlapRisk::Intent
                    };
                    worktrees[left].overlap_risk = risk;
                    worktrees[right].overlap_risk = risk;
                    if actual {
                        let paths = overlapping_paths(
                            &worktrees[left].changed_paths,
                            &worktrees[right].changed_paths,
                        );
                        let again = copy_texts(&paths);
                        append_texts(&mut worktrees[left].overlapping_paths, paths);
                        append_texts(&mut worktrees[right].overlapping_paths, again);
                    }
                }
            }
            proof {
                assert forall|k: int| 0 <= k < all implies same_but_for_overlap(
                    #[trigger] before[k],
                    worktrees@[k],
                ) && records_overlap(
                    worktrees@[k],
                    overlap_with(list, k, counted(k, l, r + 1, all as int)),
                ) by {
                    assert(same_but_for_overlap(before[k], now[k]));
                    if k != l && k != r {
                        assert(worktrees@[k] == now[k]);
                    }
                }
            }
            right += 1;
        }
        proof {
            assert forall|k: int| 0 <= k < all implies counted(k, left as int, right as int, all as int)
                == counted(k, left + 1, left + 1, all as int) by {
            }
            assert forall|k: int| 0 <= k < all implies same_but_for_overlap(
                #[trigger] before[k],
                worktrees@[k],
            ) && records_overlap(
                worktrees@[k],
                overlap_with(list, k, counted(k, left + 1, left + 1, all as int)),
            ) by {
            }
        }
        left += 1;
    }
}

/// Whether the worktrees at two places of a list collide.
pub open spec fn collide_at(list: Seq<Claim>, a: int, b: int) -> bool {
    if a < b {
        collide(list[a], list[b])
    } else {
        collide(list[b], list[a])
    }
}

/// A worktree records the session of another exactly if the two collide, where
/// no two worktrees belong to one session.
pub proof fn lemma_overlap_is_collision(list: Seq<Claim>, at: int, first: int, other: int)
    requires
        0 <= first <= list.len(),
        0 <= at < list.len(),
        0 <= other < list.len(),
        forall|i: int, j: int|
            0 <= i < j < list.len() ==> (#[trigger] list[i]).session_id != (#[trigger] list[j]).session_id,
    ensures
        overlap_with(list, at, first).session_ids.contains(list[other].session_id) <==> (other < first
            && other != at && collide_at(list, at, other)),
    decreases first,
{
    if first > 0 {
        lemma_overlap_is_collision(list, at, first - 1, other);
        let before = overlap_with(list, at, first - 1).session_ids;
        let after = overlap_with(list, at, first).session_ids;
        let id = list[other].session_id;
        if after != before {
            assert(after == before.push(list[first - 1].session_id));
            assert(after.contains(id) <==> before.contains(id) || id == list[first - 1].session_id) by {
                if after.contains(id) {
                    let k = choose|k: int| 0 <= k < after.len() && after[k] == id;
                    if k < before.len() {
                        assert(before[k] == id);
                    }
                }
                if before.contains(id) {
                    let k = choose|k: int| 0 <= k < before.len() && before[k] == id;
                    assert(after[k] == id);
                }
                assert(after[before.len() as int] == list[first - 1].session_id);
            }
        }
    }
}

/// Overlap is mutual: a worktree records another exactly if the other records it.
pub proof fn lemma_overlap_is_mutual(list: Seq<Claim>, a: int, b: int)
    requires
        0 <= a < list.len(),
        0 <= b < list.len(),
        forall|i: int, j: int|
            0 <= i < j < list.len() ==> (#[trigger] list[i]).session_id != (#[trigger] list[j]).session_id,
    ensures
        overlap_with(list, a, list.len() as int).session_ids.contains(list[b].session_id) <==> overlap_with(
            list,
            b,
            list.len() as int,
        ).session_ids.contains(list[a].session_id),
{
    lemma_overlap_is_collision(list, a, list.len() as int, b);
    lemma_overlap_is_collision(list, b, list.len() as int, a);
}

/// Whether two patterns meet does not depend on which comes first, and every
/// pattern meets itself.
pub proof fn lemma_meeting_is_mutual(left: Seq<char>, right: Seq<char>)
    ensures
        patterns_meet(left, right) == patterns_meet(right, left),
        patterns_meet(left, left),
{
}

/// Whether a pattern keeps its own lower-case form with `/**` after it. An ASCII
/// pattern does.
pub open spec fn lowers_apart(pattern: Seq<char>) -> bool {
    lower_text(pattern + "/**"@) == lower_text(pattern) + "/**"@
}

/// A pattern covers the same place with `/**` after it, where that leaves its
/// lower-case form alone, as it does for every ASCII pattern. In capitals an ASCII
/// pattern covers the same place too.
pub proof fn lemma_covered_place_is_plain(pattern: Seq<char>)
    ensures
        lowers_apart(pattern) ==> covered(pattern + "/**"@) == covered(pattern),
        is_ascii_text(pattern) ==> lowers_apart(pattern),
        is_ascii_text(pattern) ==> covered(uppered(pattern)) == covered(pattern),
{
    lemma_lowered(pattern);
    reveal_strlit("/**");
    let suffix = "/**"@;
    let longer = pattern + suffix;
    if is_ascii_text(pattern) {
        assert forall|i: int| 0 <= i < longer.len() implies (#[trigger] longer[i] as u32) < 128 by {
            if i < pattern.len() {
                assert(longer[i] == pattern[i]);
            } else {
                assert(longer[i] == suffix[i - pattern.len()]);
            }
        }
        assert(lowered(longer) =~= lowered(pattern) + suffix);
    }
    if lowers_apart(pattern) {
        let low = lower_text(longer);
        assert(low.subrange(low.len() - suffix.len(), low.len() as int) =~= suffix);
        assert(finishes_with(low, suffix));
        assert(low.take(low.len() - suffix.len()) =~= lower_text(pattern));
    }
}

/// With which patterns a pattern meets does not depend on `/**` at its end, where
/// that leaves its lower-case form alone, nor on the case of an ASCII pattern.
pub proof fn lemma_meeting_is_by_place(left: Seq<char>, right: Seq<char>)
    ensures
        lowers_apart(left) || is_ascii_text(left) ==> patterns_meet(left + "/**"@, right) == patterns_meet(
            left,
            right,
        ),
        is_ascii_text(left) ==> patterns_meet(uppered(left), right) == patterns_meet(left, right),
{
    lemma_covered_place_is_plain(left);
}

/// Whether the paths of a list are all ASCII.
pub open spec fn are_ascii(paths: Seq<Seq<char>>) -> bool {
    forall|i: int| 0 <= i < paths.len() ==> is_ascii_text(#[trigger] paths[i])
}

/// Two lists share a path exactly if they do so the other way round, though the
/// shared paths may be spelled otherwise. Where all paths are ASCII that is the
/// case exactly if the lists overlap.
pub proof fn lemma_shared_paths_are_overlap(left: Seq<Seq<char>>, right: Seq<Seq<char>>)
    ensures
        (exists|path: Seq<char>| #[trigger] shared_paths(left, right).contains(path)) <==> (exists|
            path: Seq<char>,
        | #[trigger]
            shared_paths(right, left).contains(path)),
        are_ascii(left) && are_ascii(right) ==> (paths_meet(left, right) <==> exists|path: Seq<char>|
         #[trigger]
            shared_paths(left, right).contains(path)),
{
    if exists|path: Seq<char>| #[trigger] shared_paths(left, right).contains(path) {
        lemma_shared_names(left, right);
    }
    if exists|path: Seq<char>| #[trigger] shared_paths(right, left).contains(path) {
        lemma_shared_names(right, left);
    }
    if are_ascii(left) && are_ascii(right) {
        if paths_meet(left, right) {
            let (i, j) = choose|i: int, j: int|
                0 <= i < left.len() && 0 <= j < right.len() && #[trigger] same_but_for_case(
                    left[i],
                    right[j],
                );
            assert(is_ascii_text(left[i]) && is_ascii_text(right[j]));
            assert(lowered(right[j]) == lowered(left[i]));
            assert(names_path(right, left[i]));
            assert(left.to_set().contains(left[i]));
            assert(shared_paths(left, right).contains(left[i]));
        }
        if exists|path: Seq<char>| #[trigger] shared_paths(left, right).contains(path) {
            let path = choose|path: Seq<char>| #[trigger] shared_paths(left, right).contains(path);
            assert(left.to_set().contains(path) && names_path(right, path));
            let i = choose|i: int| 0 <= i < left.len() && left[i] == path;
            let j = choose|j: int| 0 <= j < right.len() && lowered(#[trigger] right[j]) == lowered(path);
            assert(is_ascii_text(left[i]) && is_ascii_text(right[j]));
            assert(same_but_for_case(left[i], right[j]));
        }
    }
}

/// What one list shares with another the other shares with it.
proof fn lemma_shared_names(left: Seq<Seq<char>>, right: Seq<Seq<char>>)
    requires
        exists|path: Seq<char>| #[trigger] shared_paths(left, right).contains(path),
    ensures
        exists|path: Seq<char>| #[trigger] shared_paths(right, left).contains(path),
{
    let path = choose|path: Seq<char>| #[trigger] shared_paths(left, right).contains(path);
    assert(left.to_set().contains(path) && names_path(right, path));
    let i = choose|i: int| 0 <= i < left.len() && left[i] == path;
    let j = choose|j: int| 0 <= j < right.len() && lowered(#[trigger] right[j]) == lowered(path);
    assert(lowered(left[i]) == lowered(right[j]));
    assert(names_path(left, right[j]));
    assert(right.to_set().contains(right[j]));
    assert(shared_paths(right, left).contains(right[j]));
}

/// Two lists of patterns meet exactly if a pattern of the one covers a place of
/// the other: the same place, or one that lies below it. An empty list meets none,
/// and what meets some patterns meets more of them.
pub proof fn lemma_lists_meet_where_patterns_do(left: Seq<Seq<char>>, right: Seq<Seq<char>>, pattern: Seq<char>)
    ensures
        right.len() == 0 ==> !pattern_lists_meet(left, right),
        pattern_lists_meet(left, right) ==> pattern_lists_meet(left, right.push(pattern)),
        pattern_lists_meet(left, right) <==> pattern_lists_meet(right, left),
        left.contains(pattern) && right.contains(pattern) ==> pattern_lists_meet(left, right),
{
    if pattern_lists_meet(left, right) {
        let (i, j) = choose|i: int, j: int|
            0 <= i < left.len() && 0 <= j < right.len() && #[trigger] patterns_meet(left[i], right[j]);
        assert(right.push(pattern)[j] == right[j]);
        assert(patterns_meet(left[i], right.push(pattern)[j]));
        lemma_meeting_is_mutual(left[i], right[j]);
        assert(patterns_meet(right[j], left[i]));
    }
    if pattern_lists_meet(right, left) {
        let (i, j) = choose|i: int, j: int|
            0 <= i < right.len() && 0 <= j < left.len() && #[trigger] patterns_meet(right[i], left[j]);
        lemma_meeting_is_mutual(right[i], left[j]);
        assert(patterns_meet(left[j], right[i]));
    }
    if left.contains(pattern) && right.contains(pattern) {
        let i = choose|i: int| 0 <= i < left.len() && left[i] == pattern;
        let j = choose|j: int| 0 <= j < right.len() && right[j] == pattern;
        lemma_meeting_is_mutual(pattern, pattern);
        assert(patterns_meet(left[i], right[j]));
    }
}

/// A path lies under a directory exactly if it is the directory with a separator
/// and more behind it; a mere longer name does not lie under a shorter one.
pub proof fn lemma_paths_lie_under_directories(directory: Seq<char>, rest: Seq<char>, path: Seq<char>)
    ensures
        lies_under(directory + seq!['/'] + rest, directory),
        rest.len() == 0 || rest[0] != '/' ==> !lies_under(directory + rest, directory),
        lies_under(path, directory) ==> path.len() > directory.len() && path[directory.len() as int] == '/'
            && path.take(directory.len() as int) == directory,
{
    let below = directory + seq!['/'] + rest;
    assert(below.subrange(0, directory.len() as int) =~= directory);
    if lies_under(path, directory) {
        assert(path.subrange(0, directory.len() as int) =~= path.take(directory.len() as int));
    }
    if rest.len() > 0 {
        assert((directory + rest)[directory.len() as int] == rest[0]);
    }
}

/// Counting overlaps wakes a worktree that waits, as one with changes or one
/// without, and leaves every other status and all that is recorded of its branch as
/// it is.
pub proof fn lemma_overlaps_touch_nothing_else(before: ManagedWorktree, after: ManagedWorktree)
    requires
        same_but_for_overlap(before, after),
    ensures
        before.status == WorktreeStatus::Waiting && before.dirty ==> after.status == WorktreeStatus::Dirty,
        before.status == WorktreeStatus::Waiting && !before.dirty ==> after.status == WorktreeStatus::Active,
        before.status != WorktreeStatus::Waiting ==> after.status == before.status,
        after.session_id == before.session_id,
        after.project_id == before.project_id,
        after.path == before.path,
        after.branch_name == before.branch_name,
        after.head_oid == before.head_oid,
        after.checkpoint_oid == before.checkpoint_oid,
        after.candidate_oid == before.candidate_oid,
        after.changed_paths == before.changed_paths,
        after.dirty == before.dirty,
{
}

/// Two worktrees get in each other's way only within one project, and only while
/// neither is over; then exactly if they change a common path, whatever its case,
/// or are meant to.
pub proof fn lemma_who_gets_in_whose_way(left: ManagedWorktree, right: ManagedWorktree)
    ensures
        collide(claim(left), claim(right)) ==> left.project_id == right.project_id && !is_terminal(left.status)
            && !is_terminal(right.status),
        left.project_id == right.project_id && !is_terminal(left.status) && !is_terminal(right.status)
            && paths_meet(texts_of(left.changed_paths@), texts_of(right.changed_paths@)) ==> collide(
            claim(left),
            claim(right),
        ),
        collide(claim(left), claim(right)) && !paths_meet(
            texts_of(left.changed_paths@),
            texts_of(right.changed_paths@),
        ) ==> left.intent is Some && right.intent is Some,
{
}

} // verus!
