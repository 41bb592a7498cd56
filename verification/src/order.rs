//! The order of texts, and lists kept in that order.

use crate::text::{texts_of, to_chars};
use vstd::prelude::*;

verus! {

/// Whether one text comes before another, character by character.
pub open spec fn precedes(left: Seq<char>, right: Seq<char>) -> bool
    decreases left.len(),
{
    if right.len() == 0 {
        false
    } else if left.len() == 0 {
        true
    } else {
        left[0] < right[0] || (left[0] == right[0] && precedes(left.drop_first(), right.drop_first()))
    }
}

/// Whether each text of a list comes before all that follow it.
pub open spec fn ordered(list: Seq<Seq<char>>) -> bool {
    forall|i: int, j: int| 0 <= i < j < list.len() ==> precedes(list[i], list[j])
}

/// Whether no text of a list comes before one that stands ahead of it.
pub open spec fn sorted(list: Seq<Seq<char>>) -> bool {
    forall|i: int, j: int| 0 <= i < j < list.len() ==> !precedes(list[j], list[i])
}

/// No text comes before itself.
pub proof fn lemma_precedes_irreflexive(text: Seq<char>)
    ensures
        !precedes(text, text),
    decreases text.len(),
{
    if text.len() > 0 {
        lemma_precedes_irreflexive(text.drop_first());
    }
}

/// The order is transitive.
pub proof fn lemma_precedes_transitive(a: Seq<char>, b: Seq<char>, c: Seq<char>)
    requires
        precedes(a, b),
        precedes(b, c),
    ensures
        precedes(a, c),
    decreases a.len(),
{
    if a.len() > 0 && a[0] == b[0] && b[0] == c[0] {
        lemma_precedes_transitive(a.drop_first(), b.drop_first(), c.drop_first());
    }
}

/// Of two different texts one comes before the other.
pub proof fn lemma_precedes_total(a: Seq<char>, b: Seq<char>)
    ensures
        a == b || precedes(a, b) || precedes(b, a),
    decreases a.len(),
{
    if a.len() == 0 && b.len() == 0 {
        assert(a =~= b);
    } else if a.len() > 0 && b.len() > 0 && a[0] == b[0] {
        lemma_precedes_total(a.drop_first(), b.drop_first());
        if a.drop_first() == b.drop_first() {
            assert(a =~= seq![a[0]] + a.drop_first());
            assert(b =~= seq![b[0]] + b.drop_first());
        }
    }
}

/// A list in strict order is determined by the set of its texts.
pub proof fn lemma_ordered_unique(left: Seq<Seq<char>>, right: Seq<Seq<char>>)
    requires
        ordered(left),
        ordered(right),
        left.to_set() == right.to_set(),
    ensures
        left == right,
    decreases left.len(),
{
    if left.len() == 0 {
        if right.len() > 0 {
            assert(right.to_set().contains(right[0]));
            assert(left.to_set().contains(right[0]));
        }
        assert(left =~= right);
    } else {
        assert(left.to_set().contains(left.last()));
        assert(right.to_set().contains(left.last()));
        assert(right.len() > 0);
        assert(right.to_set().contains(right.last()));
        assert(left.to_set().contains(right.last()));
        let i = choose|i: int| 0 <= i < right.len() && right[i] == left.last();
        let j = choose|j: int| 0 <= j < left.len() && left[j] == right.last();
        if left.last() != right.last() {
            assert(precedes(left.last(), right.last()));
            assert(precedes(right.last(), left.last()));
            lemma_precedes_transitive(left.last(), right.last(), left.last());
            lemma_precedes_irreflexive(left.last());
        }
        let a = left.drop_last();
        let b = right.drop_last();
        assert forall|t: Seq<char>| a.to_set().contains(t) <==> b.to_set().contains(t) by {
            if a.to_set().contains(t) {
                let k = choose|k: int| 0 <= k < a.len() && a[k] == t;
                assert(left[k] == t);
                assert(precedes(t, left.last()));
                assert(left.to_set().contains(t));
                assert(right.to_set().contains(t));
                let m = choose|m: int| 0 <= m < right.len() && right[m] == t;
                lemma_precedes_irreflexive(t);
                assert(b[m] == t);
            }
            if b.to_set().contains(t) {
                let k = choose|k: int| 0 <= k < b.len() && b[k] == t;
                assert(right[k] == t);
                assert(precedes(t, right.last()));
                assert(right.to_set().contains(t));
                assert(left.to_set().contains(t));
                let m = choose|m: int| 0 <= m < left.len() && left[m] == t;
                lemma_precedes_irreflexive(t);
                assert(a[m] == t);
            }
        }
        assert(a.to_set() =~= b.to_set());
        lemma_ordered_unique(a, b);
        assert(left =~= a.push(left.last()));
        assert(right =~= b.push(right.last()));
    }
}

/// The texts of a finite set in order.
pub open spec fn in_order(set: Set<Seq<char>>) -> Seq<Seq<char>> {
    choose|list: Seq<Seq<char>>| ordered(list) && list.to_set() == set
}

/// A list in strict order is the ordered list of its set.
pub proof fn lemma_in_order(list: Seq<Seq<char>>)
    requires
        ordered(list),
    ensures
        in_order(list.to_set()) == list,
{
    let set = list.to_set();
    assert(ordered(list) && list.to_set() == set);
    lemma_ordered_unique(in_order(set), list);
}

/// Whether one text comes before another.
pub fn text_precedes(left: &str, right: &str) -> (r: bool)
    ensures
        r == precedes(left@, right@),
{
    let a = to_chars(left);
    let b = to_chars(right);
    let mut i: usize = 0;
    assert(a@.skip(0) =~= a@);
    assert(b@.skip(0) =~= b@);
    loop
        invariant
            0 <= i <= a.len(),
            i <= b.len(),
            precedes(a@, b@) == precedes(a@.skip(i as int), b@.skip(i as int)),
            a@ == left@,
            b@ == right@,
        decreases a.len() - i,
    {
        if i >= b.len() {
            return false;
        }
        if i >= a.len() {
            return true;
        }
        if a[i] < b[i] {
            return true;
        }
        if a[i] != b[i] {
            return false;
        }
        assert(a@.skip(i as int).drop_first() =~= a@.skip(i + 1));
        assert(b@.skip(i as int).drop_first() =~= b@.skip(i + 1));
        i += 1;
    }
}

/// Puts a text into a list in strict order, unless the list holds it.
pub fn insert_ordered(list: &mut Vec<String>, text: String)
    requires
        ordered(texts_of(old(list)@)),
    ensures
        ordered(texts_of(final(list)@)),
        texts_of(final(list)@).to_set() == texts_of(old(list)@).to_set().insert(text@),
{
    let ghost before = texts_of(list@);
    let mut i: usize = 0;
    while i < list.len() && text_precedes(list[i].as_str(), text.as_str())
        invariant
            0 <= i <= list.len(),
            texts_of(list@) == before,
            before.len() == list.len(),
            forall|k: int| 0 <= k < i ==> precedes(before[k], text@),
        decreases list.len() - i,
    {
        assert(before[i as int] == list@[i as int]@);
        i += 1;
    }
    if i < list.len() {
        assert(before[i as int] == list@[i as int]@);
        if !text_precedes(text.as_str(), list[i].as_str()) {
            proof {
                lemma_precedes_total(before[i as int], text@);
                assert(before.to_set().contains(text@));
                assert(before.to_set().insert(text@) =~= before.to_set());
            }
            return;
        }
    }
    let ghost whole = list@;
    list.insert(i, text);
    proof {
        let after = texts_of(list@);
        assert(after =~= before.insert(i as int, text@));
        assert forall|k: int, m: int| 0 <= k < m < after.len() implies precedes(after[k], after[m]) by {
            if k < i && m == i {
            } else if k == i && m > i {
                if m > i + 1 {
                    lemma_precedes_transitive(text@, before[i as int], before[m - 1]);
                }
            } else if k < i && m > i {
                assert(precedes(before[k], before[m - 1]));
            } else if k > i {
                assert(precedes(before[k - 1], before[m - 1]));
            }
        }
        assert forall|t: Seq<char>| after.to_set().contains(t) <==> before.to_set().insert(text@).contains(t) by {
            if after.to_set().contains(t) {
                let k = choose|k: int| 0 <= k < after.len() && after[k] == t;
                if k < i {
                    assert(before[k] == t);
                } else if k > i {
                    assert(before[k - 1] == t);
                }
            }
            if before.to_set().contains(t) {
                let k = choose|k: int| 0 <= k < before.len() && before[k] == t;
                if k < i {
                    assert(after[k] == t);
                } else {
                    assert(after[k + 1] == t);
                }
            }
            if t == text@ {
                assert(after[i as int] == t);
            }
        }
        assert(after.to_set() =~= before.to_set().insert(text@));
    }
}

/// Puts a text into a sorted list, behind the texts that equal it.
pub fn insert_sorted(list: &mut Vec<String>, text: String)
    requires
        sorted(texts_of(old(list)@)),
    ensures
        sorted(texts_of(final(list)@)),
        texts_of(final(list)@).to_multiset() == texts_of(old(list)@).to_multiset().insert(text@),
{
    let ghost before = texts_of(list@);
    let mut i: usize = 0;
    while i < list.len() && !text_precedes(text.as_str(), list[i].as_str())
        invariant
            0 <= i <= list.len(),
            texts_of(list@) == before,
            before.len() == list.len(),
            forall|k: int| 0 <= k < i ==> !precedes(text@, before[k]),
        decreases list.len() - i,
    {
        assert(before[i as int] == list@[i as int]@);
        i += 1;
    }
    if i < list.len() {
        assert(before[i as int] == list@[i as int]@);
    }
    list.insert(i, text);
    proof {
        let after = texts_of(list@);
        assert(after =~= before.insert(i as int, text@));
        assert forall|k: int, m: int| 0 <= k < m < after.len() implies !precedes(after[m], after[k]) by {
            if k == i && m > i {
                if precedes(before[m - 1], text@) {
                    lemma_precedes_transitive(before[m - 1], text@, before[i as int]);
                    if m == i + 1 {
                        lemma_precedes_irreflexive(before[i as int]);
                    }
                }
            } else if k < i && m > i {
                assert(!precedes(before[m - 1], before[k]));
            } else if k > i {
                assert(!precedes(before[m - 1], before[k - 1]));
            }
        }
        vstd::seq_lib::to_multiset_insert(before, i as int, text@);
    }
}

} // verus!
