//! The order in which entries of a folder are listed: folders first where that is
//! asked for, then by name without regard to case. Entries that count as equal
//! keep their order.

use crate::order::{
    lemma_precedes_irreflexive, lemma_precedes_total, lemma_precedes_transitive, precedes,
    text_precedes,
};
use vstd::prelude::*;

verus! {

/// What an entry is ordered by.
#[derive(Debug)]
pub struct SortKey {
    /// Whether the entry stands behind all that are not.
    pub late: bool,
    pub text: String,
}

/// The mathematical value of a key.
pub struct KeyView {
    pub late: bool,
    pub text: Seq<char>,
}

impl View for SortKey {
    type V = KeyView;

    open spec fn view(&self) -> KeyView {
        KeyView { late: self.late, text: self.text@ }
    }
}

/// The mathematical value of keys.
pub open spec fn keys_view(keys: Seq<SortKey>) -> Seq<KeyView> {
    keys.map_values(|key: SortKey| key@)
}

/// Whether a key comes before another.
pub open spec fn key_precedes(left: KeyView, right: KeyView) -> bool {
    (!left.late && right.late) || (left.late == right.late && precedes(left.text, right.text))
}

/// The place at which one more entry goes: behind all that do not follow it.
pub open spec fn place_for(keys: Seq<KeyView>, order: Seq<int>, key: KeyView) -> int
    decreases order.len(),
{
    if order.len() == 0 || !key_precedes(key, keys[order.last()]) {
        order.len() as int
    } else {
        place_for(keys, order.drop_last(), key)
    }
}

/// The numbers of entries in the order in which they are listed.
pub open spec fn listed_order(keys: Seq<KeyView>, count: nat) -> Seq<int>
    decreases count,
{
    if count == 0 {
        Seq::empty()
    } else {
        let before = listed_order(keys, (count - 1) as nat);
        before.insert(place_for(keys, before, keys[count - 1]), count - 1)
    }
}

proof fn lemma_place(keys: Seq<KeyView>, order: Seq<int>, key: KeyView)
    ensures
        0 <= place_for(keys, order, key) <= order.len(),
        place_for(keys, order, key) > 0 ==> !key_precedes(
            key,
            keys[order[place_for(keys, order, key) - 1]],
        ),
        forall|i: int|
            place_for(keys, order, key) <= i < order.len() ==> key_precedes(
                key,
                keys[#[trigger] order[i]],
            ),
    decreases order.len(),
{
    if order.len() > 0 && key_precedes(key, keys[order.last()]) {
        let shorter = order.drop_last();
        lemma_place(keys, shorter, key);
        assert forall|i: int| place_for(keys, order, key) <= i < order.len() implies key_precedes(
            key,
            keys[#[trigger] order[i]],
        ) by {
            if i < shorter.len() {
                assert(shorter[i] == order[i]);
            }
        }
    }
}

proof fn lemma_key_order(a: KeyView, b: KeyView, c: KeyView)
    ensures
        !key_precedes(a, a),
        key_precedes(a, b) ==> !key_precedes(b, a),
        key_precedes(a, b) && key_precedes(b, c) ==> key_precedes(a, c),
        !key_precedes(b, a) && !key_precedes(c, b) ==> !key_precedes(c, a),
{
    lemma_precedes_irreflexive(a.text);
    if precedes(a.text, b.text) && precedes(b.text, a.text) {
        lemma_precedes_transitive(a.text, b.text, a.text);
    }
    if precedes(a.text, b.text) && precedes(b.text, c.text) {
        lemma_precedes_transitive(a.text, b.text, c.text);
    }
    lemma_precedes_total(a.text, b.text);
    lemma_precedes_total(b.text, c.text);
    if precedes(c.text, a.text) && precedes(a.text, b.text) {
        lemma_precedes_transitive(c.text, a.text, b.text);
    }
    if precedes(c.text, a.text) && precedes(b.text, c.text) {
        lemma_precedes_transitive(b.text, c.text, a.text);
    }
}

/// That a list of numbers holds each number below a bound just once.
pub open spec fn is_arrangement(order: Seq<int>, count: nat) -> bool {
    &&& order.len() == count
    &&& forall|i: int| 0 <= i < order.len() ==> 0 <= #[trigger] order[i] < count
    &&& forall|i: int, j: int| 0 <= i < j < order.len() ==> #[trigger] order[i] != #[trigger] order[j]
}

/// Entries are listed completely and each once, in order, and such that count as
/// equal in the order in which they were found.
pub proof fn lemma_listing_is_stable(keys: Seq<KeyView>, count: nat)
    requires
        count <= keys.len(),
    ensures
        is_arrangement(listed_order(keys, count), count),
        forall|i: int, j: int|
            0 <= i < j < count ==> !key_precedes(
                keys[#[trigger] listed_order(keys, count)[j]],
                keys[#[trigger] listed_order(keys, count)[i]],
            ),
        forall|i: int, j: int|
            0 <= i < j < count && !key_precedes(
                keys[#[trigger] listed_order(keys, count)[i]],
                keys[#[trigger] listed_order(keys, count)[j]],
            ) ==> listed_order(keys, count)[i] < listed_order(keys, count)[j],
    decreases count,
{
    if count > 0 {
        let before = listed_order(keys, (count - 1) as nat);
        lemma_listing_is_stable(keys, (count - 1) as nat);
        let key = keys[count - 1];
        let at = place_for(keys, before, key);
        let order = listed_order(keys, count);
        lemma_place(keys, before, key);
        assert(order == before.insert(at, count - 1));
        assert forall|i: int, j: int| 0 <= i < j < order.len() implies #[trigger] order[i]
            != #[trigger] order[j] by {
            lemma_inserted(before, at, count - 1, i);
            lemma_inserted(before, at, count - 1, j);
        }
        assert forall|i: int| 0 <= i < order.len() implies 0 <= #[trigger] order[i] < count by {
            lemma_inserted(before, at, count - 1, i);
        }
        assert forall|i: int| 0 <= i < at implies !key_precedes(key, keys[#[trigger] before[i]]) by {
            if i < at - 1 {
                assert(!key_precedes(keys[before[at - 1]], keys[before[i]]));
                lemma_key_order(keys[before[i]], keys[before[at - 1]], key);
            }
        }
        assert forall|i: int, j: int| 0 <= i < j < count implies !key_precedes(
            keys[#[trigger] order[j]],
            keys[#[trigger] order[i]],
        ) && (!key_precedes(keys[order[i]], keys[order[j]]) ==> order[i] < order[j]) by {
            lemma_inserted(before, at, count - 1, i);
            lemma_inserted(before, at, count - 1, j);
            if i == at {
                lemma_key_order(key, keys[before[j - 1]], key);
            } else if j == at {
                assert(!key_precedes(key, keys[before[i]]));
            }
        }
    }
}

proof fn lemma_inserted(list: Seq<int>, at: int, value: int, i: int)
    requires
        0 <= at <= list.len(),
        0 <= i <= list.len(),
    ensures
        list.insert(at, value)[i] == (if i < at {
            list[i]
        } else if i == at {
            value
        } else {
            list[i - 1]
        }),
{
}

/// Whether a key comes before another.
fn key_before(left: &SortKey, right: &SortKey) -> (r: bool)
    ensures
        r == key_precedes(left@, right@),
{
    (!left.late && right.late) || (left.late == right.late && text_precedes(
        left.text.as_str(),
        right.text.as_str(),
    ))
}

/// Numbers as mathematical ones.
pub open spec fn numbers(list: Seq<usize>) -> Seq<int> {
    list.map_values(|n: usize| n as int)
}

/// The numbers of entries in the order in which they are listed.
pub fn listing_order(keys: &Vec<SortKey>) -> (r: Vec<usize>)
    ensures
        numbers(r@) == listed_order(keys_view(keys@), keys@.len()),
        is_arrangement(numbers(r@), keys@.len()),
{
    let ghost views = keys_view(keys@);
    let mut order: Vec<usize> = Vec::new();
    let mut i: usize = 0;
    assert(numbers(order@) =~= listed_order(views, 0));
    while i < keys.len()
        invariant
            0 <= i <= keys.len(),
            views == keys_view(keys@),
            numbers(order@) == listed_order(views, i as nat),
        decreases keys.len() - i,
    {
        let ghost before = numbers(order@);
        proof {
            lemma_listing_is_stable(views, i as nat);
            lemma_listing_is_stable(views, (i + 1) as nat);
        }
        let mut at: usize = order.len();
        assert(before.take(at as int) =~= before);
        while at > 0
            invariant_except_break
                0 <= at <= order.len(),
                views == keys_view(keys@),
                i < keys.len(),
                numbers(order@) == before,
                is_arrangement(before, i as nat),
                place_for(views, before.take(at as int), views[i as int]) == place_for(
                    views,
                    before,
                    views[i as int],
                ),
            ensures
                at <= order.len(),
                at == place_for(views, before, views[i as int]),
            decreases at,
        {
            let ghost rest = before.take(at as int);
            assert(rest.last() == before[at - 1]);
            assert(before[at - 1] == order@[at - 1] as int);
            if !key_before(&keys[i], &keys[order[at - 1]]) {
                break;
            }
            assert(rest.drop_last() =~= before.take(at - 1));
            at -= 1;
        }
        order.insert(at, i);
        assert(numbers(order@) =~= before.insert(at as int, i as int));
        i += 1;
    }
    proof {
        lemma_listing_is_stable(views, keys@.len());
    }
    order
}

/// What is late stands behind all that is not; among equals the text decides.
pub proof fn lemma_late_entries_stand_behind(left: KeyView, right: KeyView)
    ensures
        !left.late && right.late ==> key_precedes(left, right),
        left.late && !right.late ==> !key_precedes(left, right),
        left.late == right.late ==> (key_precedes(left, right) <==> precedes(left.text, right.text)),
{
}

} // verus!
