//! Lists from which some of the items are taken out.

use vstd::prelude::*;

verus! {

/// The items whose mark is set.
pub open spec fn masked<T>(list: Seq<T>, mask: Seq<bool>) -> Seq<T>
    decreases list.len(),
{
    if list.len() == 0 {
        list
    } else if mask[list.len() - 1] {
        masked(list.drop_last(), mask).push(list.last())
    } else {
        masked(list.drop_last(), mask)
    }
}

/// Keeps the items whose mark is set.
pub fn keep_masked<T>(list: &mut Vec<T>, mask: &Vec<bool>)
    requires
        mask.len() == old(list).len(),
    ensures
        final(list)@ == masked(old(list)@, mask@),
{
    let ghost all = list@;
    let mut i: usize = 0;
    let mut place: usize = 0;
    proof {
        assert(all.take(0) =~= Seq::empty());
        assert(all.skip(0) =~= all);
        assert(list@.take(0) =~= Seq::empty());
    }
    while i < list.len()
        invariant
            0 <= i <= list.len(),
            i <= place <= all.len(),
            mask.len() == all.len(),
            list@.len() - i == all.len() - place,
            list@.skip(i as int) == all.skip(place as int),
            list@.take(i as int) == masked(all.take(place as int), mask@),
        decreases list.len() - i,
    {
        let ghost now = list@;
        let ghost kept = now.take(i as int);
        proof {
            assert(now.skip(i as int)[0] == now[i as int]);
            assert(all.skip(place as int)[0] == all[place as int]);
            assert(all.take(place + 1).drop_last() =~= all.take(place as int));
            assert(all.take(place + 1).last() == all[place as int]);
            assert(all.skip(place as int).skip(1) =~= all.skip(place + 1));
            assert(now.skip(i as int).skip(1) =~= now.skip(i + 1));
        }
        if mask[place] {
            i += 1;
            assert(list@.take(i as int) =~= kept.push(all[place as int]));
        } else {
            list.remove(i);
            proof {
                assert(list@.skip(i as int) =~= now.skip(i + 1));
                assert(list@.take(i as int) =~= kept);
            }
        }
        place += 1;
    }
    proof {
        assert(list@.take(list@.len() as int) =~= list@);
        assert(all.take(all.len() as int) =~= all);
    }
}

/// Marks taken for items are marks for what the items stand for.
pub proof fn lemma_masked_map<T, V>(list: Seq<T>, mask: Seq<bool>, f: spec_fn(T) -> V)
    ensures
        masked(list, mask).map_values(f) == masked(list.map_values(f), mask),
    decreases list.len(),
{
    if list.len() > 0 {
        lemma_masked_map(list.drop_last(), mask, f);
        assert(list.map_values(f).drop_last() =~= list.drop_last().map_values(f));
        if mask[list.len() - 1] {
            assert(masked(list, mask).map_values(f) =~= masked(list.drop_last(), mask).map_values(
                f,
            ).push(f(list.last())));
        }
    } else {
        assert(list.map_values(f) =~= Seq::empty());
        assert(masked(list, mask).map_values(f) =~= Seq::empty());
    }
}

/// Marks that say what is kept pick out just that.
pub proof fn lemma_masked_filter<T>(list: Seq<T>, mask: Seq<bool>, keep: spec_fn(T) -> bool)
    requires
        mask.len() >= list.len(),
        forall|i: int| 0 <= i < list.len() ==> #[trigger] mask[i] == keep(list[i]),
    ensures
        masked(list, mask) == list.filter(keep),
    decreases list.len(),
{
    reveal(Seq::filter);
    if list.len() > 0 {
        lemma_masked_filter(list.drop_last(), mask, keep);
        assert(mask[list.len() - 1] == keep(list.last()));
    }
}

/// Whether an identifier is among some.
pub fn holds_id(list: &Vec<u128>, id: u128) -> (r: bool)
    ensures
        r == list@.contains(id),
{
    let mut i: usize = 0;
    while i < list.len()
        invariant
            0 <= i <= list.len(),
            forall|k: int| 0 <= k < i ==> list@[k] != id,
        decreases list.len() - i,
    {
        if list[i] == id {
            assert(list@[i as int] == id);
            return true;
        }
        i += 1;
    }
    false
}

} // verus!
