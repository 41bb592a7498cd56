//! The runs of the runtimes on SSH hosts: a runtime that has been started anew
//! shows another epoch.

use crate::text::same_text;
use vstd::prelude::*;

verus! {

/// The epochs of the runtimes on SSH hosts, by the aliases of the hosts.
#[derive(Debug)]
pub struct EpochTable {
    pub entries: Vec<(String, u128)>,
}

impl View for EpochTable {
    type V = Seq<(Seq<char>, u128)>;

    open spec fn view(&self) -> Seq<(Seq<char>, u128)> {
        self.entries@.map_values(|entry: (String, u128)| (entry.0@, entry.1))
    }
}

/// The place of a host.
pub open spec fn epoch_at(list: Seq<(Seq<char>, u128)>, alias: Seq<char>) -> Option<int>
    decreases list.len(),
{
    if list.len() == 0 {
        None
    } else {
        match epoch_at(list.drop_last(), alias) {
            Some(i) => Some(i),
            None => if list.last().0 == alias {
                Some(list.len() - 1)
            } else {
                None
            },
        }
    }
}

/// The epoch of a host.
pub open spec fn epoch_of(list: Seq<(Seq<char>, u128)>, alias: Seq<char>) -> Option<u128> {
    match epoch_at(list, alias) {
        Some(i) => Some(list[i].1),
        None => None,
    }
}

/// The table with the epoch of a host set.
pub open spec fn epoch_put(list: Seq<(Seq<char>, u128)>, alias: Seq<char>, epoch: u128) -> Seq<
    (Seq<char>, u128),
> {
    match epoch_at(list, alias) {
        Some(i) => list.update(i, (alias, epoch)),
        None => list.push((alias, epoch)),
    }
}

/// What is observed of a host that shows an epoch: nothing where the epoch is
/// known, else that the host has been reconciled, and whether its runtime had
/// been another one.
pub open spec fn observation(list: Seq<(Seq<char>, u128)>, alias: Seq<char>, epoch: u128) -> Option<
    Option<Seq<char>>,
> {
    match epoch_of(list, alias) {
        None => Some(None),
        Some(known) => if known == epoch {
            None
        } else {
            Some(Some("daemon_restarted"@))
        },
    }
}

proof fn lemma_epoch_at(list: Seq<(Seq<char>, u128)>, alias: Seq<char>)
    ensures
        epoch_at(list, alias) matches Some(i) ==> 0 <= i < list.len() && list[i].0 == alias,
    decreases list.len(),
{
    if list.len() > 0 {
        lemma_epoch_at(list.drop_last(), alias);
    }
}

proof fn lemma_epoch_found(list: Seq<(Seq<char>, u128)>, alias: Seq<char>, at: int)
    requires
        0 <= at <= list.len(),
        epoch_at(list.take(at), alias) is Some,
    ensures
        epoch_at(list, alias) == epoch_at(list.take(at), alias),
    decreases list.len() - at,
{
    if at == list.len() {
        assert(list.take(at) =~= list);
    } else {
        assert(list.take(at + 1).drop_last() =~= list.take(at));
        lemma_epoch_found(list, alias, at + 1);
    }
}

proof fn lemma_same_places(list: Seq<(Seq<char>, u128)>, other: Seq<(Seq<char>, u128)>, alias: Seq<char>)
    requires
        list.len() == other.len(),
        forall|i: int| 0 <= i < list.len() ==> (#[trigger] list[i]).0 == other[i].0,
    ensures
        epoch_at(list, alias) == epoch_at(other, alias),
    decreases list.len(),
{
    if list.len() > 0 {
        assert forall|i: int| 0 <= i < list.drop_last().len() implies (#[trigger] list.drop_last()[i]).0
            == other.drop_last()[i].0 by {
            assert(list[i].0 == other[i].0);
        }
        lemma_same_places(list.drop_last(), other.drop_last(), alias);
        assert(list[list.len() - 1].0 == other[list.len() - 1].0);
    }
}

/// The epoch that a host has shown is the one that is kept of it, and those of the
/// other hosts stay.
pub proof fn lemma_epoch_is_kept(
    list: Seq<(Seq<char>, u128)>,
    alias: Seq<char>,
    epoch: u128,
    other: Seq<char>,
)
    ensures
        epoch_of(epoch_put(list, alias, epoch), alias) == Some(epoch),
        other != alias ==> epoch_of(epoch_put(list, alias, epoch), other) == epoch_of(list, other),
{
    let after = epoch_put(list, alias, epoch);
    lemma_epoch_at(list, alias);
    lemma_epoch_at(list, other);
    if epoch_at(list, alias) is Some {
        lemma_same_places(list, after, alias);
        lemma_same_places(list, after, other);
    } else {
        assert(after.drop_last() =~= list);
    }
}

impl EpochTable {
    /// No host has shown an epoch.
    pub fn new() -> (r: EpochTable)
        ensures
            r@ == Seq::<(Seq<char>, u128)>::empty(),
    {
        let r = EpochTable { entries: Vec::new() };
        assert(r@ =~= Seq::empty());
        r
    }

    /// Keeps the epoch that a host shows, and says what is observed of it.
    pub fn note(&mut self, alias: &str, epoch: u128) -> (r: Option<Option<&'static str>>)
        ensures
            final(self)@ == epoch_put(old(self)@, alias@, epoch),
            match observation(old(self)@, alias@, epoch) {
                None => r is None,
                Some(None) => r matches Some(detail) && detail is None,
                Some(Some(text)) => r matches Some(Some(detail)) && detail@ == text,
            },
    {
        let ghost list = self@;
        let mut i: usize = 0;
        assert(list.take(0) =~= Seq::empty());
        while i < self.entries.len()
            invariant
                0 <= i <= self.entries.len(),
                list == self@,
                self@ == old(self)@,
                epoch_at(list.take(i as int), alias@) is None,
            decreases self.entries.len() - i,
        {
            assert(list.take(i + 1).drop_last() =~= list.take(i as int));
            assert(list.take(i + 1).last() == (self.entries@[i as int].0@, self.entries@[i as int].1));
            if same_text(self.entries[i].0.as_str(), alias) {
                proof {
                    lemma_epoch_found(list, alias@, i + 1);
                }
                let known: u128 = self.entries[i].1;
                self.entries[i].1 = epoch;
                assert(self@ =~= list.update(i as int, (alias@, epoch)));
                return if known == epoch {
                    None
                } else {
                    Some(Some("daemon_restarted"))
                };
            }
            i += 1;
        }
        assert(list.take(list.len() as int) =~= list);
        self.entries.push((alias.to_owned(), epoch));
        assert(self@ =~= list.push((alias@, epoch)));
        Some(None)
    }
}

/// A host that is met for the first time is news without a reason, one that is met
/// again in the same run is none, and one that runs anew has been restarted.
pub proof fn lemma_restarts_are_noticed(list: Seq<(Seq<char>, u128)>, alias: Seq<char>, epoch: u128)
    ensures
        epoch_of(list, alias) is None ==> observation(list, alias, epoch) == Some(None::<Seq<char>>),
        epoch_of(list, alias) == Some(epoch) ==> observation(list, alias, epoch) is None,
        epoch_of(list, alias) is Some && epoch_of(list, alias) != Some(epoch) ==> observation(list, alias, epoch)
            == Some(Some("daemon_restarted"@)),
{
}

} // verus!
