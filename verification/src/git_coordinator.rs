//! One Git operation at a time in each repository.

use crate::text::{holds_text, same_text, texts_of};
use vstd::prelude::*;

verus! {

/// The repositories in which a Git operation is under way. The operations
/// themselves are the methods that the other Git modules give this type.
#[derive(Debug)]
pub struct GitCoordinator {
    busy: Vec<String>,
}

impl GitCoordinator {
    /// The repositories in which an operation is under way.
    pub closed spec fn occupied(&self) -> Set<Seq<char>> {
        texts_of(self.busy@).to_set()
    }

    /// Whether each repository stands in the list once.
    pub closed spec fn well_formed(&self) -> bool {
        texts_of(self.busy@).no_duplicates()
    }

    /// No operation under way.
    pub fn new() -> (r: GitCoordinator)
        ensures
            r.well_formed(),
            r.occupied() == Set::<Seq<char>>::empty(),
    {
        let r = GitCoordinator { busy: Vec::new() };
        assert(texts_of(r.busy@).to_set() =~= Set::empty());
        r
    }

    /// Starts an operation in a repository, unless one is under way there.
    pub fn enter(&mut self, repository: &str) -> (r: bool)
        requires
            old(self).well_formed(),
        ensures
            final(self).well_formed(),
            r == !old(self).occupied().contains(repository@),
            final(self).occupied() == old(self).occupied().insert(repository@),
    {
        let ghost before = texts_of(self.busy@);
        if holds_text(&self.busy, repository) {
            assert(before.to_set().insert(repository@) =~= before.to_set());
            return false;
        }
        self.busy.push(repository.to_owned());
        proof {
            let after = texts_of(self.busy@);
            assert(after =~= before.push(repository@));
            assert forall|t: Seq<char>| after.to_set().contains(t) <==> before.to_set().insert(
                repository@,
            ).contains(t) by {
                if after.to_set().contains(t) {
                    let k = choose|k: int| 0 <= k < after.len() && after[k] == t;
                    if k < before.len() {
                        assert(before[k] == t);
                    }
                }
                if before.to_set().contains(t) {
                    let k = choose|k: int| 0 <= k < before.len() && before[k] == t;
                    assert(after[k] == t);
                }
                assert(after[before.len() as int] == repository@);
            }
            assert(after.to_set() =~= before.to_set().insert(repository@));
        }
        true
    }

    /// Ends the operation in a repository.
    pub fn leave(&mut self, repository: &str)
        requires
            old(self).well_formed(),
        ensures
            final(self).well_formed(),
            final(self).occupied() == old(self).occupied().remove(repository@),
    {
        let ghost before = texts_of(self.busy@);
        let mut i: usize = 0;
        while i < self.busy.len()
            invariant
                0 <= i <= self.busy.len(),
                before == texts_of(self.busy@),
                before == texts_of(old(self).busy@),
                before.no_duplicates(),
                forall|k: int| 0 <= k < i ==> before[k] != repository@,
            decreases self.busy.len() - i,
        {
            assert(before[i as int] == self.busy@[i as int]@);
            if same_text(self.busy[i].as_str(), repository) {
                self.busy.remove(i);
                proof {
                    let after = texts_of(self.busy@);
                    assert(after =~= before.remove(i as int));
                    assert forall|t: Seq<char>| after.to_set().contains(t) <==> before.to_set().remove(
                        repository@,
                    ).contains(t) by {
                        if after.to_set().contains(t) {
                            let k = choose|k: int| 0 <= k < after.len() && after[k] == t;
                            if k < i {
                                assert(before[k] == t);
                            } else {
                                assert(before[k + 1] == t);
                            }
                        }
                        if before.to_set().contains(t) && t != repository@ {
                            let k = choose|k: int| 0 <= k < before.len() && before[k] == t;
                            if k < i {
                                assert(after[k] == t);
                            } else {
                                assert(after[k - 1] == t);
                            }
                        }
                    }
                    assert(after.to_set() =~= before.to_set().remove(repository@));
                }
                return;
            }
            i += 1;
        }
        assert(before.to_set().remove(repository@) =~= before.to_set());
    }
}

} // verus!
