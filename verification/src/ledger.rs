//! Per-identity claim state.
//!
//! The ledger records which identities have already been paid. An absent
//! identity counts as unclaimed; marking is monotonic, there is no way to
//! unmark. The entries are held as a list of identity byte strings with no
//! duplicates; insertion order carries no meaning, so the view is the set
//! of recorded identities.

use vstd::prelude::*;
use crate::hashing::{bytes_eq, copy_bytes};

verus! {

/// Records which identities have already claimed.
pub struct ClaimLedger {
    pub entries: Vec<Vec<u8>>,
}

impl View for ClaimLedger {
    type V = Set<Seq<u8>>;

    open spec fn view(&self) -> Set<Seq<u8>> {
        Set::new(|identity: Seq<u8>| exists|i: int|
            0 <= i < self.entries@.len() && self.entries@[i]@ == identity)
    }
}

impl ClaimLedger {
    /// No identity is recorded twice.
    pub open spec fn wf(self) -> bool {
        forall|i: int, j: int|
            0 <= i < j < self.entries@.len() ==> self.entries@[i]@ != self.entries@[j]@
    }

    /// A ledger with nothing claimed.
    pub fn new() -> (ledger: ClaimLedger)
        ensures
            ledger@ == Set::<Seq<u8>>::empty(),
            ledger.wf(),
    {
        let ledger = ClaimLedger { entries: Vec::new() };
        proof {
            assert(ledger@ =~= Set::<Seq<u8>>::empty());
        }
        ledger
    }

    /// Whether an identity has already claimed; absent means unclaimed.
    pub fn is_claimed(&self, identity: &Vec<u8>) -> (claimed: bool)
        ensures
            claimed == self@.contains(identity@),
    {
        let mut i: usize = 0;
        while i < self.entries.len()
            invariant
                i <= self.entries@.len(),
                forall|j: int| 0 <= j < i ==> self.entries@[j]@ != identity@,
            decreases self.entries@.len() - i,
        {
            if bytes_eq(&self.entries[i], identity) {
                return true;
            }
            i += 1;
        }
        false
    }

    /// Record an identity as claimed. The flag is monotonic for the life of
    /// the campaign: nothing ever removes an entry.
    pub fn mark_claimed(&mut self, identity: &Vec<u8>)
        requires
            old(self).wf(),
            !old(self)@.contains(identity@),
        ensures
            final(self)@ == old(self)@.insert(identity@),
            final(self).wf(),
    {
        let entry = copy_bytes(identity);
        self.entries.push(entry);
        proof {
            let before = old(self).entries@;
            let pushed = self.entries@;
            assert forall|i: int, j: int| 0 <= i < j < pushed.len()
                implies pushed[i]@ != pushed[j]@ by {
                if j == pushed.len() - 1 {
                    assert(pushed[j]@ == identity@);
                    assert(before[i]@ != identity@);
                }
            }
            assert forall|x: Seq<u8>| #[trigger] self@.contains(x)
                implies old(self)@.insert(identity@).contains(x) by {
                let i = choose|i: int| 0 <= i < pushed.len() && pushed[i]@ == x;
                if i < before.len() {
                    assert(before[i]@ == x);
                }
            }
            assert forall|x: Seq<u8>| old(self)@.insert(identity@).contains(x)
                implies #[trigger] self@.contains(x) by {
                if x == identity@ {
                    assert(pushed[pushed.len() - 1]@ == x);
                } else {
                    let i = choose|i: int| 0 <= i < before.len() && before[i]@ == x;
                    assert(pushed[i]@ == x);
                }
            }
            assert(self@ =~= old(self)@.insert(identity@));
        }
    }
}

} // verus!
