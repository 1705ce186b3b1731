//! The dedup ledger: a permanent set of already-settled claimant identities.
//!
//! Entries are only ever added, never removed, and a second insertion of the
//! same identity is refused, so at most one successful settlement per
//! identity can ever commit.

use vstd::prelude::*;

use crate::bytes::bytes_eq;
use crate::types::AirDropId;
use crate::types::SettlementError;

verus! {

/// Persistent set of identities whose settlement already succeeded.
pub struct DedupLedger {
    entries: Vec<AirDropId>,
}

impl DedupLedger {
    /// The set of settled identities, as the set of their address bytes.
    pub closed spec fn view(&self) -> Set<Seq<u8>> {
        Set::new(|s: Seq<u8>| exists|i: int| 0 <= i < self.entries@.len() && self.entries@[i].bytes@ == s)
    }

    /// Entries are well formed and pairwise distinct.
    pub closed spec fn well_formed(&self) -> bool {
        &&& forall|i: int| 0 <= i < self.entries@.len() ==> (#[trigger] self.entries@[i]).well_formed()
        &&& forall|i: int, j: int|
            0 <= i < j < self.entries@.len() ==> self.entries@[i].bytes@ != self.entries@[j].bytes@
    }

    /// Creates an empty ledger: nothing has been settled yet.
    pub fn new() -> (r: DedupLedger)
        ensures
            r.well_formed(),
            r@ == Set::<Seq<u8>>::empty(),
    {
        let r = DedupLedger { entries: Vec::new() };
        assert(r@ =~= Set::<Seq<u8>>::empty());
        r
    }

    /// Reports whether `id` has already been settled.
    pub fn contains(&self, id: &AirDropId) -> (r: bool)
        ensures
            r == self@.contains(id.bytes@),
    {
        let mut i: usize = 0;
        while i < self.entries.len()
            invariant
                i <= self.entries@.len(),
                forall|j: int| 0 <= j < i ==> self.entries@[j].bytes@ != id.bytes@,
            decreases self.entries@.len() - i,
        {
            if bytes_eq(&self.entries[i].bytes, &id.bytes) {
                assert(self@.contains(id.bytes@));
                return true;
            }
            i = i + 1;
        }
        assert(!self@.contains(id.bytes@));
        false
    }

    /// Records `id` as settled.  Fails, leaving the ledger untouched, if the
    /// identity is already present; entries are permanent and never doubled.
    pub fn insert(&mut self, id: AirDropId) -> (r: Result<(), SettlementError>)
        requires
            old(self).well_formed(),
            id.well_formed(),
        ensures
            final(self).well_formed(),
            old(self)@.contains(id.bytes@) ==> r == Err::<(), SettlementError>(
                SettlementError::AlreadyPaid,
            ) && final(self)@ == old(self)@,
            !old(self)@.contains(id.bytes@) ==> r == Ok::<(), SettlementError>(())
                && final(self)@ == old(self)@.insert(id.bytes@),
    {
        if self.contains(&id) {
            return Err(SettlementError::AlreadyPaid);
        }
        let ghost old_entries = self.entries@;
        self.entries.push(id);
        assert forall|s: Seq<u8>| self@.contains(s) implies old(self)@.insert(
            id.bytes@,
        ).contains(s) by {
            let i = choose|i: int|
                0 <= i < self.entries@.len() && self.entries@[i].bytes@ == s;
            if i < old_entries.len() {
                assert(old(self)@.contains(s));
            }
        }
        assert forall|s: Seq<u8>| old(self)@.insert(id.bytes@).contains(s) implies self@.contains(
            s,
        ) by {
            if s == id.bytes@ {
                assert(self.entries@[old_entries.len() as int].bytes@ == s);
            } else {
                let i = choose|i: int| 0 <= i < old_entries.len() && old_entries[i].bytes@ == s;
                assert(self.entries@[i].bytes@ == s);
            }
        }
        assert(self@ =~= old(self)@.insert(id.bytes@));
        Ok(())
    }
}

} // verus!
