//! The ledger shared across threads, behind a verified reader-writer lock.
//!
//! Every value the lock ever stores satisfies the ledger's invariant, so a
//! reader can never observe a partially written entry: whatever a query
//! returns, it is the answer over some consistent, fully committed ledger
//! state, and each operation here is atomic against every other.

use vstd::prelude::*;
use vstd::rwlock::RwLock;
use vstd::rwlock::RwLockPredicate;

use crate::ledger::ScoreEntry;
use crate::ledger::ScoreLedger;
use crate::ledger::contains_id;
use crate::ledger::ids_unique;
use crate::ledger::lookup_model;
use crate::ledger::report_model;
use crate::ledger::total_model;

verus! {

/// What the lock admits: only well-formed ledgers, their ids unique.
pub struct LedgerInvariant;

impl RwLockPredicate<ScoreLedger> for LedgerInvariant {
    open spec fn inv(self, v: ScoreLedger) -> bool {
        v.wf()
    }
}

/// A score ledger shared across threads. Each operation acquires the lock,
/// works on a well-formed ledger, and leaves a well-formed ledger behind;
/// writes exclude each other and every reader.
pub struct SharedLedger {
    lock: RwLock<ScoreLedger, LedgerInvariant>,
}

impl SharedLedger {
    /// A shared ledger holding no entries.
    pub fn new() -> (r: SharedLedger) {
        SharedLedger { lock: RwLock::new(ScoreLedger::new(), Ghost(LedgerInvariant)) }
    }

    /// Write (`id`, `value`, `reason`) into the ledger, atomically:
    /// overwrite the entry for `id` in place when one exists, else append.
    pub fn upsert(&self, id: u64, value: i32, reason: String) {
        let (mut ledger, handle) = self.lock.acquire_write();
        ledger.upsert(id, value, reason);
        handle.release_write(ledger);
    }

    /// Remove the entry carrying `id`, atomically. Returns `Ok(())` exactly
    /// when the committed ledger state the call acted on held such an entry,
    /// and `Err(())` when it did not.
    pub fn remove(&self, id: u64) -> (r: Result<(), ()>)
        ensures
            exists|s: Seq<ScoreEntry>| ids_unique(s) && ((r is Ok) <==> contains_id(s, id)),
    {
        let (mut ledger, handle) = self.lock.acquire_write();
        let ghost taken = ledger@;
        let r = ledger.remove(id);
        proof {
            assert(ids_unique(taken) && ((r is Ok) <==> contains_id(taken, id)));
        }
        handle.release_write(ledger);
        r
    }

    /// The sum of all values of some consistent, fully committed ledger
    /// state: no partially written entry can be observed.
    pub fn total(&self) -> (r: i128)
        ensures
            exists|s: Seq<ScoreEntry>| ids_unique(s) && r == total_model(s),
    {
        let read = self.lock.acquire_read();
        let r = read.borrow().total();
        proof {
            assert(ids_unique(read.view()@) && r == total_model(read.view()@));
        }
        read.release_read();
        r
    }

    /// The report of some consistent, fully committed ledger state, in its
    /// ledger order.
    pub fn report(&self) -> (r: Vec<(String, i32)>)
        ensures
            exists|s: Seq<ScoreEntry>| ids_unique(s) && r@ == report_model(s),
    {
        let read = self.lock.acquire_read();
        let r = read.borrow().report();
        proof {
            assert(ids_unique(read.view()@) && r@ == report_model(read.view()@));
        }
        read.release_read();
        r
    }

    /// The entry carrying `id` in some consistent, fully committed ledger
    /// state, copied out, if that state held one.
    pub fn get_entry(&self, id: u64) -> (r: Option<(u64, i32, String)>)
        ensures
            exists|s: Seq<ScoreEntry>|
                ids_unique(s) && (match r {
                    Some(t) => lookup_model(s, id) == Some(
                        (ScoreEntry { id: t.0, value: t.1, reason: t.2 }),
                    ) && t.0 == id,
                    None => lookup_model(s, id) is None,
                }),
    {
        let read = self.lock.acquire_read();
        let r = read.borrow().get_entry(id);
        proof {
            assert(ids_unique(read.view()@));
        }
        read.release_read();
        r
    }

    /// Whether some consistent, fully committed ledger state held an entry
    /// carrying `id`.
    pub fn entry_exists(&self, id: u64) -> (r: bool)
        ensures
            exists|s: Seq<ScoreEntry>| ids_unique(s) && r == contains_id(s, id),
    {
        let read = self.lock.acquire_read();
        let r = read.borrow().entry_exists(id);
        proof {
            assert(ids_unique(read.view()@) && r == contains_id(read.view()@, id));
        }
        read.release_read();
        r
    }
}

} // verus!
