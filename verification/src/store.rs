//! The data store: one current snapshot behind a verified reader/writer
//! lock.
//!
//! Any number of readers may hold the current snapshot at once; a
//! replacement takes exclusive access, swaps the whole snapshot and cannot
//! partially apply. A reader therefore observes either the old snapshot in
//! full or the new one in full, never a mix, and every snapshot handed out
//! satisfies the snapshot invariant. The lock is `vstd`'s verified
//! reader/writer lock, so these guarantees are proved, not taken on faith.

use vstd::prelude::*;

verus! {

use vstd::rwlock::ReadHandle;
use vstd::rwlock::RwLock;
use vstd::rwlock::RwLockPredicate;
use crate::models::Network;
use crate::models::snapshot_wf;

/// The lock invariant: only well-formed snapshots can be stored.
pub struct SnapshotInv {}

impl RwLockPredicate<Vec<Network>> for SnapshotInv {
    open spec fn inv(self, v: Vec<Network>) -> bool {
        snapshot_wf(v@)
    }
}

/// Owns the authoritative in-memory snapshot and arbitrates concurrent
/// read access against wholesale replacement.
pub struct DataStore {
    lock: RwLock<Vec<Network>, SnapshotInv>,
}

/// Shared access to one whole snapshot. While the handle is held, the
/// observed snapshot cannot change; replacement waits for every handle to
/// be released.
pub struct SnapshotHandle<'a> {
    handle: ReadHandle<'a, Vec<Network>, SnapshotInv>,
}

impl<'a> SnapshotHandle<'a> {
    /// The snapshot this handle observes, fixed for the handle's lifetime.
    pub closed spec fn snapshot(&self) -> Seq<Network> {
        self.handle.view()@
    }

    /// The handle was taken from `store`.
    pub closed spec fn came_from(&self, store: &DataStore) -> bool {
        self.handle.rwlock() == store.lock
    }

    /// The observed records. Every inspection through one handle sees the
    /// same, complete snapshot.
    pub fn borrow(&self) -> (records: &Vec<Network>)
        ensures
            records@ == self.snapshot(),
    {
        self.handle.borrow()
    }

    /// Releases the shared access, letting a waiting replacement proceed.
    pub fn release(self) {
        self.handle.release_read();
    }
}

impl DataStore {
    /// Creates a store holding `records` as the initial snapshot.
    pub fn new(records: Vec<Network>) -> Self
        requires
            snapshot_wf(records@),
    {
        DataStore { lock: RwLock::new(records, Ghost(SnapshotInv {})) }
    }

    /// Returns the current snapshot in full. Concurrent callers do not
    /// block each other; the call blocks only while a replacement is in
    /// progress, and the copy is taken before the shared access is
    /// released, so it reflects exactly one installed snapshot.
    pub fn read(&self) -> (snap: Vec<Network>)
        ensures
            snapshot_wf(snap@),
    {
        let handle = self.lock.acquire_read();
        let snap = handle.borrow().clone();
        proof {
            assert(snap@ =~= handle.view()@);
        }
        handle.release_read();
        snap
    }

    /// Acquires shared access to the current snapshot without copying it.
    /// Any number of handles may be held at once; the call blocks only
    /// while a replacement is in progress.
    pub fn read_handle(&self) -> (h: SnapshotHandle<'_>)
        ensures
            h.came_from(self),
            snapshot_wf(h.snapshot()),
    {
        SnapshotHandle { handle: self.lock.acquire_read() }
    }

    /// Any two handles held at the same time on the same store observe
    /// exactly the same snapshot: however a replacement interleaves with
    /// concurrent readers, none of them ever sees a mix of old and new
    /// records. The body only invokes the lock's proof; at run time this
    /// does nothing.
    pub fn readers_agree(h1: &SnapshotHandle<'_>, h2: &SnapshotHandle<'_>, store: &DataStore)
        requires
            h1.came_from(store),
            h2.came_from(store),
        ensures
            h1.snapshot() == h2.snapshot(),
    {
        proof {
            ReadHandle::lemma_readers_match(&h1.handle, &h2.handle);
        }
    }

    /// Discards the old snapshot and installs `new_records` in its place,
    /// as a whole. Blocks until current readers release their shared
    /// access and blocks new readers until the swap is done; it cannot
    /// fail and cannot leave a mixed state behind.
    pub fn replace(&self, new_records: Vec<Network>)
        requires
            snapshot_wf(new_records@),
    {
        let (_old_snapshot, write_handle) = self.lock.acquire_write();
        write_handle.release_write(new_records);
    }
}

} // verus!
