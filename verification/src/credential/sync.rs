//! The outbox of state changes that wait to be written to durable storage.
//!
//! The pool notes each change of a credential here and goes on: what is in
//! memory decides the routing. Whoever owns the storage takes the records
//! out and writes them; a write that fails changes nothing in the pool.

use vstd::prelude::*;
use crate::credential::types::{CredentialStats, CredentialStatus, CredentialView, StatusView};

verus! {

/// The state of one credential, as it is to be written.
#[derive(Debug, PartialEq, Eq)]
pub struct SyncRecord {
    pub id: u64,
    pub status: CredentialStatus,
    pub stats: CredentialStats,
}

/// The view of a [`SyncRecord`].
pub struct SyncRecordView {
    pub id: u64,
    pub status: StatusView,
    pub stats: CredentialStats,
}

impl View for SyncRecord {
    type V = SyncRecordView;

    open spec fn view(&self) -> SyncRecordView {
        SyncRecordView { id: self.id, status: self.status@, stats: self.stats }
    }
}

/// The record that holds the state of `c`.
pub open spec fn record_of(c: CredentialView) -> SyncRecordView {
    SyncRecordView { id: c.id, status: c.status, stats: c.stats }
}

/// The views of a list of records.
pub open spec fn record_views(records: Seq<SyncRecord>) -> Seq<SyncRecordView> {
    Seq::new(records.len(), |i: int| records[i]@)
}

/// The records that wait to be written, oldest first.
pub struct CredentialSyncService {
    pending: Vec<SyncRecord>,
}

impl View for CredentialSyncService {
    type V = Seq<SyncRecordView>;

    closed spec fn view(&self) -> Seq<SyncRecordView> {
        record_views(self.pending@)
    }
}

impl CredentialSyncService {
    /// An empty outbox.
    pub fn new() -> (r: CredentialSyncService)
        ensures
            r@ == Seq::<SyncRecordView>::empty(),
    {
        let r = CredentialSyncService { pending: Vec::new() };
        assert(r@ =~= Seq::<SyncRecordView>::empty());
        r
    }

    /// How many records wait.
    pub fn pending_len(&self) -> (r: usize)
        ensures
            r == self@.len(),
    {
        self.pending.len()
    }

    /// Notes the state of a credential for writing. This cannot fail.
    pub fn persist(&mut self, id: u64, status: CredentialStatus, stats: CredentialStats)
        ensures
            final(self)@ == old(self)@.push(SyncRecordView { id, status: status@, stats }),
    {
        let ghost record = SyncRecordView { id, status: status@, stats };
        self.pending.push(SyncRecord { id, status, stats });
        assert(self@ =~= old(self)@.push(record));
    }

    /// Hands out the waiting records, oldest first, and leaves the outbox
    /// empty.
    pub fn take_pending(&mut self) -> (r: Vec<SyncRecord>)
        ensures
            record_views(r@) == old(self)@,
            final(self)@ == Seq::<SyncRecordView>::empty(),
    {
        let mut taken: Vec<SyncRecord> = Vec::new();
        std::mem::swap(&mut self.pending, &mut taken);
        assert(self@ =~= Seq::<SyncRecordView>::empty());
        taken
    }
}

} // verus!
