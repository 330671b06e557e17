//! Merge requests and their one-way life: open, then closed or merged.

use crate::clock::{generate_id, utc_now, Timestamp};
use vstd::prelude::*;

verus! {

/// Where a merge request stands.
#[derive(Clone, Copy, Debug, PartialEq, Eq, Structural)]
pub enum MergeStatus {
    Open,
    Merged,
    Closed,
}

/// A request to merge one hash into another.
#[derive(Clone, Debug)]
pub struct MergeRequest {
    pub id: i64,
    pub mr_link: String,
    pub title: String,
    pub status: MergeStatus,
    pub merge_date: Option<Timestamp>,
    pub path: String,
    pub from_hash: String,
    pub to_hash: String,
}

/// A merge request as the persistence layer keeps it.
#[derive(Clone, Debug)]
pub struct MergeRequestRow {
    pub id: i64,
    pub mr_link: String,
    pub title: String,
    pub status: MergeStatus,
    pub merge_date: Option<Timestamp>,
    pub path: String,
    pub from_hash: String,
    pub to_hash: String,
    pub created_at: Timestamp,
    pub updated_at: Timestamp,
}

impl Default for MergeRequest {
    /// An open merge request with a fresh identifier and nothing else.
    fn default() -> (mr: MergeRequest)
        ensures
            mr.is_fresh(),
    {
        MergeRequest::with_id(generate_id())
    }
}

impl MergeRequest {
    /// An open merge request with no date and no text in it yet.
    pub open spec fn is_fresh(self) -> bool {
        &&& self.status == MergeStatus::Open
        &&& self.merge_date.is_none()
        &&& self.mr_link@.len() == 0
        &&& self.title@.len() == 0
        &&& self.path@.len() == 0
        &&& self.from_hash@.len() == 0
        &&& self.to_hash@.len() == 0
    }

    /// A merge request carries a merge date exactly when it is merged.
    pub open spec fn wf(self) -> bool {
        self.merge_date.is_some() <==> self.status == MergeStatus::Merged
    }

    /// This request after closing: an open one is closed, any other
    /// stays as it is.
    pub open spec fn spec_close(self) -> MergeRequest {
        match self.status {
            MergeStatus::Open => MergeRequest { status: MergeStatus::Closed, ..self },
            _ => self,
        }
    }

    /// This request after merging at `now`: an open one is merged and
    /// dated, any other stays as it is.
    pub open spec fn spec_merge(self, now: Timestamp) -> MergeRequest {
        match self.status {
            MergeStatus::Open => MergeRequest {
                status: MergeStatus::Merged,
                merge_date: Some(now),
                ..self
            },
            _ => self,
        }
    }

    /// The row for this request with the given times.
    pub open spec fn spec_row(self, created_at: Timestamp, updated_at: Timestamp) -> MergeRequestRow {
        MergeRequestRow {
            id: self.id,
            mr_link: self.mr_link,
            title: self.title,
            status: self.status,
            merge_date: self.merge_date,
            path: self.path,
            from_hash: self.from_hash,
            to_hash: self.to_hash,
            created_at,
            updated_at,
        }
    }

    /// The open, empty merge request with identifier `id`.
    pub fn with_id(id: i64) -> (mr: MergeRequest)
        ensures
            mr.id == id,
            mr.is_fresh(),
            mr.wf(),
    {
        MergeRequest {
            id,
            mr_link: String::new(),
            title: String::new(),
            status: MergeStatus::Open,
            merge_date: None,
            path: String::new(),
            from_hash: String::new(),
            to_hash: String::new(),
        }
    }

    /// Closes the request if it is open.
    pub fn close(&mut self)
        ensures
            *final(self) == old(self).spec_close(),
    {
        match self.status {
            MergeStatus::Open => {
                self.status = MergeStatus::Closed;
            },
            _ => {},
        }
    }

    /// Merges the request at the time `now` if it is open.
    pub fn merge_at(&mut self, now: Timestamp)
        ensures
            *final(self) == old(self).spec_merge(now),
    {
        match self.status {
            MergeStatus::Open => {
                self.status = MergeStatus::Merged;
                self.merge_date = Some(now);
            },
            _ => {},
        }
    }

    /// Merges the request, dated with the current time, if it is open.
    pub fn merge(&mut self)
        ensures
            old(self).status != MergeStatus::Open ==> *final(self) == *old(self),
            old(self).status == MergeStatus::Open ==> final(self).status == MergeStatus::Merged
                && final(self).merge_date.is_some() && *final(self) == old(self).spec_merge(
                final(self).merge_date.unwrap(),
            ),
    {
        let now = utc_now();
        self.merge_at(now);
    }

    /// The row for this request with the given times.
    pub fn into_row_with(self, created_at: Timestamp, updated_at: Timestamp) -> (row:
        MergeRequestRow)
        ensures
            row == self.spec_row(created_at, updated_at),
    {
        MergeRequestRow {
            id: self.id,
            mr_link: self.mr_link,
            title: self.title,
            status: self.status,
            merge_date: self.merge_date,
            path: self.path,
            from_hash: self.from_hash,
            to_hash: self.to_hash,
            created_at,
            updated_at,
        }
    }

    /// The row for this request, created and updated now.
    pub fn into_row(self) -> (row: MergeRequestRow)
        ensures
            row == self.spec_row(row.created_at, row.updated_at),
    {
        let created_at = utc_now();
        let updated_at = utc_now();
        self.into_row_with(created_at, updated_at)
    }
}

impl From<MergeRequestRow> for MergeRequest {
    fn from(value: MergeRequestRow) -> (mr: MergeRequest) {
        MergeRequest {
            id: value.id,
            mr_link: value.mr_link,
            title: value.title,
            status: value.status,
            merge_date: value.merge_date,
            path: value.path,
            from_hash: value.from_hash,
            to_hash: value.to_hash,
        }
    }
}

impl vstd::std_specs::convert::FromSpecImpl<MergeRequestRow> for MergeRequest {
    open spec fn obeys_from_spec() -> bool {
        true
    }

    open spec fn from_spec(value: MergeRequestRow) -> MergeRequest {
        MergeRequest {
            id: value.id,
            mr_link: value.mr_link,
            title: value.title,
            status: value.status,
            merge_date: value.merge_date,
            path: value.path,
            from_hash: value.from_hash,
            to_hash: value.to_hash,
        }
    }
}

/// Closed and merged are final: neither closing nor merging changes a
/// request that is no longer open.
pub proof fn lemma_terminal_states(mr: MergeRequest, now: Timestamp)
    requires
        mr.status != MergeStatus::Open,
    ensures
        mr.spec_close() == mr,
        mr.spec_merge(now) == mr,
{
}

/// Merging an open request marks it merged and dates it, and closing it
/// afterwards changes nothing.
pub proof fn lemma_merge_then_close(mr: MergeRequest, now: Timestamp)
    requires
        mr.status == MergeStatus::Open,
    ensures
        mr.spec_merge(now).status == MergeStatus::Merged,
        mr.spec_merge(now).merge_date == Some(now),
        mr.spec_merge(now).spec_close() == mr.spec_merge(now),
{
}

/// The status only ever moves from open to closed or merged, and the
/// merge date is set exactly at the move to merged: both transitions keep
/// a request well formed, and a date once set is never changed.
pub proof fn lemma_transitions_keep_wf(mr: MergeRequest, now: Timestamp)
    requires
        mr.wf(),
    ensures
        mr.spec_close().wf(),
        mr.spec_merge(now).wf(),
        mr.merge_date.is_some() ==> mr.spec_close().merge_date == mr.merge_date
            && mr.spec_merge(now).merge_date == mr.merge_date,
        mr.spec_close().status == mr.status || mr.status == MergeStatus::Open,
        mr.spec_merge(now).status == mr.status || mr.status == MergeStatus::Open,
{
}

} // verus!
