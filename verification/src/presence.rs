//! Who is present in a workspace.
//!
//! Presence is an expiring lease. That there is none, or that it has expired,
//! means no presence; it is never an event.

use crate::error::WorkspaceError;
use crate::model::{
    find, lemma_filter_pairwise, lemma_position, lemma_views_push, lemma_views_update, pairwise,
    position, select, views,
};
use crate::store::{lease_is, leases_ok, StoreState, WorkspaceTables};
use crate::time::Timestamp;
use crate::workspace::{PresenceLease, Uuid};
use vstd::prelude::*;

verus! {

/// Selects the leases that still run.
pub open spec fn running(now: Timestamp) -> spec_fn(PresenceLease) -> bool {
    |row: PresenceLease| now.earlier_than(row.expires_at)
}

/// Selects the leases on a workspace.
pub open spec fn leased_in(workspace_id: Uuid) -> spec_fn(PresenceLease) -> bool {
    |row: PresenceLease| row.workspace_id == workspace_id
}

/// The leases once a client has renewed its own.
pub open spec fn with_lease(rows: Seq<PresenceLease>, lease: PresenceLease) -> Seq<PresenceLease> {
    match position(rows, lease_is(lease.workspace_id, lease.participant_id, lease.client_id)) {
        Some(index) => rows.update(index, lease),
        None => rows.push(lease),
    }
}

/// Why a lease is refused, if it is.
pub open spec fn lease_refusal(
    state: StoreState,
    lease: PresenceLease,
    now: Timestamp,
) -> Option<WorkspaceError> {
    if !now.earlier_than(lease.expires_at) {
        Some(WorkspaceError::LeaseExpired)
    } else if !state.has_member(lease.workspace_id, lease.participant_id) {
        Some(WorkspaceError::PresenceNotMember)
    } else {
        None
    }
}

impl WorkspaceTables {
    /// Takes or renews a client's lease at a given time.
    pub fn acquire_presence_lease(&mut self, lease: PresenceLease, now: Timestamp) -> (res: Result<
        (),
        WorkspaceError,
    >)
        requires
            old(self)@.wf(),
        ensures
            match lease_refusal(old(self)@, lease, now) {
                Some(error) => res == Err::<(), WorkspaceError>(error) && final(self)@ == old(self)@,
                None => res == Ok::<(), WorkspaceError>(()) && final(self)@ == (StoreState {
                    leases: with_lease(old(self)@.leases, lease),
                    ..old(self)@
                }),
            },
            final(self)@.wf(),
    {
        if !now.before(&lease.expires_at) {
            return Err(WorkspaceError::LeaseExpired);
        }
        if !self.is_member(lease.workspace_id, lease.participant_id) {
            return Err(WorkspaceError::PresenceNotMember);
        }
        let ghost selected = lease_is(lease.workspace_id, lease.participant_id, lease.client_id);
        proof {
            let rows = self@.leases;
            let after = with_lease(rows, lease);
            lemma_position(rows, selected);
            assert forall|i: int, j: int| 0 <= i < j < after.len() implies !((
            #[trigger] after[i]).workspace_id == (#[trigger] after[j]).workspace_id
                && after[i].participant_id == after[j].participant_id && after[i].client_id
                == after[j].client_id) by {
                match position(rows, selected) {
                    Some(index) => {
                        assert(selected(rows[index]));
                        assert(!(rows[i].workspace_id == rows[j].workspace_id
                            && rows[i].participant_id == rows[j].participant_id
                            && rows[i].client_id == rows[j].client_id));
                    },
                    None => {
                        assert(after[i] == rows[i]);
                        if j < rows.len() {
                            assert(after[j] == rows[j]);
                        } else {
                            assert(!selected(rows[i]));
                        }
                    },
                }
            }
            assert(leases_ok(after));
        }
        let test = |row: &PresenceLease| -> (answer: bool)
            ensures
                answer == lease_is(lease.workspace_id, lease.participant_id, lease.client_id)(row@),
        {
            row.workspace_id == lease.workspace_id && row.participant_id == lease.participant_id
                && row.client_id == lease.client_id
        };
        match find(
            &self.leases,
            test,
            Ghost(lease_is(lease.workspace_id, lease.participant_id, lease.client_id)),
        ) {
            Some(index) => {
                proof {
                    lemma_views_update(self.leases@, index as int, lease);
                }
                self.leases.set(index, lease);
            },
            None => {
                proof {
                    lemma_views_push(self.leases@, lease);
                }
                self.leases.push(lease);
            },
        }
        Ok(())
    }

    /// The leases on a workspace that still run at a given time. Leases that
    /// have run out, on any workspace, are swept.
    pub fn active_presence(&mut self, workspace_id: Uuid, now: Timestamp) -> (res: Vec<
        PresenceLease,
    >)
        requires
            old(self)@.wf(),
        ensures
            final(self)@ == (StoreState {
                leases: old(self)@.leases.filter(running(now)),
                ..old(self)@
            }),
            res@ == old(self)@.leases.filter(running(now)).filter(leased_in(workspace_id)),
            final(self)@.wf(),
    {
        let ghost before = self@;
        let runs = |row: &PresenceLease| -> (answer: bool)
            ensures
                answer == running(now)(row@),
        { now.before(&row.expires_at) };
        let kept = select(&self.leases, self.leases.len(), runs, Ghost(running(now)));
        proof {
            before.leases.lemma_filter_len(running(now));
            let distinct = |a: PresenceLease, b: PresenceLease|
                !(a.workspace_id == b.workspace_id && a.participant_id == b.participant_id
                    && a.client_id == b.client_id);
            assert(pairwise(before.leases, distinct));
            lemma_filter_pairwise(before.leases, running(now), distinct);
            let after = before.leases.filter(running(now));
            assert forall|i: int, j: int| 0 <= i < j < after.len() implies !((
            #[trigger] after[i]).workspace_id == (#[trigger] after[j]).workspace_id
                && after[i].participant_id == after[j].participant_id && after[i].client_id
                == after[j].client_id) by {
                assert(distinct(after[i], after[j]));
            }
        }
        self.leases = kept;
        let here = |row: &PresenceLease| -> (answer: bool)
            ensures
                answer == leased_in(workspace_id)(row@),
        { row.workspace_id == workspace_id };
        let res = select(&self.leases, self.leases.len(), here, Ghost(leased_in(workspace_id)));
        proof {
            self@.leases.lemma_filter_len(leased_in(workspace_id));
            assert(views(res@) =~= res@);
        }
        res
    }
}

} // verus!
