//! Whether rows that were read from a journal are fit to work on.

use crate::model::{all_items, all_pairs, find, lemma_filter_prefix, lemma_filter_step, pairwise};
use crate::store::{
    all_numbered, claims_ok, deliveries_ok, delivery_ok, dependencies_ok, event_at, event_in,
    events_ok, instances_ok, is_message, leases_ok, members_ok, next_sequence, numbered,
    participants_ok, threads_ok, work_items_ok,
    workspaces_ok, DeliveryRow, DeliveryRowView, InstanceRow, InstanceRowView, WorkClaim, WorkEdge,
    WorkItem, WorkspaceRow, WorkspaceRowView, WorkspaceTables, MAX_COLUMN,
};
use crate::workspace::{
    Participant, ParticipantView, PresenceLease, Thread, ThreadView, Uuid, WorkspaceEvent,
    WorkspaceEventKind, WorkspaceEventView, WorkspaceMembership,
};
use vstd::prelude::*;

verus! {

impl WorkspaceTables {
    /// Whether the participants are told apart.
    fn check_participants(&self) -> (res: bool)
        ensures
            res == (participants_ok(self@.participants) && threads_ok(self@.threads)),
    {
        let ghost people = |a: ParticipantView, b: ParticipantView| a.id != b.id;
        let ghost talks = |a: ThreadView, b: ThreadView| a.id != b.id;
        assert(pairwise(self@.participants, people) == participants_ok(self@.participants));
        assert(pairwise(self@.threads, talks) == threads_ok(self@.threads));
        let people_differ = |a: &Participant, b: &Participant| -> (answer: bool)
            ensures
                answer == (a@.id != b@.id),
        { a.id != b.id };
        let talks_differ = |a: &Thread, b: &Thread| -> (answer: bool)
            ensures
                answer == (a@.id != b@.id),
        { a.id != b.id };
        all_pairs(&self.participants, people_differ, Ghost(people)) && all_pairs(
            &self.threads,
            talks_differ,
            Ghost(talks),
        )
    }

    /// Whether the workspaces are told apart and count within their columns.
    fn check_workspaces(&self) -> (res: bool)
        ensures
            res == workspaces_ok(self@.workspaces),
    {
        let ghost apart = |a: WorkspaceRowView, b: WorkspaceRowView|
            a.workspace.id != b.workspace.id;
        let ghost counts = |a: WorkspaceRowView| 1 <= a.next_sequence <= MAX_COLUMN;
        let differ = |a: &WorkspaceRow, b: &WorkspaceRow| -> (answer: bool)
            ensures
                answer == (a@.workspace.id != b@.workspace.id),
        { a.workspace.id != b.workspace.id };
        let fits = |a: &WorkspaceRow| -> (answer: bool)
            ensures
                answer == (1 <= a@.next_sequence <= MAX_COLUMN),
        { 1 <= a.next_sequence && a.next_sequence <= MAX_COLUMN };
        let res = all_pairs(&self.workspaces, differ, Ghost(apart)) && all_items(
            &self.workspaces,
            fits,
            Ghost(counts),
        );
        proof {
            let rows = self@.workspaces;
            if workspaces_ok(rows) {
                assert(pairwise(rows, apart));
                assert forall|i: int| 0 <= i < rows.len() implies counts(#[trigger] rows[i]) by {}
            }
            if res {
                assert forall|i: int, j: int| 0 <= i < j < rows.len() implies (
                #[trigger] rows[i]).workspace.id != (#[trigger] rows[j]).workspace.id by {
                    assert(apart(rows[i], rows[j]));
                }
                assert forall|i: int| 0 <= i < rows.len() implies 1 <= (
                #[trigger] rows[i]).next_sequence <= MAX_COLUMN by {
                    assert(counts(rows[i]));
                }
            }
        }
        res
    }

    /// Whether memberships, leases and instances are told apart.
    fn check_people(&self) -> (res: bool)
        ensures
            res == (members_ok(self@.members) && leases_ok(self@.leases) && instances_ok(
                self@.instances,
            )),
    {
        let ghost members = |a: WorkspaceMembership, b: WorkspaceMembership|
            !(a.workspace_id == b.workspace_id && a.participant_id == b.participant_id);
        let ghost leases = |a: PresenceLease, b: PresenceLease|
            !(a.workspace_id == b.workspace_id && a.participant_id == b.participant_id
                && a.client_id == b.client_id);
        let ghost instances = |a: InstanceRowView, b: InstanceRowView|
            a.participant_id != b.participant_id;
        assert(pairwise(self@.members, members) == members_ok(self@.members));
        assert(pairwise(self@.leases, leases) == leases_ok(self@.leases));
        assert(pairwise(self@.instances, instances) == instances_ok(self@.instances));
        let members_differ = |a: &WorkspaceMembership, b: &WorkspaceMembership| -> (answer: bool)
            ensures
                answer == !(a@.workspace_id == b@.workspace_id && a@.participant_id
                    == b@.participant_id),
        { !(a.workspace_id == b.workspace_id && a.participant_id == b.participant_id) };
        let leases_differ = |a: &PresenceLease, b: &PresenceLease| -> (answer: bool)
            ensures
                answer == !(a@.workspace_id == b@.workspace_id && a@.participant_id
                    == b@.participant_id && a@.client_id == b@.client_id),
        {
            !(a.workspace_id == b.workspace_id && a.participant_id == b.participant_id
                && a.client_id == b.client_id)
        };
        let instances_differ = |a: &InstanceRow, b: &InstanceRow| -> (answer: bool)
            ensures
                answer == (a@.participant_id != b@.participant_id),
        { a.participant_id != b.participant_id };
        all_pairs(&self.members, members_differ, Ghost(members)) && all_pairs(
            &self.leases,
            leases_differ,
            Ghost(leases),
        ) && all_pairs(&self.instances, instances_differ, Ghost(instances))
    }

    /// Whether work, claims and dependencies are told apart.
    fn check_work(&self) -> (res: bool)
        ensures
            res == (work_items_ok(self@.work_items) && claims_ok(self@.claims) && dependencies_ok(
                self@.dependencies,
            )),
    {
        let ghost items = |a: WorkItem, b: WorkItem|
            !(a.workspace_id == b.workspace_id && a.work_id == b.work_id);
        let ghost claims = |a: WorkClaim, b: WorkClaim|
            !(a.workspace_id == b.workspace_id && a.work_id == b.work_id);
        let ghost edges = |a: WorkEdge, b: WorkEdge|
            !(a.workspace_id == b.workspace_id && a.work_id == b.work_id && a.depends_on_work_id
                == b.depends_on_work_id);
        assert(pairwise(self@.work_items, items) == work_items_ok(self@.work_items));
        assert(pairwise(self@.claims, claims) == claims_ok(self@.claims));
        assert(pairwise(self@.dependencies, edges) == dependencies_ok(self@.dependencies));
        let items_differ = |a: &WorkItem, b: &WorkItem| -> (answer: bool)
            ensures
                answer == !(a@.workspace_id == b@.workspace_id && a@.work_id == b@.work_id),
        { !(a.workspace_id == b.workspace_id && a.work_id == b.work_id) };
        let claims_differ = |a: &WorkClaim, b: &WorkClaim| -> (answer: bool)
            ensures
                answer == !(a@.workspace_id == b@.workspace_id && a@.work_id == b@.work_id),
        { !(a.workspace_id == b.workspace_id && a.work_id == b.work_id) };
        let edges_differ = |a: &WorkEdge, b: &WorkEdge| -> (answer: bool)
            ensures
                answer == !(a@.workspace_id == b@.workspace_id && a@.work_id == b@.work_id
                    && a@.depends_on_work_id == b@.depends_on_work_id),
        {
            !(a.workspace_id == b.workspace_id && a.work_id == b.work_id && a.depends_on_work_id
                == b.depends_on_work_id)
        };
        all_pairs(&self.work_items, items_differ, Ghost(items)) && all_pairs(
            &self.claims,
            claims_differ,
            Ghost(claims),
        ) && all_pairs(&self.dependencies, edges_differ, Ghost(edges))
    }

    /// Whether the events of a workspace are sequenced without a gap.
    fn check_numbers(&self, row: &WorkspaceRow) -> (res: bool)
        ensures
            res == numbered(
                self@.events.filter(event_in(row.workspace.id)),
                row.next_sequence,
            ),
    {
        let workspace_id: Uuid = row.workspace.id;
        let ghost rows = self@.events;
        let ghost here = event_in(workspace_id);
        let mut next: u64 = 1;
        let mut index: usize = 0;
        proof {
            reveal(Seq::filter);
            assert(rows.take(0) =~= Seq::<WorkspaceEventView>::empty());
        }
        while index < self.events.len()
            invariant
                index <= self.events.len(),
                rows == self@.events,
                here == event_in(workspace_id),
                workspace_id == row.workspace.id,
                1 <= next,
                next <= row.next_sequence || next == 1,
                numbered(rows.take(index as int).filter(here), next),
            decreases self.events.len() - index,
        {
            proof {
                lemma_filter_step(rows, index as int, here);
                lemma_filter_prefix(rows, index + 1, here);
                assert(rows[index as int] == self.events@[index as int]@);
            }
            if self.events[index].workspace_id == workspace_id {
                let ghost kept = rows.take(index as int).filter(here);
                let ghost more = rows.take(index + 1).filter(here);
                assert(more[kept.len() as int] == rows[index as int]);
                if self.events[index].sequence != next || next >= row.next_sequence {
                    proof {
                        let all = rows.filter(here);
                        assert(all[kept.len() as int] == rows[index as int]);
                    }
                    return false;
                }
                next = next + 1;
            }
            index = index + 1;
        }
        assert(rows.take(index as int) =~= rows);
        next == row.next_sequence
    }

    /// Whether the events are told apart, in order, and counted.
    fn check_events(&self) -> (res: bool)
        ensures
            res == events_ok(self@.events, self@.workspaces),
    {
        let ghost counted = |a: WorkspaceEventView|
            1 <= a.sequence && next_sequence(self@.workspaces, a.workspace_id) is Some && a.sequence
                < next_sequence(self@.workspaces, a.workspace_id)->Some_0;
        let ghost ordered = |a: WorkspaceEventView, b: WorkspaceEventView|
            (a.workspace_id == b.workspace_id ==> a.sequence < b.sequence) && !(a.workspace_id
                == b.workspace_id && a.author_id == b.author_id && a.idempotency_key
                == b.idempotency_key);
        let is_counted = |a: &WorkspaceEvent| -> (answer: bool)
            ensures
                answer == counted(a@),
        {
            1 <= a.sequence && match self.workspace_row(a.workspace_id) {
                Some(index) => {
                    assert(self@.workspaces[index as int] == self.workspaces@[index as int]@);
                    a.sequence < self.workspaces[index].next_sequence
                },
                None => false,
            }
        };
        let are_ordered = |a: &WorkspaceEvent, b: &WorkspaceEvent| -> (answer: bool)
            ensures
                answer == ordered(a@, b@),
        {
            a.workspace_id != b.workspace_id || (a.sequence < b.sequence && !(a.author_id
                == b.author_id && a.idempotency_key == b.idempotency_key))
        };
        let ghost gapless = |a: WorkspaceRowView|
            numbered(self@.events.filter(event_in(a.workspace.id)), a.next_sequence);
        let is_gapless = |a: &WorkspaceRow| -> (answer: bool)
            ensures
                answer == gapless(a@),
        { self.check_numbers(a) };
        let res = all_items(&self.events, is_counted, Ghost(counted)) && all_pairs(
            &self.events,
            are_ordered,
            Ghost(ordered),
        ) && all_items(&self.workspaces, is_gapless, Ghost(gapless));
        proof {
            let rows = self@.events;
            let spaces = self@.workspaces;
            if events_ok(rows, self@.workspaces) {
                assert(pairwise(rows, ordered));
                assert forall|i: int| 0 <= i < rows.len() implies counted(#[trigger] rows[i]) by {}
                assert forall|i: int| 0 <= i < spaces.len() implies gapless(
                    #[trigger] spaces[i],
                ) by {}
            }
            if res {
                assert forall|i: int| 0 <= i < spaces.len() implies numbered(
                    rows.filter(event_in((#[trigger] spaces[i]).workspace.id)),
                    spaces[i].next_sequence,
                ) by {
                    assert(gapless(spaces[i]));
                }
                assert(all_numbered(rows, spaces));
                assert forall|i: int| 0 <= i < rows.len() implies 1 <= (
                #[trigger] rows[i]).sequence && next_sequence(
                    self@.workspaces,
                    rows[i].workspace_id,
                ) is Some && rows[i].sequence < next_sequence(
                    self@.workspaces,
                    rows[i].workspace_id,
                )->Some_0 by {
                    assert(counted(rows[i]));
                }
                assert forall|i: int, j: int|
                    0 <= i < j < rows.len() && (#[trigger] rows[i]).workspace_id == (
                    #[trigger] rows[j]).workspace_id implies rows[i].sequence
                    < rows[j].sequence by {
                    assert(ordered(rows[i], rows[j]));
                }
                assert forall|i: int, j: int| 0 <= i < j < rows.len() implies !((
                #[trigger] rows[i]).workspace_id == (#[trigger] rows[j]).workspace_id
                    && rows[i].author_id == rows[j].author_id && rows[i].idempotency_key
                    == rows[j].idempotency_key) by {
                    assert(ordered(rows[i], rows[j]));
                }
            }
        }
        res
    }

    /// Whether a delivery belongs to an event and does not go to its author.
    fn check_delivery(&self, row: &DeliveryRow) -> (res: bool)
        ensures
            res == delivery_ok(row@, self@.events),
    {
        let workspace_id: Uuid = row.delivery.workspace_id;
        let sequence: u64 = row.delivery.sequence;
        let test = |event: &WorkspaceEvent| -> (answer: bool)
            ensures
                answer == event_at(workspace_id, sequence)(event@),
        { event.workspace_id == workspace_id && event.sequence == sequence };
        match find(&self.events, test, Ghost(event_at(workspace_id, sequence))) {
            None => false,
            Some(index) => {
                assert(self@.events[index as int] == self.events@[index as int]@);
                let event = &self.events[index];
                let message = match &event.kind {
                    WorkspaceEventKind::Message { .. } => true,
                    _ => false,
                };
                event.author_id != row.delivery.recipient_id && row.is_message == message
            },
        }
    }

    /// Whether the deliveries are told apart, in order, and belong to events.
    fn check_deliveries(&self) -> (res: bool)
        ensures
            res == deliveries_ok(self@.deliveries, self@.events),
    {
        let ghost sound = |a: DeliveryRowView| delivery_ok(a, self@.events);
        let ghost ordered = |a: DeliveryRowView, b: DeliveryRowView|
            a.delivery.workspace_id == b.delivery.workspace_id ==> a.delivery.sequence
                <= b.delivery.sequence && !(a.delivery.sequence == b.delivery.sequence
                && a.delivery.recipient_id == b.delivery.recipient_id);
        let is_sound = |a: &DeliveryRow| -> (answer: bool)
            ensures
                answer == sound(a@),
        { self.check_delivery(a) };
        let are_ordered = |a: &DeliveryRow, b: &DeliveryRow| -> (answer: bool)
            ensures
                answer == ordered(a@, b@),
        {
            a.delivery.workspace_id != b.delivery.workspace_id || (a.delivery.sequence
                <= b.delivery.sequence && !(a.delivery.sequence == b.delivery.sequence
                && a.delivery.recipient_id == b.delivery.recipient_id))
        };
        let res = all_items(&self.deliveries, is_sound, Ghost(sound)) && all_pairs(
            &self.deliveries,
            are_ordered,
            Ghost(ordered),
        );
        proof {
            let rows = self@.deliveries;
            if deliveries_ok(rows, self@.events) {
                assert(pairwise(rows, ordered));
                assert forall|i: int| 0 <= i < rows.len() implies sound(#[trigger] rows[i]) by {}
            }
            if res {
                assert forall|i: int| 0 <= i < rows.len() implies delivery_ok(
                    #[trigger] rows[i],
                    self@.events,
                ) by {
                    assert(sound(rows[i]));
                }
                assert forall|i: int, j: int|
                    0 <= i < j < rows.len() && (#[trigger] rows[i]).delivery.workspace_id == (
                    #[trigger] rows[j]).delivery.workspace_id implies rows[i].delivery.sequence
                    <= rows[j].delivery.sequence by {
                    assert(ordered(rows[i], rows[j]));
                }
                assert forall|i: int, j: int| 0 <= i < j < rows.len() implies !((
                #[trigger] rows[i]).delivery.workspace_id == (
                #[trigger] rows[j]).delivery.workspace_id && rows[i].delivery.sequence
                    == rows[j].delivery.sequence && rows[i].delivery.recipient_id
                    == rows[j].delivery.recipient_id) by {
                    assert(ordered(rows[i], rows[j]));
                }
            }
        }
        res
    }

    /// Whether the rows satisfy the invariant that every operation asks for.
    pub fn is_consistent(&self) -> (res: bool)
        ensures
            res == self@.wf(),
    {
        self.check_participants() && self.check_workspaces() && self.check_people()
            && self.check_work() && self.check_events() && self.check_deliveries()
    }
}

} // verus!
