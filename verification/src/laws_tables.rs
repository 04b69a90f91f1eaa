//! What holds of consistent tables, said row by row.

use crate::model::{lemma_position, position};
use crate::store::{event_at, workspace_is, StoreState};
use crate::time::Timestamp;
use vstd::prelude::*;

verus! {

/// Of two instants one is before the other, or they are the same; what is before one
/// that is before a third is before the third; and an earlier second is before a later
/// one, whatever their nanoseconds.
pub proof fn law_instants_are_ordered(first: Timestamp, second: Timestamp, third: Timestamp)
    ensures
        first.earlier_than(second) || second.earlier_than(first) <==> first != second,
        first.earlier_than(second) ==> !second.earlier_than(first),
        first.earlier_than(second) && second.earlier_than(third) ==> first.earlier_than(third),
        first.secs < second.secs ==> first.earlier_than(second),
        first.secs == second.secs && first.nanos < second.nanos ==> first.earlier_than(second),
{
}

/// In consistent tables no two rows stand for one participant, workspace, membership
/// or thread.
pub proof fn law_people_and_places_are_kept_once(state: StoreState, i: int, j: int)
    requires
        state.wf(),
        0 <= i < j,
    ensures
        j < state.participants.len() ==> state.participants[i].id != state.participants[j].id,
        j < state.workspaces.len() ==> state.workspaces[i].workspace.id
            != state.workspaces[j].workspace.id,
        j < state.members.len() ==> state.members[i].workspace_id != state.members[j].workspace_id
            || state.members[i].participant_id != state.members[j].participant_id,
        j < state.threads.len() ==> state.threads[i].id != state.threads[j].id,
{
}

/// In consistent tables work is kept once and has one claim at most, a dependency is
/// kept once, a client holds one lease on a workspace, and an agent has one process.
pub proof fn law_work_and_presence_are_kept_once(state: StoreState, i: int, j: int)
    requires
        state.wf(),
        0 <= i < j,
    ensures
        j < state.work_items.len() ==> state.work_items[i].workspace_id
            != state.work_items[j].workspace_id || state.work_items[i].work_id
            != state.work_items[j].work_id,
        j < state.claims.len() ==> state.claims[i].workspace_id != state.claims[j].workspace_id
            || state.claims[i].work_id != state.claims[j].work_id,
        j < state.dependencies.len() ==> state.dependencies[i].workspace_id
            != state.dependencies[j].workspace_id || state.dependencies[i].work_id
            != state.dependencies[j].work_id || state.dependencies[i].depends_on_work_id
            != state.dependencies[j].depends_on_work_id,
        j < state.leases.len() ==> state.leases[i].workspace_id != state.leases[j].workspace_id
            || state.leases[i].participant_id != state.leases[j].participant_id
            || state.leases[i].client_id != state.leases[j].client_id,
        j < state.instances.len() ==> state.instances[i].participant_id
            != state.instances[j].participant_id,
{
}

/// In consistent tables the events of a workspace come in the order of their
/// sequences, and a key of an author stands for one of them.
pub proof fn law_events_are_kept_in_order(state: StoreState, i: int, j: int)
    requires
        state.wf(),
        0 <= i < j < state.events.len(),
        state.events[i].workspace_id == state.events[j].workspace_id,
    ensures
        1 <= state.events[i].sequence < state.events[j].sequence,
        state.events[i].author_id != state.events[j].author_id || state.events[i].idempotency_key
            != state.events[j].idempotency_key,
{
}

/// In consistent tables every event is one of a workspace that is there, under a
/// sequence that was handed out.
pub proof fn law_events_belong_to_workspaces(state: StoreState, i: int)
    requires
        state.wf(),
        0 <= i < state.events.len(),
    ensures
        exists|k: int|
            0 <= k < state.workspaces.len() && (#[trigger] state.workspaces[k]).workspace.id
                == state.events[i].workspace_id && state.events[i].sequence
                < state.workspaces[k].next_sequence && state.workspaces[k].next_sequence
                <= i64::MAX,
{
    lemma_position(state.workspaces, workspace_is(state.events[i].workspace_id));
    assert(1 <= state.events[i].sequence);
    let index = position(state.workspaces, workspace_is(state.events[i].workspace_id))->Some_0;
    assert(state.workspaces[index].workspace.id == state.events[i].workspace_id);
}

/// In consistent tables every delivery is one of an event that is there, to somebody
/// else than its author, and counts as a message exactly where the event is one. Nobody
/// is delivered an event twice, and deliveries come in the order of their events.
pub proof fn law_deliveries_are_kept_in_order(state: StoreState, i: int, j: int)
    requires
        state.wf(),
        0 <= i < state.deliveries.len(),
    ensures
        exists|k: int|
            0 <= k < state.events.len() && (#[trigger] state.events[k]).workspace_id
                == state.deliveries[i].delivery.workspace_id && state.events[k].sequence
                == state.deliveries[i].delivery.sequence && state.events[k].author_id
                != state.deliveries[i].delivery.recipient_id && (state.events[k].kind is Message
                <==> state.deliveries[i].is_message),
        i < j < state.deliveries.len() && state.deliveries[i].delivery.workspace_id
            == state.deliveries[j].delivery.workspace_id ==> {
            ||| state.deliveries[i].delivery.sequence < state.deliveries[j].delivery.sequence
            ||| state.deliveries[i].delivery.sequence == state.deliveries[j].delivery.sequence
                && state.deliveries[i].delivery.recipient_id
                != state.deliveries[j].delivery.recipient_id
        },
{
    let row = state.deliveries[i];
    let selected = event_at(row.delivery.workspace_id, row.delivery.sequence);
    lemma_position(state.events, selected);
    let k = position(state.events, selected)->Some_0;
    assert(selected(state.events[k]));
}

/// Tables without rows are consistent.
pub proof fn law_empty_tables_are_consistent(state: StoreState)
    requires
        state.participants.len() == 0,
        state.workspaces.len() == 0,
        state.members.len() == 0,
        state.threads.len() == 0,
        state.events.len() == 0,
        state.deliveries.len() == 0,
        state.work_items.len() == 0,
        state.claims.len() == 0,
        state.dependencies.len() == 0,
        state.leases.len() == 0,
        state.instances.len() == 0,
    ensures
        state.wf(),
{
}

} // verus!
