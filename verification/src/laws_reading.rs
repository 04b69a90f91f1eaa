//! What is read of a journal, told row by row.

use crate::delivery::{
    delivered_after, deliveries_in, delivery_under, event_behind, event_is, message_event,
    message_event_in, pending_for, sequence_of, visible_after,
};
use crate::facts::{lemma_found, lemma_sent, was_sent};
use crate::model::{
    first_items, lemma_filter_contains, lemma_listed, lemma_listed_in_order, lemma_position,
    pairwise, position, some_item,
};
use crate::store::{delivery_ok, event_at, DeliveryRowView, StoreState};
use crate::workspace::{DeliveryState, RecipientDeliveryView, Uuid, WorkspaceEventView};
use vstd::prelude::*;

verus! {

/// What a recipient is told of their deliveries after a sequence: rows of the table
/// that are theirs and of a greater sequence, oldest first and no more than the
/// limit; and a row that is theirs and of a greater sequence is left out only where
/// the limit was reached with older ones.
pub proof fn law_deliveries_are_read_after_the_cursor(
    state: StoreState,
    workspace_id: Uuid,
    recipient_id: Uuid,
    after_sequence: u64,
    limit: nat,
    rows: Seq<RecipientDeliveryView>,
)
    requires
        rows == deliveries_in(
            first_items(
                state.deliveries.filter(
                    delivered_after(workspace_id, recipient_id, after_sequence),
                ),
                limit,
            ),
        ),
    ensures
        rows.len() <= limit,
        forall|k: int|
            0 <= k < rows.len() ==> {
                &&& (#[trigger] rows[k]).workspace_id == workspace_id
                &&& rows[k].recipient_id == recipient_id
                &&& rows[k].sequence > after_sequence
                &&& exists|i: int|
                    0 <= i < state.deliveries.len() && (#[trigger] state.deliveries[i]).delivery
                        == rows[k]
            },
        forall|i: int|
            0 <= i < state.deliveries.len() && (
            #[trigger] state.deliveries[i]).delivery.workspace_id == workspace_id
                && state.deliveries[i].delivery.recipient_id == recipient_id
                && state.deliveries[i].delivery.sequence > after_sequence ==> rows.contains(
                state.deliveries[i].delivery,
            ) || rows.len() == limit,
        state.wf() ==> (forall|k: int, l: int|
            0 <= k < l < rows.len() ==> (#[trigger] rows[k]).sequence < (
            #[trigger] rows[l]).sequence),
        state.wf() ==> (forall|i: int, k: int|
            0 <= k < rows.len() && 0 <= i < state.deliveries.len() && (
            #[trigger] state.deliveries[i]).delivery.workspace_id == workspace_id
                && state.deliveries[i].delivery.recipient_id == recipient_id
                && state.deliveries[i].delivery.sequence > after_sequence && !rows.contains(
                state.deliveries[i].delivery,
            ) ==> (#[trigger] rows[k]).sequence < state.deliveries[i].delivery.sequence),
{
    let selected = delivered_after(workspace_id, recipient_id, after_sequence);
    let found = first_items(state.deliveries.filter(selected), limit);
    lemma_listed(state.deliveries, selected, limit);
    assert forall|k: int| 0 <= k < rows.len() implies {
        &&& (#[trigger] rows[k]).workspace_id == workspace_id
        &&& rows[k].recipient_id == recipient_id
        &&& rows[k].sequence > after_sequence
        &&& exists|i: int|
            0 <= i < state.deliveries.len() && (#[trigger] state.deliveries[i]).delivery == rows[k]
    } by {
        assert(rows[k] == found[k].delivery);
        assert(state.deliveries.contains(found[k]));
        let i = choose|i: int| 0 <= i < state.deliveries.len() && state.deliveries[i] == found[k];
        assert(state.deliveries[i].delivery == rows[k]);
    }
    assert forall|i: int|
        0 <= i < state.deliveries.len() && (#[trigger] state.deliveries[i]).delivery.workspace_id
            == workspace_id && state.deliveries[i].delivery.recipient_id == recipient_id
            && state.deliveries[i].delivery.sequence > after_sequence implies rows.contains(
        state.deliveries[i].delivery,
    ) || rows.len() == limit by {
        let row = state.deliveries[i];
        assert(state.deliveries.contains(row));
        assert(selected(row));
        if rows.len() < limit {
            assert(found.contains(row));
            let k = choose|k: int| 0 <= k < found.len() && found[k] == row;
            assert(rows[k] == row.delivery);
        }
    }
    if state.wf() {
        let ordered = |a: DeliveryRowView, b: DeliveryRowView|
            a.delivery.workspace_id == b.delivery.workspace_id && a.delivery.recipient_id
                == b.delivery.recipient_id ==> a.delivery.sequence < b.delivery.sequence;
        assert(pairwise(state.deliveries, ordered));
        lemma_listed_in_order(state.deliveries, selected, limit, ordered);
        assert forall|k: int, l: int| 0 <= k < l < rows.len() implies (#[trigger] rows[k]).sequence
            < (#[trigger] rows[l]).sequence by {
            assert(ordered(found[k], found[l]));
        }
        assert forall|i: int, k: int|
            0 <= k < rows.len() && 0 <= i < state.deliveries.len() && (
            #[trigger] state.deliveries[i]).delivery.workspace_id == workspace_id
                && state.deliveries[i].delivery.recipient_id == recipient_id
                && state.deliveries[i].delivery.sequence > after_sequence && !rows.contains(
                state.deliveries[i].delivery,
            ) implies (#[trigger] rows[k]).sequence < state.deliveries[i].delivery.sequence by {
            let row = state.deliveries[i];
            assert(state.deliveries.contains(row));
            if found.contains(row) {
                let l = choose|l: int| 0 <= l < found.len() && found[l] == row;
                assert(rows[l] == row.delivery);
            }
            assert(ordered(found[k], row));
        }
    }
}

/// What a viewer reads of a workspace after a sequence: events of it with a greater
/// sequence that the viewer wrote or was sent, oldest first and no more than the
/// limit; and such an event is left out only where the limit was reached with older
/// ones.
pub proof fn law_replays_show_what_a_viewer_may_see(
    state: StoreState,
    workspace_id: Uuid,
    viewer_id: Uuid,
    after_sequence: u64,
    limit: nat,
    rows: Seq<WorkspaceEventView>,
)
    requires
        rows == first_items(
            state.events.filter(
                visible_after(state.deliveries, workspace_id, viewer_id, after_sequence),
            ),
            limit,
        ),
    ensures
        rows.len() <= limit,
        forall|k: int|
            0 <= k < rows.len() ==> {
                &&& (#[trigger] rows[k]).workspace_id == workspace_id
                &&& rows[k].sequence > after_sequence
                &&& rows[k].author_id == viewer_id || was_sent(
                    state,
                    workspace_id,
                    rows[k].sequence,
                    viewer_id,
                )
                &&& state.events.contains(rows[k])
            },
        forall|i: int|
            0 <= i < state.events.len() && (#[trigger] state.events[i]).workspace_id == workspace_id
                && state.events[i].sequence > after_sequence && (state.events[i].author_id
                == viewer_id || was_sent(state, workspace_id, state.events[i].sequence, viewer_id))
                ==> rows.contains(state.events[i]) || rows.len() == limit,
        state.wf() ==> (forall|k: int, l: int|
            0 <= k < l < rows.len() ==> (#[trigger] rows[k]).sequence < (
            #[trigger] rows[l]).sequence),
        state.wf() ==> (forall|i: int, k: int|
            0 <= k < rows.len() && 0 <= i < state.events.len() && (
            #[trigger] state.events[i]).workspace_id == workspace_id && state.events[i].sequence
                > after_sequence && (state.events[i].author_id == viewer_id || was_sent(
                state,
                workspace_id,
                state.events[i].sequence,
                viewer_id,
            )) && !rows.contains(state.events[i]) ==> (#[trigger] rows[k]).sequence
                < state.events[i].sequence),
{
    let selected = visible_after(state.deliveries, workspace_id, viewer_id, after_sequence);
    lemma_listed(state.events, selected, limit);
    assert forall|event: WorkspaceEventView| #[trigger] selected(event) <==> {
        &&& event.workspace_id == workspace_id
        &&& event.sequence > after_sequence
        &&& event.author_id == viewer_id || was_sent(state, workspace_id, event.sequence, viewer_id)
    } by {
        lemma_sent(state, workspace_id, event.sequence, viewer_id);
    }
    assert forall|k: int| 0 <= k < rows.len() implies {
        &&& (#[trigger] rows[k]).workspace_id == workspace_id
        &&& rows[k].sequence > after_sequence
        &&& rows[k].author_id == viewer_id || was_sent(
            state,
            workspace_id,
            rows[k].sequence,
            viewer_id,
        )
        &&& state.events.contains(rows[k])
    } by {
        assert(selected(rows[k]));
    }
    assert forall|i: int|
        0 <= i < state.events.len() && (#[trigger] state.events[i]).workspace_id == workspace_id
            && state.events[i].sequence > after_sequence && (state.events[i].author_id == viewer_id
            || was_sent(state, workspace_id, state.events[i].sequence, viewer_id)) implies rows.contains(
        state.events[i],
    ) || rows.len() == limit by {
        assert(state.events.contains(state.events[i]));
        assert(selected(state.events[i]));
    }
    if state.wf() {
        let ordered = |a: WorkspaceEventView, b: WorkspaceEventView|
            a.workspace_id == b.workspace_id ==> a.sequence < b.sequence;
        assert(pairwise(state.events, ordered));
        lemma_listed_in_order(state.events, selected, limit, ordered);
        assert forall|k: int, l: int| 0 <= k < l < rows.len() implies (#[trigger] rows[k]).sequence
            < (#[trigger] rows[l]).sequence by {
            assert(ordered(rows[k], rows[l]));
        }
        assert forall|i: int, k: int|
            0 <= k < rows.len() && 0 <= i < state.events.len() && (
            #[trigger] state.events[i]).workspace_id == workspace_id && state.events[i].sequence
                > after_sequence && (state.events[i].author_id == viewer_id || was_sent(
                state,
                workspace_id,
                state.events[i].sequence,
                viewer_id,
            )) && !rows.contains(state.events[i]) implies (#[trigger] rows[k]).sequence
            < state.events[i].sequence by {
            assert(state.events.contains(state.events[i]));
            assert(selected(state.events[i]));
            assert(ordered(rows[k], state.events[i]));
        }
    }
}

/// The messages that wait for a recipient: messages of the workspace that were
/// delivered to them and are pending, oldest first and no more than the limit; and
/// such a delivery is left out only where the limit was reached with older ones. The
/// event beside a delivery is the message that was delivered.
pub proof fn law_waiting_messages_are_the_pending_ones(
    state: StoreState,
    workspace_id: Uuid,
    recipient_id: Uuid,
    limit: nat,
    rows: Seq<DeliveryRowView>,
)
    requires
        state.wf(),
        rows == first_items(
            state.deliveries.filter(pending_for(workspace_id, recipient_id)),
            limit,
        ),
    ensures
        rows.len() <= limit,
        forall|k: int|
            0 <= k < rows.len() ==> {
                let event = event_behind(state.events, (#[trigger] rows[k]).delivery);
                &&& rows[k].delivery.workspace_id == workspace_id
                &&& rows[k].delivery.recipient_id == recipient_id
                &&& rows[k].delivery.state == DeliveryState::Pending
                &&& state.deliveries.contains(rows[k])
                &&& state.events.contains(event)
                &&& event.workspace_id == workspace_id
                &&& event.sequence == rows[k].delivery.sequence
                &&& event.kind is Message
            },
        forall|i: int, j: int|
            0 <= i < state.deliveries.len() && 0 <= j < state.events.len() && (
            #[trigger] state.deliveries[i]).delivery.workspace_id == workspace_id
                && state.deliveries[i].delivery.recipient_id == recipient_id
                && state.deliveries[i].delivery.state == DeliveryState::Pending && (
            #[trigger] state.events[j]).workspace_id == workspace_id && state.events[j].sequence
                == state.deliveries[i].delivery.sequence && state.events[j].kind is Message
                ==> rows.contains(state.deliveries[i]) || rows.len() == limit && forall|k: int|
                0 <= k < rows.len() ==> (#[trigger] rows[k]).delivery.sequence
                    < state.deliveries[i].delivery.sequence,
        forall|k: int, l: int|
            0 <= k < l < rows.len() ==> (#[trigger] rows[k]).delivery.sequence < (
            #[trigger] rows[l]).delivery.sequence,
{
    let selected = pending_for(workspace_id, recipient_id);
    lemma_listed(state.deliveries, selected, limit);
    let ordered = |a: DeliveryRowView, b: DeliveryRowView|
        a.delivery.workspace_id == b.delivery.workspace_id && a.delivery.recipient_id
            == b.delivery.recipient_id ==> a.delivery.sequence < b.delivery.sequence;
    assert(pairwise(state.deliveries, ordered));
    lemma_listed_in_order(state.deliveries, selected, limit, ordered);
    assert forall|k: int| 0 <= k < rows.len() implies {
        let event = event_behind(state.events, (#[trigger] rows[k]).delivery);
        &&& rows[k].delivery.workspace_id == workspace_id
        &&& rows[k].delivery.recipient_id == recipient_id
        &&& rows[k].delivery.state == DeliveryState::Pending
        &&& state.deliveries.contains(rows[k])
        &&& state.events.contains(event)
        &&& event.workspace_id == workspace_id
        &&& event.sequence == rows[k].delivery.sequence
        &&& event.kind is Message
    } by {
        let row = rows[k];
        assert(selected(row));
        let i = choose|i: int| 0 <= i < state.deliveries.len() && state.deliveries[i] == row;
        assert(delivery_ok(state.deliveries[i], state.events));
        lemma_position(
            state.events,
            event_at(row.delivery.workspace_id, row.delivery.sequence),
        );
    }
    assert forall|i: int, j: int|
        0 <= i < state.deliveries.len() && 0 <= j < state.events.len() && (
        #[trigger] state.deliveries[i]).delivery.workspace_id == workspace_id
            && state.deliveries[i].delivery.recipient_id == recipient_id
            && state.deliveries[i].delivery.state == DeliveryState::Pending && (
        #[trigger] state.events[j]).workspace_id == workspace_id && state.events[j].sequence
            == state.deliveries[i].delivery.sequence
            && state.events[j].kind is Message implies rows.contains(state.deliveries[i])
        || rows.len() == limit && forall|k: int|
        0 <= k < rows.len() ==> (#[trigger] rows[k]).delivery.sequence
            < state.deliveries[i].delivery.sequence by {
        let row = state.deliveries[i];
        assert(delivery_ok(row, state.events));
        let behind = event_at(row.delivery.workspace_id, row.delivery.sequence);
        lemma_position(state.events, behind);
        assert(behind(state.events[j]));
        let at = position(state.events, behind)->Some_0;
        if at < j {
            assert(state.events[at].sequence < state.events[j].sequence);
        }
        assert(at == j);
        assert(row.is_message);
        assert(selected(row));
        assert(state.deliveries.contains(row));
        if !rows.contains(row) {
            assert forall|k: int| 0 <= k < rows.len() implies (#[trigger] rows[k]).delivery.sequence
                < row.delivery.sequence by {
                assert(ordered(rows[k], row));
            }
        }
    }
    assert forall|k: int, l: int| 0 <= k < l < rows.len() implies (
    #[trigger] rows[k]).delivery.sequence < (#[trigger] rows[l]).delivery.sequence by {
        assert(ordered(rows[k], rows[l]));
    }
}

/// The sequence of a message is that of an event of the workspace that has its
/// identity and is a message; and there is none exactly where there is no such event.
pub proof fn law_messages_are_found_by_identity(
    state: StoreState,
    workspace_id: Uuid,
    message_id: Uuid,
)
    ensures
        match sequence_of(state.events, workspace_id, message_id) {
            Some(sequence) => exists|i: int|
                0 <= i < state.events.len() && (#[trigger] state.events[i]).id == message_id
                    && state.events[i].workspace_id == workspace_id
                    && state.events[i].kind is Message && state.events[i].sequence == sequence,
            None => forall|i: int|
                0 <= i < state.events.len() && (#[trigger] state.events[i]).id == message_id
                    && state.events[i].workspace_id == workspace_id
                    ==> !(state.events[i].kind is Message),
        },
        some_item(state.events, message_event(message_id)) <==> exists|i: int|
            0 <= i < state.events.len() && (#[trigger] state.events[i]).id == message_id
                && state.events[i].kind is Message,
{
    lemma_position(state.events, message_event_in(workspace_id, message_id));
    lemma_found(state.events, message_event(message_id));
    match position(state.events, message_event_in(workspace_id, message_id)) {
        Some(at) => {
            assert(state.events[at].id == message_id);
        },
        None => {
            assert forall|i: int|
                0 <= i < state.events.len() && (#[trigger] state.events[i]).id == message_id
                    && state.events[i].workspace_id == workspace_id implies !(
            state.events[i].kind is Message) by {
                assert(!message_event_in(workspace_id, message_id)(state.events[i]));
            }
        },
    }
    if exists|i: int|
        0 <= i < state.events.len() && (#[trigger] state.events[i]).id == message_id
            && state.events[i].kind is Message {
        let i = choose|i: int|
            0 <= i < state.events.len() && (#[trigger] state.events[i]).id == message_id
                && state.events[i].kind is Message;
        assert(message_event(message_id)(state.events[i]));
    }
}

/// The deliveries of a message are those that have the workspace and the sequence of
/// an event that has its identity, and no others.
pub proof fn law_deliveries_of_a_message_are_its_own(
    state: StoreState,
    message_id: Uuid,
    row: DeliveryRowView,
)
    ensures
        state.deliveries.filter(delivery_under(state.events, message_id)).contains(row) <==> {
            &&& state.deliveries.contains(row)
            &&& exists|i: int|
                0 <= i < state.events.len() && (#[trigger] state.events[i]).id == message_id
                    && state.events[i].workspace_id == row.delivery.workspace_id
                    && state.events[i].sequence == row.delivery.sequence
        },
{
    let selected = delivery_under(state.events, message_id);
    lemma_filter_contains(state.deliveries, selected, row);
    let behind = event_is(message_id, row.delivery.workspace_id, row.delivery.sequence);
    lemma_found(state.events, behind);
    if exists|i: int|
        0 <= i < state.events.len() && (#[trigger] state.events[i]).id == message_id
            && state.events[i].workspace_id == row.delivery.workspace_id
            && state.events[i].sequence == row.delivery.sequence {
        let i = choose|i: int|
            0 <= i < state.events.len() && (#[trigger] state.events[i]).id == message_id
                && state.events[i].workspace_id == row.delivery.workspace_id
                && state.events[i].sequence == row.delivery.sequence;
        assert(behind(state.events[i]));
    }
}

} // verus!
