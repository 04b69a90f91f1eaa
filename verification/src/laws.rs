//! What holds of a workspace journal whatever is done with it.

use crate::append::{
    append_outcome, append_refusal, fanned, key_holder, lemma_others, lemma_recorded_wf,
    lemma_sequence_step, recipients_of, recorded, sequenced,
};
use crate::audience::{
    addresses, audience_ids, increasing, lemma_audience_listed, lemma_increasing_exists,
};
use crate::delivery::{
    delivered_after, is_reached, message_event, moved, pending_for, transition_outcome, visible_after,
};
use crate::directory::{
    direct_workspace_id, on_roster, projected_at, projects, roster_entries, session_sequence,
    with_direct_workspace, with_execution_workspace, with_member, with_participant,
    with_roster_entry, with_workspace, Renewal,
};
use crate::error::WorkspaceError;
use crate::event::{audience_of, canonical, mode_of};
use crate::instances::{after_reaping, known_instance, listed, reaped, with_instance};
use crate::model::{
    lemma_filter_congruent, lemma_filter_contains, lemma_filter_pairwise, lemma_position,
    lemma_position_push, lemma_position_update, lemma_some_item, pairwise, position, some_item,
};
use crate::projection::{project_batch, project_first, project_one, projection_recipients};
use crate::relay::{relay_event, relay_outcome, relay_refusal, with_conversation};
use crate::router::{
    addressees, addressees_refusal, candidate_event, carries, lemma_reached, message_refusal,
    reached, roster_roles, route_outcome,
};
use crate::store::{
    claim_is, delivery_is, delivery_ok, event_at, event_in, event_keyed, instance_is, is_message,
    member_in, member_is, next_sequence, numbered, participant_is, roles_in, workspace_is, DeliveryRowView,
    InstanceRowView, StoreState,
};
use crate::time::Timestamp;
use crate::validate::{content_refusal, current_claim};
use crate::workspace::{
    DeliveryAttemptView, DeliveryMode, DeliveryState, NewWorkspaceMessageView, ParticipantKind,
    ParticipantView, RecipientDeliveryView, Uuid, WorkspaceEventView, WorkspaceMembership,
    WorkspaceMessageView, WorkspaceRole,
};
use vstd::prelude::*;

verus! {

/// Appending an event keeps the tables' invariant.
pub proof fn law_append_keeps_invariant(
    state: StoreState,
    event: WorkspaceEventView,
    validate_references: bool,
)
    requires
        state.wf(),
    ensures
        append_outcome(state, event, validate_references).1.wf(),
{
    if append_refusal(state, event, validate_references) is None && key_holder(
        state,
        event,
    ) is None {
        let members = roles_in(state.members, event.workspace_id);
        lemma_audience_listed(audience_of(event.kind), members);
        let ids = audience_ids(audience_of(event.kind), members);
        lemma_others(ids, event.author_id);
        lemma_recorded_wf(state, event, recipients_of(state, event), validate_references);
    }
}

/// What stands under a key stays there while the journal goes on.
proof fn lemma_key_stays(
    before: Seq<WorkspaceEventView>,
    after: Seq<WorkspaceEventView>,
    selected: spec_fn(WorkspaceEventView) -> bool,
)
    requires
        before.is_prefix_of(after),
        position(before, selected) is Some,
    ensures
        position(after, selected) == position(before, selected),
        after[position(before, selected)->Some_0] == before[position(before, selected)->Some_0],
{
    lemma_position(before, selected);
    lemma_position(after, selected);
    let index = position(before, selected)->Some_0;
    assert(after[index] == before[index]);
    let found = position(after, selected)->Some_0;
    if found < index {
        assert(after[found] == before[found]);
    }
}

/// A retry of an event that was admitted returns what was admitted and changes
/// nothing, whatever identity and times the retry carries and however far the
/// journal has gone on since.
pub proof fn law_retry_is_idempotent(
    state: StoreState,
    event: WorkspaceEventView,
    later: StoreState,
    retry: WorkspaceEventView,
    validate_references: bool,
    validate_again: bool,
)
    requires
        canonical(event) == canonical(retry),
        append_outcome(state, event, validate_references).0 is Ok,
        append_outcome(state, event, validate_references).1.events.is_prefix_of(later.events),
    ensures
        append_outcome(later, retry, validate_again) == (
            append_outcome(state, event, validate_references).0,
            later,
        ),
{
    let first = append_outcome(state, event, validate_references);
    let keyed = event_keyed(event.workspace_id, event.author_id, event.idempotency_key);
    assert(canonical(event).idempotency_key == event.idempotency_key);
    assert(canonical(retry).idempotency_key == retry.idempotency_key);
    assert(retry.workspace_id == event.workspace_id && retry.author_id == event.author_id);
    if key_holder(state, event) is None {
        let stored = sequenced(state, event);
        lemma_position_push(state.events, stored, keyed);
        assert(keyed(stored));
        assert(first.1.events[state.events.len() as int] == stored);
        assert(canonical(stored) == canonical(event));
    }
    lemma_key_stays(first.1.events, later.events, keyed);
}

/// A key that stands for an event is refused for anything else, however far the
/// journal has gone on since, and the refusal changes nothing.
pub proof fn law_changed_payload_conflicts(
    state: StoreState,
    event: WorkspaceEventView,
    later: StoreState,
    other: WorkspaceEventView,
    validate_references: bool,
    validate_again: bool,
)
    requires
        append_outcome(state, event, validate_references).0 is Ok,
        append_outcome(state, event, validate_references).1.events.is_prefix_of(later.events),
        other.workspace_id == event.workspace_id,
        other.author_id == event.author_id,
        other.idempotency_key == event.idempotency_key,
        canonical(event) != canonical(other),
    ensures
        append_outcome(later, other, validate_again) == (
            Err::<WorkspaceEventView, WorkspaceError>(WorkspaceError::IdempotencyConflict),
            later,
        ),
{
    let first = append_outcome(state, event, validate_references);
    let keyed = event_keyed(event.workspace_id, event.author_id, event.idempotency_key);
    if key_holder(state, event) is None {
        let stored = sequenced(state, event);
        lemma_position_push(state.events, stored, keyed);
        assert(keyed(stored));
        assert(first.1.events[state.events.len() as int] == stored);
        assert(canonical(stored) == canonical(event));
    }
    lemma_key_stays(first.1.events, later.events, keyed);
}

/// An event that is admitted for the first time gets the next sequence of its
/// workspace, the workspace then counts on by one, and no other workspace is
/// touched.
pub proof fn law_sequences_count_on(
    state: StoreState,
    event: WorkspaceEventView,
    validate_references: bool,
    other: Uuid,
)
    requires
        state.wf(),
        append_outcome(state, event, validate_references).0 is Ok,
        key_holder(state, event) is None,
    ensures
        append_outcome(state, event, validate_references).0->Ok_0.sequence == next_sequence(
            state.workspaces,
            event.workspace_id,
        )->Some_0,
        next_sequence(
            append_outcome(state, event, validate_references).1.workspaces,
            event.workspace_id,
        ) == Some((next_sequence(state.workspaces, event.workspace_id)->Some_0 + 1) as u64),
        other != event.workspace_id ==> next_sequence(
            append_outcome(state, event, validate_references).1.workspaces,
            other,
        ) == next_sequence(state.workspaces, other),
{
    lemma_sequence_step(state, event);
}

/// The events of a workspace are sequenced one, two and so on without a gap, up to
/// the sequence that comes next: every sequence that was handed out has its event.
pub proof fn law_sequences_have_no_gaps(state: StoreState, workspace_id: Uuid, sequence: u64)
    requires
        state.wf(),
        next_sequence(state.workspaces, workspace_id) is Some,
    ensures
        numbered(
            state.events.filter(event_in(workspace_id)),
            next_sequence(state.workspaces, workspace_id)->Some_0,
        ),
        some_item(state.events, event_at(workspace_id, sequence)) <==> 1 <= sequence
            < next_sequence(state.workspaces, workspace_id)->Some_0,
{
    lemma_position(state.workspaces, workspace_is(workspace_id));
    let index = position(state.workspaces, workspace_is(workspace_id))->Some_0;
    assert(state.workspaces[index].workspace.id == workspace_id);
    let here = state.events.filter(event_in(workspace_id));
    let at = event_at(workspace_id, sequence);
    lemma_position(state.events, at);
    if some_item(state.events, at) {
        assert(at(state.events[position(state.events, at)->Some_0]));
    }
    if 1 <= sequence < next_sequence(state.workspaces, workspace_id)->Some_0 {
        let event = here[sequence - 1];
        assert(event.sequence == sequence);
        assert(here.contains(event));
        lemma_filter_contains(state.events, event_in(workspace_id), event);
        let i = choose|i: int| 0 <= i < state.events.len() && state.events[i] == event;
        lemma_some_item(state.events, at, i);
    }
}

/// What the journal holds is never changed or dropped by an append.
pub proof fn law_append_only(
    state: StoreState,
    event: WorkspaceEventView,
    validate_references: bool,
)
    ensures
        state.events.is_prefix_of(append_outcome(state, event, validate_references).1.events),
        state.deliveries.is_prefix_of(
            append_outcome(state, event, validate_references).1.deliveries,
        ),
{
    let after = append_outcome(state, event, validate_references).1;
    assert(after.events.take(state.events.len() as int) =~= state.events);
    assert(after.deliveries.take(state.deliveries.len() as int) =~= state.deliveries);
}

/// In a workspace, a later event has a later sequence: a replay lists events in
/// strictly increasing order.
pub proof fn law_replay_is_ordered(
    state: StoreState,
    workspace_id: Uuid,
    viewer_id: Uuid,
    after: u64,
    i: int,
    j: int,
)
    requires
        state.wf(),
        0 <= i < j < state.events.filter(
            visible_after(state.deliveries, workspace_id, viewer_id, after),
        ).len(),
    ensures
        state.events.filter(
            visible_after(state.deliveries, workspace_id, viewer_id, after),
        )[i].sequence < state.events.filter(
            visible_after(state.deliveries, workspace_id, viewer_id, after),
        )[j].sequence,
{
    let selected = visible_after(state.deliveries, workspace_id, viewer_id, after);
    let ordered = |a: WorkspaceEventView, b: WorkspaceEventView|
        a.workspace_id == b.workspace_id ==> a.sequence < b.sequence;
    assert(pairwise(state.events, ordered));
    lemma_filter_pairwise(state.events, selected, ordered);
    let kept = state.events.filter(selected);
    state.events.lemma_filter_pred(selected, i);
    state.events.lemma_filter_pred(selected, j);
    assert(ordered(kept[i], kept[j]));
}

/// A recipient's deliveries are listed in strictly increasing order.
pub proof fn law_deliveries_are_ordered(
    state: StoreState,
    workspace_id: Uuid,
    recipient_id: Uuid,
    after: u64,
    i: int,
    j: int,
)
    requires
        state.wf(),
        0 <= i < j < state.deliveries.filter(
            delivered_after(workspace_id, recipient_id, after),
        ).len(),
    ensures
        state.deliveries.filter(
            delivered_after(workspace_id, recipient_id, after),
        )[i].delivery.sequence < state.deliveries.filter(
            delivered_after(workspace_id, recipient_id, after),
        )[j].delivery.sequence,
{
    let selected = delivered_after(workspace_id, recipient_id, after);
    let ordered = |a: DeliveryRowView, b: DeliveryRowView|
        a.delivery.workspace_id == b.delivery.workspace_id && a.delivery.recipient_id
            == b.delivery.recipient_id ==> a.delivery.sequence < b.delivery.sequence;
    assert(pairwise(state.deliveries, ordered));
    lemma_filter_pairwise(state.deliveries, selected, ordered);
    let kept = state.deliveries.filter(selected);
    state.deliveries.lemma_filter_pred(selected, i);
    state.deliveries.lemma_filter_pred(selected, j);
    assert(ordered(kept[i], kept[j]));
}

/// Which of the deliveries after a new event are its own.
pub proof fn lemma_new_delivery(
    state: StoreState,
    event: WorkspaceEventView,
    recipients: Seq<Uuid>,
    viewer_id: Uuid,
)
    requires
        state.wf(),
        position(
            state.events,
            event_at(event.workspace_id, sequenced(state, event).sequence),
        ) is None,
    ensures
        some_item(
            recorded(state, event, recipients).deliveries,
            delivery_is(event.workspace_id, sequenced(state, event).sequence, viewer_id),
        ) <==> recipients.contains(viewer_id),
{
    let stored = sequenced(state, event);
    let rows = recorded(state, event, recipients).deliveries;
    let added = fanned(
        stored.workspace_id,
        stored.sequence,
        recipients,
        mode_of(stored.kind),
        is_message(stored.kind),
    );
    let selected = delivery_is(event.workspace_id, stored.sequence, viewer_id);
    lemma_position(rows, selected);
    if some_item(rows, selected) {
        let at = position(rows, selected)->Some_0;
        if at < state.deliveries.len() {
            let row = state.deliveries[at];
            assert(rows[at] == row);
            assert(delivery_ok(row, state.events));
        } else {
            let i = at - state.deliveries.len();
            assert(rows[at] == added[i]);
            assert(recipients[i] == viewer_id);
        }
    }
    if recipients.contains(viewer_id) {
        let i = choose|i: int| 0 <= i < recipients.len() && recipients[i] == viewer_id;
        let at = state.deliveries.len() + i;
        assert(rows[at] == added[i]);
        lemma_some_item(rows, selected, at);
    }
}

/// An event that is admitted for the first time is readable by its author and by
/// whom its audience names, and by nobody else: a private audience does not leak
/// through replay.
pub proof fn law_audience_decides_who_reads(
    state: StoreState,
    event: WorkspaceEventView,
    validate_references: bool,
    viewer_id: Uuid,
    after: u64,
)
    requires
        state.wf(),
        append_outcome(state, event, validate_references).0 is Ok,
        key_holder(state, event) is None,
        after < sequenced(state, event).sequence,
    ensures
        visible_after(
            append_outcome(state, event, validate_references).1.deliveries,
            event.workspace_id,
            viewer_id,
            after,
        )(append_outcome(state, event, validate_references).0->Ok_0) <==> viewer_id
            == event.author_id || addresses(
            audience_of(event.kind),
            roles_in(state.members, event.workspace_id),
            viewer_id,
        ),
{
    let members = roles_in(state.members, event.workspace_id);
    let audience = audience_of(event.kind);
    lemma_sequence_step(state, event);
    lemma_audience_listed(audience, members);
    let ids = audience_ids(audience, members);
    lemma_others(ids, event.author_id);
    let recipients = recipients_of(state, event);
    lemma_new_delivery(state, event, recipients, viewer_id);
    assert(recipients.contains(viewer_id) <==> ids.contains(viewer_id) && viewer_id
        != event.author_id);
    assert(ids.contains(viewer_id) <==> addresses(audience, members, viewer_id));
}

/// A message that is admitted for the first time waits for each of its
/// recipients.
pub proof fn law_new_messages_are_pending(
    state: StoreState,
    event: WorkspaceEventView,
    validate_references: bool,
    recipient_id: Uuid,
)
    requires
        state.wf(),
        append_outcome(state, event, validate_references).0 is Ok,
        key_holder(state, event) is None,
        is_message(event.kind),
        recipient_id != event.author_id,
        addresses(
            audience_of(event.kind),
            roles_in(state.members, event.workspace_id),
            recipient_id,
        ),
    ensures
        some_item(
            append_outcome(state, event, validate_references).1.deliveries.filter(
                pending_for(event.workspace_id, recipient_id),
            ),
            delivery_is(
                event.workspace_id,
                append_outcome(state, event, validate_references).0->Ok_0.sequence,
                recipient_id,
            ),
        ),
{
    let members = roles_in(state.members, event.workspace_id);
    let audience = audience_of(event.kind);
    lemma_audience_listed(audience, members);
    let ids = audience_ids(audience, members);
    lemma_others(ids, event.author_id);
    let recipients = recipients_of(state, event);
    let stored = sequenced(state, event);
    let rows = append_outcome(state, event, validate_references).1.deliveries;
    assert(recipients.contains(recipient_id));
    let i = choose|i: int| 0 <= i < recipients.len() && recipients[i] == recipient_id;
    let row = rows[state.deliveries.len() + i];
    let added = fanned(
        stored.workspace_id,
        stored.sequence,
        recipients,
        mode_of(stored.kind),
        is_message(stored.kind),
    );
    assert(row == added[i]);
    assert(rows.contains(row));
    let selected = pending_for(event.workspace_id, recipient_id);
    lemma_filter_contains(rows, selected, row);
    let kept = rows.filter(selected);
    let at = choose|at: int| 0 <= at < kept.len() && kept[at] == row;
    lemma_some_item(
        kept,
        delivery_is(event.workspace_id, stored.sequence, recipient_id),
        at,
    );
}

/// A delivery that was moved on is no longer among the messages that wait.
pub proof fn law_settled_messages_do_not_wait(
    state: StoreState,
    workspace_id: Uuid,
    sequence: u64,
    recipient_id: Uuid,
    next: DeliveryState,
    attempt: Option<DeliveryAttemptView>,
)
    requires
        state.wf(),
        next != DeliveryState::Pending,
        transition_outcome(state, workspace_id, sequence, recipient_id, next, attempt).0 is Ok,
    ensures
        !some_item(
            transition_outcome(
                state,
                workspace_id,
                sequence,
                recipient_id,
                next,
                attempt,
            ).1.deliveries.filter(pending_for(workspace_id, recipient_id)),
            delivery_is(workspace_id, sequence, recipient_id),
        ),
{
    let own = delivery_is(workspace_id, sequence, recipient_id);
    let waiting = pending_for(workspace_id, recipient_id);
    let rows = transition_outcome(
        state,
        workspace_id,
        sequence,
        recipient_id,
        next,
        attempt,
    ).1.deliveries;
    lemma_position(state.deliveries, own);
    let index = position(state.deliveries, own)->Some_0;
    let kept = rows.filter(waiting);
    lemma_position(kept, own);
    if some_item(kept, own) {
        let row = kept[position(kept, own)->Some_0];
        assert(kept.contains(row));
        lemma_filter_contains(rows, waiting, row);
        let at = choose|at: int| 0 <= at < rows.len() && rows[at] == row;
        if at != index {
            assert(rows[at] == state.deliveries[at]);
            if at < index {
                assert(own(state.deliveries[at]));
            } else {
                assert(own(state.deliveries[index]) && own(state.deliveries[at]));
            }
        }
    }
}

/// What was appended is found: a message by the identity of its event, and any
/// event by its key.
pub proof fn law_appended_events_are_found(
    state: StoreState,
    event: WorkspaceEventView,
    validate_references: bool,
)
    requires
        append_outcome(state, event, validate_references).0 is Ok,
    ensures
        some_item(
            append_outcome(state, event, validate_references).1.events,
            event_keyed(event.workspace_id, event.author_id, event.idempotency_key),
        ),
        is_message(event.kind) ==> some_item(
            append_outcome(state, event, validate_references).1.events,
            message_event(append_outcome(state, event, validate_references).0->Ok_0.id),
        ),
{
    let outcome = append_outcome(state, event, validate_references);
    let keyed = event_keyed(event.workspace_id, event.author_id, event.idempotency_key);
    lemma_position(state.events, keyed);
    let index = match key_holder(state, event) {
        Some(index) => index,
        None => state.events.len() as int,
    };
    assert(outcome.1.events[index] == outcome.0->Ok_0);
    assert(canonical(outcome.1.events[index]) == canonical(event));
    assert(is_message(outcome.0->Ok_0.kind) == is_message(canonical(outcome.0->Ok_0).kind));
    assert(is_message(event.kind) == is_message(canonical(event).kind));
    lemma_some_item(outcome.1.events, keyed, index);
    if is_message(event.kind) {
        lemma_some_item(outcome.1.events, message_event(outcome.0->Ok_0.id), index);
    }
}

/// An acknowledged or recalled delivery never changes again, only a failed one
/// becomes pending, and the count of attempts never falls.
pub proof fn law_deliveries_move_forward(
    delivery: RecipientDeliveryView,
    next: DeliveryState,
    attempt: Option<DeliveryAttemptView>,
)
    requires
        moved(delivery, next, attempt) is Ok,
    ensures
        delivery.state == DeliveryState::Acknowledged || delivery.state == DeliveryState::Recalled
            ==> moved(delivery, next, attempt)->Ok_0 == delivery,
        moved(delivery, next, attempt)->Ok_0.state == DeliveryState::Pending && delivery.state
            != DeliveryState::Pending ==> delivery.state == DeliveryState::Failed,
        delivery.attempts <= moved(delivery, next, attempt)->Ok_0.attempts <= delivery.attempts + 1,
{
}

/// Two claimants who saw the same claim cannot both win the work. The second
/// claim is only read as the first where it names the first as the one it saw.
pub proof fn law_one_claimant_wins(
    state: StoreState,
    first: WorkspaceEventView,
    second: WorkspaceEventView,
    validate_references: bool,
    validate_again: bool,
)
    requires
        append_outcome(state, first, validate_references).0 is Ok,
        key_holder(state, first) is None,
        first.kind is WorkClaimed,
        second.kind is WorkClaimed,
        second.workspace_id == first.workspace_id,
        second.kind->WorkClaimed_claim.work_id == first.kind->WorkClaimed_claim.work_id,
        second.kind->WorkClaimed_claim.expected_claim_id
            == first.kind->WorkClaimed_claim.expected_claim_id,
        second.kind->WorkClaimed_claim.expected_claim_id != Some(first.id),
        key_holder(append_outcome(state, first, validate_references).1, second) is None,
    ensures
        append_outcome(
            append_outcome(state, first, validate_references).1,
            second,
            validate_again,
        ).0 is Err,
{
    let after = append_outcome(state, first, validate_references).1;
    let work_id = first.kind->WorkClaimed_claim.work_id;
    let selected = claim_is(first.workspace_id, work_id);
    let stored = sequenced(state, first);
    lemma_position(state.claims, selected);
    lemma_position(after.claims, selected);
    match position(state.claims, selected) {
        Some(index) => {
            let row = after.claims[index];
            assert(selected(row));
            lemma_position_update(state.claims, index, row, selected);
        },
        None => {
            let row = after.claims.last();
            assert(after.claims == state.claims.push(row));
            assert(selected(row));
            lemma_position_push(state.claims, row, selected);
        },
    }
    assert(current_claim(after.claims, first.workspace_id, work_id) == Some(first.id));
    assert(content_refusal(
        after,
        second,
        roles_in(after.members, second.workspace_id),
        validate_again,
    ) is Some);
}

/// The direct workspace of two participants does not depend on who writes to
/// whom.
pub proof fn law_direct_workspace_is_symmetric(
    state: StoreState,
    left: Uuid,
    right: Uuid,
    now: Timestamp,
)
    ensures
        direct_workspace_id(left, right) == direct_workspace_id(right, left),
        with_direct_workspace(state, left, right, now) == with_direct_workspace(
            state,
            right,
            left,
            now,
        ),
{
}

/// A workspace that exists stays as it is.
proof fn lemma_workspace_again(
    state: StoreState,
    id: Uuid,
    name: Seq<char>,
    at: Timestamp,
    again: Timestamp,
)
    ensures
        with_workspace(with_workspace(state.workspaces, id, name, at), id, name, again)
            == with_workspace(state.workspaces, id, name, at),
{
    let rows = state.workspaces;
    let after = with_workspace(rows, id, name, at);
    lemma_position(rows, workspace_is(id));
    if !some_item(rows, workspace_is(id)) {
        assert(workspace_is(id)(after.last()));
        lemma_position_push(rows, after.last(), workspace_is(id));
    }
}

/// Where a participant stands once they are sure to be known.
proof fn lemma_with_participant(
    rows: Seq<ParticipantView>,
    offered: ParticipantView,
    renewal: Renewal,
    id: Uuid,
)
    ensures
        position(with_participant(rows, offered, renewal), participant_is(id)) == if id
            == offered.id && position(rows, participant_is(id)) is None {
            Some(rows.len() as int)
        } else {
            position(rows, participant_is(id))
        },
{
    let selected = participant_is(id);
    lemma_position(rows, participant_is(offered.id));
    match position(rows, participant_is(offered.id)) {
        Some(index) => {
            let after = with_participant(rows, offered, renewal);
            lemma_position_update(rows, index, after[index], selected);
        },
        None => {
            lemma_position_push(rows, offered, selected);
        },
    }
}

/// Where a member stands once they are sure to belong to a workspace.
proof fn lemma_with_member(
    rows: Seq<WorkspaceMembership>,
    offered: WorkspaceMembership,
    refresh_role: bool,
    workspace_id: Uuid,
    participant_id: Uuid,
)
    ensures
        position(
            with_member(rows, offered, refresh_role),
            member_is(workspace_id, participant_id),
        ) == if workspace_id == offered.workspace_id && participant_id == offered.participant_id
            && position(rows, member_is(workspace_id, participant_id)) is None {
            Some(rows.len() as int)
        } else {
            position(rows, member_is(workspace_id, participant_id))
        },
{
    let selected = member_is(workspace_id, participant_id);
    let own = member_is(offered.workspace_id, offered.participant_id);
    lemma_position(rows, own);
    match position(rows, own) {
        Some(index) => {
            let after = with_member(rows, offered, refresh_role);
            if refresh_role {
                lemma_position_update(rows, index, after[index], selected);
            }
        },
        None => {
            lemma_position_push(rows, offered, selected);
        },
    }
}

/// A direct workspace that exists stays as it is, whoever asks for it next.
pub proof fn law_direct_workspace_is_made_once(
    state: StoreState,
    left: Uuid,
    right: Uuid,
    now: Timestamp,
    later: Timestamp,
)
    ensures
        with_direct_workspace(
            with_direct_workspace(state, left, right, now),
            right,
            left,
            later,
        ) == with_direct_workspace(state, left, right, now),
{
    let id = direct_workspace_id(left, right);
    let first = if left <= right { left } else { right };
    let second = if left <= right { right } else { left };
    let of = |participant_id: Uuid, at: Timestamp|
        WorkspaceMembership {
            workspace_id: id,
            participant_id,
            role: WorkspaceRole::Editor,
            joined_at: at,
        };
    let once = with_direct_workspace(state, left, right, now);
    let twice = with_direct_workspace(once, right, left, later);
    lemma_workspace_again(state, id, "Borg direct message"@, now, later);
    let m1 = with_member(state.members, of(first, now), false);
    let m2 = with_member(m1, of(second, now), false);
    assert(once.members == m2);
    lemma_with_member(state.members, of(first, now), false, id, first);
    lemma_with_member(m1, of(second, now), false, id, first);
    lemma_with_member(m1, of(second, now), false, id, second);
    assert(with_member(m2, of(first, later), false) == m2);
    assert(with_member(m2, of(second, later), false) == m2);
    assert(twice =~= once);
}

/// Projecting a roster entry again changes nothing: membership is cached, not
/// duplicated.
pub proof fn law_roster_projection_is_idempotent(
    state: StoreState,
    workspace_id: Uuid,
    participant: ParticipantView,
    role: WorkspaceRole,
    now: Timestamp,
    later: Timestamp,
)
    ensures
        with_roster_entry(
            with_roster_entry(state, workspace_id, participant, role, now),
            workspace_id,
            participant,
            role,
            later,
        ) == with_roster_entry(state, workspace_id, participant, role, now),
{
    let once = with_roster_entry(state, workspace_id, participant, role, now);
    let twice = with_roster_entry(once, workspace_id, participant, role, later);
    let known = participant_is(participant.id);
    let own = member_is(workspace_id, participant.id);
    let of = |at: Timestamp|
        WorkspaceMembership { workspace_id, participant_id: participant.id, role, joined_at: at };
    lemma_position(state.participants, known);
    lemma_position(once.participants, known);
    lemma_with_participant(state.participants, participant, Renewal::Refresh, participant.id);
    assert(twice.participants =~= once.participants);
    lemma_position(state.members, own);
    lemma_position(once.members, own);
    lemma_with_member(state.members, of(now), true, workspace_id, participant.id);
    assert(twice.members =~= once.members);
    assert(twice =~= once);
}

/// Relaunching a session changes nothing where its names are the same:
/// provisioning is idempotent.
pub proof fn law_provisioning_is_idempotent(
    state: StoreState,
    workspace_id: Uuid,
    workspace_name: Seq<char>,
    human_id: Uuid,
    human_name: Seq<char>,
    agent_id: Uuid,
    agent_name: Seq<char>,
    now: Timestamp,
    later: Timestamp,
)
    ensures
        with_execution_workspace(
            with_execution_workspace(
                state,
                workspace_id,
                workspace_name,
                human_id,
                human_name,
                agent_id,
                agent_name,
                now,
            ),
            workspace_id,
            workspace_name,
            human_id,
            human_name,
            agent_id,
            agent_name,
            later,
        ) == with_execution_workspace(
            state,
            workspace_id,
            workspace_name,
            human_id,
            human_name,
            agent_id,
            agent_name,
            now,
        ),
{
    let human = |at: Timestamp|
        ParticipantView {
            id: human_id,
            display_name: human_name,
            kind: ParticipantKind::Human,
            created_at: at,
        };
    let agent = |at: Timestamp|
        ParticipantView {
            id: agent_id,
            display_name: agent_name,
            kind: ParticipantKind::Agent,
            created_at: at,
        };
    let owner = |at: Timestamp|
        WorkspaceMembership {
            workspace_id,
            participant_id: human_id,
            role: WorkspaceRole::Owner,
            joined_at: at,
        };
    let editor = |at: Timestamp|
        WorkspaceMembership {
            workspace_id,
            participant_id: agent_id,
            role: WorkspaceRole::Editor,
            joined_at: at,
        };
    let once = with_execution_workspace(
        state,
        workspace_id,
        workspace_name,
        human_id,
        human_name,
        agent_id,
        agent_name,
        now,
    );
    let twice = with_execution_workspace(
        once,
        workspace_id,
        workspace_name,
        human_id,
        human_name,
        agent_id,
        agent_name,
        later,
    );
    lemma_workspace_again(state, workspace_id, workspace_name, now, later);
    assert(twice.workspaces == once.workspaces);

    let p0 = state.participants;
    let p1 = with_participant(p0, human(now), Renewal::Rename);
    let p2 = with_participant(p1, agent(now), Renewal::Rename);
    let p3 = with_participant(p2, human(later), Renewal::Rename);
    let p4 = with_participant(p3, agent(later), Renewal::Rename);
    assert(once.participants == p2 && twice.participants == p4);
    lemma_position(p0, participant_is(human_id));
    lemma_position(p1, participant_is(human_id));
    lemma_position(p1, participant_is(agent_id));
    lemma_position(p2, participant_is(human_id));
    lemma_position(p2, participant_is(agent_id));
    lemma_position(p3, participant_is(agent_id));
    lemma_with_participant(p0, human(now), Renewal::Rename, human_id);
    lemma_with_participant(p1, agent(now), Renewal::Rename, human_id);
    lemma_with_participant(p1, agent(now), Renewal::Rename, agent_id);
    lemma_with_participant(p2, human(later), Renewal::Rename, agent_id);
    let h = position(p2, participant_is(human_id))->Some_0;
    let a = position(p2, participant_is(agent_id))->Some_0;
    assert(p2[a].display_name == agent_name);
    assert(h != a ==> p2[h].display_name == human_name) by {
        if h != a {
            assert(p1[h].display_name == human_name);
        }
    }
    assert(p4 =~= p2);

    let m0 = state.members;
    let m1 = with_member(m0, owner(now), true);
    let m2 = with_member(m1, editor(now), true);
    let m3 = with_member(m2, owner(later), true);
    let m4 = with_member(m3, editor(later), true);
    assert(once.members == m2 && twice.members == m4);
    lemma_position(m0, member_is(workspace_id, human_id));
    lemma_position(m1, member_is(workspace_id, human_id));
    lemma_position(m1, member_is(workspace_id, agent_id));
    lemma_position(m2, member_is(workspace_id, human_id));
    lemma_position(m2, member_is(workspace_id, agent_id));
    lemma_position(m3, member_is(workspace_id, agent_id));
    lemma_with_member(m0, owner(now), true, workspace_id, human_id);
    lemma_with_member(m1, editor(now), true, workspace_id, human_id);
    lemma_with_member(m1, editor(now), true, workspace_id, agent_id);
    lemma_with_member(m2, owner(later), true, workspace_id, agent_id);
    let o = position(m2, member_is(workspace_id, human_id))->Some_0;
    let e = position(m2, member_is(workspace_id, agent_id))->Some_0;
    assert(m2[e].role == WorkspaceRole::Editor);
    assert(o != e ==> m2[o].role == WorkspaceRole::Owner) by {
        if o != e {
            assert(m1[o].role == WorkspaceRole::Owner);
        }
    }
    assert(m4 =~= m2);
    assert(twice =~= once);
}

/// An instance that was swept is no longer listed among the live ones, stays
/// listed among all, and is not swept again.
pub proof fn law_exited_instances_are_tombstoned(
    state: StoreState,
    ids: Seq<Uuid>,
    now: Timestamp,
    agent: ParticipantView,
)
    requires
        ids.contains(agent.id),
        some_item(state.instances, instance_is(agent.id)),
        agent.kind == ParticipantKind::Agent,
    ensures
        ({
            let after = state.instances.map_values(
                |row: InstanceRowView| after_reaping(row, ids, now),
            );
            &&& !listed(after, false)(agent)
            &&& listed(after, true)(agent)
            &&& after.filter(reaped(ids)).len() == 0
        }),
{
    let after = state.instances.map_values(|row: InstanceRowView| after_reaping(row, ids, now));
    let selected = instance_is(agent.id);
    lemma_position(state.instances, selected);
    lemma_position(after, selected);
    let index = position(state.instances, selected)->Some_0;
    assert(selected(after[index]));
    lemma_some_item(after, selected, index);
    let at = position(after, selected)->Some_0;
    assert(after[at] == after_reaping(state.instances[at], ids, now));
    assert forall|i: int| 0 <= i < after.len() implies !reaped(ids)(#[trigger] after[i]) by {
        assert(after[i] == after_reaping(state.instances[i], ids, now));
    }
    after.lemma_all_neg_filter_empty(reaped(ids));
}

/// Registering a process again revives its instance in place.
pub proof fn law_registration_revives(
    state: StoreState,
    row: InstanceRowView,
    agent: ParticipantView,
)
    requires
        state.wf(),
        row.participant_id == agent.id,
        row.exited_at is None,
        agent.kind == ParticipantKind::Agent,
    ensures
        listed(with_instance(state.instances, row), false)(agent),
        known_instance(with_instance(state.instances, row), agent.id) == row,
        some_item(state.instances, instance_is(agent.id)) ==> with_instance(
            state.instances,
            row,
        ).len() == state.instances.len(),
{
    let selected = instance_is(agent.id);
    lemma_position(state.instances, selected);
    match position(state.instances, selected) {
        Some(index) => {
            lemma_position_update(state.instances, index, row, selected);
        },
        None => {
            lemma_position_push(state.instances, row, selected);
        },
    }
}

/// The conversation of a relay delivery, once it exists, stays as it is.
proof fn lemma_conversation_again(
    state: StoreState,
    message: WorkspaceMessageView,
    author_name: Seq<char>,
    recipient_id: Uuid,
    after: StoreState,
)
    requires
        relay_refusal(state, message, recipient_id) is None,
        after.participants == with_conversation(
            state,
            message,
            author_name,
            recipient_id,
        ).participants,
        after.members == with_conversation(state, message, author_name, recipient_id).members,
        some_item(after.workspaces, workspace_is(message.workspace_id)),
    ensures
        relay_refusal(after, message, recipient_id) is None,
        with_conversation(after, message, author_name, recipient_id) == after,
{
    let author = ParticipantView {
        id: message.author_id,
        display_name: author_name,
        kind: ParticipantKind::Agent,
        created_at: message.created_at,
    };
    let of = |participant_id: Uuid|
        WorkspaceMembership {
            workspace_id: message.workspace_id,
            participant_id,
            role: WorkspaceRole::Viewer,
            joined_at: message.created_at,
        };
    let again = with_conversation(after, message, author_name, recipient_id);
    lemma_position(state.participants, participant_is(message.author_id));
    lemma_with_participant(state.participants, author, Renewal::Keep, message.author_id);
    lemma_position(after.participants, participant_is(message.author_id));
    assert(again.participants =~= after.participants);
    let m0 = state.members;
    let m1 = with_member(m0, of(message.author_id), false);
    let m2 = with_member(m1, of(recipient_id), false);
    assert(after.members == m2);
    lemma_with_member(
        m0,
        of(message.author_id),
        false,
        message.workspace_id,
        message.author_id,
    );
    lemma_with_member(m1, of(recipient_id), false, message.workspace_id, message.author_id);
    lemma_with_member(m1, of(recipient_id), false, message.workspace_id, recipient_id);
    assert(with_member(m2, of(message.author_id), false) == m2);
    assert(with_member(m2, of(recipient_id), false) == m2);
    assert(again.members == after.members);
    assert(again =~= after);
}

/// A relay that delivers the same message again delivers nothing new: what was
/// imported first is returned, and the tables stay as they are.
pub proof fn law_relay_redelivery_is_a_retry(
    state: StoreState,
    message: WorkspaceMessageView,
    author_name: Seq<char>,
    recipient_id: Uuid,
    mode: DeliveryMode,
)
    requires
        relay_outcome(state, message, author_name, recipient_id, mode).0 is Ok,
    ensures
        relay_outcome(
            relay_outcome(state, message, author_name, recipient_id, mode).1,
            message,
            author_name,
            recipient_id,
            mode,
        ) == relay_outcome(state, message, author_name, recipient_id, mode),
{
    let middle = with_conversation(state, message, author_name, recipient_id);
    let event = relay_event(message, mode);
    let first = append_outcome(middle, event, false);
    let after = first.1;
    lemma_position(state.workspaces, workspace_is(message.workspace_id));
    lemma_position(middle.workspaces, workspace_is(message.workspace_id));
    if !some_item(state.workspaces, workspace_is(message.workspace_id)) {
        lemma_position_push(
            state.workspaces,
            middle.workspaces.last(),
            workspace_is(message.workspace_id),
        );
    }
    assert(some_item(after.workspaces, workspace_is(message.workspace_id))) by {
        if key_holder(middle, event) is None {
            let at = position(middle.workspaces, workspace_is(message.workspace_id))->Some_0;
            lemma_position_update(
                middle.workspaces,
                at,
                after.workspaces[at],
                workspace_is(message.workspace_id),
            );
        }
    }
    lemma_conversation_again(state, message, author_name, recipient_id, after);
    law_retry_is_idempotent(
        middle,
        event,
        append_outcome(middle, event, false).1,
        event,
        false,
        false,
    );
}

/// A receipt always names at least one recipient, each once, and never the
/// author.
pub proof fn law_receipts_name_others(
    state: StoreState,
    input: NewWorkspaceMessageView,
    message_id: Uuid,
    now: Timestamp,
)
    requires
        route_outcome(state, input, message_id, now).0 is Ok,
    ensures
        ({
            let ids = route_outcome(state, input, message_id, now).0->Ok_0.recipient_ids;
            &&& ids.len() > 0
            &&& increasing(ids)
            &&& !ids.contains(input.author_id)
        }),
{
    let roster = roster_entries(state, input.workspace_id);
    let members = roster_roles(roster);
    lemma_audience_listed(input.audience, members);
    lemma_others(audience_ids(input.audience, members), input.author_id);
}

/// Whether everyone who belongs to a workspace is a known participant.
pub open spec fn members_known(state: StoreState) -> bool {
    forall|i: int|
        0 <= i < state.members.len() ==> some_item(
            state.participants,
            participant_is((#[trigger] state.members[i]).participant_id),
        )
}

/// Where everyone is known, a roster lists exactly the members and their roles.
pub proof fn lemma_roster_is_members(state: StoreState, workspace_id: Uuid)
    requires
        members_known(state),
    ensures
        roster_roles(roster_entries(state, workspace_id)) == roles_in(state.members, workspace_id),
{
    let here = member_in(workspace_id);
    let listed = on_roster(state.participants, workspace_id);
    lemma_filter_congruent(state.members, listed, here);
    let kept = state.members.filter(here);
    let roles = roles_in(state.members, workspace_id);
    let roster = roster_roles(roster_entries(state, workspace_id));
    assert forall|i: int| 0 <= i < kept.len() implies #[trigger] roster[i] == roles[i] by {
        let row = kept[i];
        assert(kept.contains(row));
        lemma_filter_contains(state.members, here, row);
        let at = choose|at: int| 0 <= at < state.members.len() && state.members[at] == row;
        assert(some_item(state.participants, participant_is(state.members[at].participant_id)));
        lemma_position(state.participants, participant_is(row.participant_id));
    }
    assert(roster =~= roles);
}

/// A new message that its workspace has no reason to refuse is routed to
/// exactly the people it is for.
pub proof fn law_accepted_messages_are_routed(
    state: StoreState,
    input: NewWorkspaceMessageView,
    message_id: Uuid,
    now: Timestamp,
)
    requires
        state.wf(),
        members_known(state),
        message_refusal(input) is None,
        state.has_member(input.workspace_id, input.author_id),
        addressees_refusal(input, roster_entries(state, input.workspace_id)) is None,
        key_holder(state, candidate_event(input, message_id, now)) is None,
        append_refusal(state, candidate_event(input, message_id, now), true) is None,
    ensures
        route_outcome(state, input, message_id, now).0 is Ok,
        route_outcome(state, input, message_id, now).0->Ok_0.recipient_ids == addressees(
            input,
            roster_entries(state, input.workspace_id),
        ),
        route_outcome(state, input, message_id, now).0->Ok_0.message_id == message_id,
{
    let candidate = candidate_event(input, message_id, now);
    let members = roles_in(state.members, input.workspace_id);
    lemma_roster_is_members(state, input.workspace_id);
    lemma_audience_listed(input.audience, members);
    lemma_others(audience_ids(input.audience, members), input.author_id);
    let recipients = recipients_of(state, candidate);
    let outcome = append_outcome(state, candidate, true);
    let stored = sequenced(state, candidate);
    lemma_sequence_step(state, candidate);
    assert forall|id: Uuid| #[trigger] recipients.contains(id) <==> some_item(
        outcome.1.deliveries,
        delivery_is(stored.workspace_id, stored.sequence, id),
    ) by {
        lemma_new_delivery(state, candidate, recipients, id);
    }
    assert(is_reached(outcome.1.deliveries, stored.workspace_id, stored.sequence, recipients));
    lemma_reached(outcome.1, stored.workspace_id, stored.sequence, recipients);
}

/// Who an event reached can be listed.
pub proof fn lemma_reached_exists(state: StoreState, workspace_id: Uuid, sequence: u64)
    ensures
        is_reached(
            state.deliveries,
            workspace_id,
            sequence,
            reached(state, workspace_id, sequence),
        ),
{
    let own = |row: DeliveryRowView|
        row.delivery.workspace_id == workspace_id && row.delivery.sequence == sequence;
    let rows = state.deliveries.filter(own);
    let list = rows.map_values(|row: DeliveryRowView| row.delivery.recipient_id);
    let ids = lemma_increasing_exists(list);
    assert forall|id: Uuid| #[trigger] ids.contains(id) <==> some_item(
        state.deliveries,
        delivery_is(workspace_id, sequence, id),
    ) by {
        let selected = delivery_is(workspace_id, sequence, id);
        lemma_position(state.deliveries, selected);
        if list.contains(id) {
            let i = choose|i: int| 0 <= i < list.len() && list[i] == id;
            assert(rows.contains(rows[i]));
            lemma_filter_contains(state.deliveries, own, rows[i]);
            let k = choose|k: int|
                0 <= k < state.deliveries.len() && state.deliveries[k] == rows[i];
            lemma_some_item(state.deliveries, selected, k);
        }
        if some_item(state.deliveries, selected) {
            let row = state.deliveries[position(state.deliveries, selected)->Some_0];
            assert(state.deliveries.contains(row));
            lemma_filter_contains(state.deliveries, own, row);
            let i = choose|i: int| 0 <= i < rows.len() && rows[i] == row;
            assert(list[i] == id);
        }
    }
    assert(is_reached(state.deliveries, workspace_id, sequence, ids));
}

/// Whether a store goes on from an earlier one as far as one message is concerned:
/// the journal holds what it held, the message has reached the same people, and the
/// workspace has the same members in the same roles.
pub open spec fn goes_on(
    before: StoreState,
    after: StoreState,
    workspace_id: Uuid,
    sequence: u64,
) -> bool {
    &&& before.events.is_prefix_of(after.events)
    &&& forall|id: Uuid| #[trigger]
        some_item(after.deliveries, delivery_is(workspace_id, sequence, id)) <==> some_item(
            before.deliveries,
            delivery_is(workspace_id, sequence, id),
        )
    &&& roster_roles(roster_entries(after, workspace_id)) == roster_roles(
        roster_entries(before, workspace_id),
    )
    &&& forall|id: Uuid| #[trigger]
        after.has_member(workspace_id, id) <==> before.has_member(workspace_id, id)
}

/// Routing a message again, under whatever identity and at whatever time, and
/// whatever has become of the store since, returns the first receipt and changes
/// nothing, as long as the journal, the deliveries of the message and the roster
/// are kept.
pub proof fn law_routing_is_idempotent(
    state: StoreState,
    input: NewWorkspaceMessageView,
    message_id: Uuid,
    now: Timestamp,
    later: StoreState,
    other_id: Uuid,
    again: Timestamp,
)
    requires
        route_outcome(state, input, message_id, now).0 is Ok,
        goes_on(
            route_outcome(state, input, message_id, now).1,
            later,
            input.workspace_id,
            route_outcome(state, input, message_id, now).0->Ok_0.sequence,
        ),
    ensures
        route_outcome(later, input, other_id, again) == (
            route_outcome(state, input, message_id, now).0,
            later,
        ),
{
    let (receipt, after) = route_outcome(state, input, message_id, now);
    let sequence = receipt->Ok_0.sequence;
    let keyed = event_keyed(input.workspace_id, input.author_id, input.idempotency_key);
    assert(roster_entries(after, input.workspace_id) == roster_entries(state, input.workspace_id));
    if position(state.events, keyed) is None {
        let candidate = candidate_event(input, message_id, now);
        assert(key_holder(state, candidate) is None);
        let stored = sequenced(state, candidate);
        lemma_position_push(state.events, stored, keyed);
        assert(keyed(stored));
        assert(after.events[state.events.len() as int] == stored);
        assert(carries(stored, input));
    }
    lemma_key_stays(after.events, later.events, keyed);
    lemma_reached_exists(after, input.workspace_id, sequence);
    let ids = reached(after, input.workspace_id, sequence);
    assert(is_reached(later.deliveries, input.workspace_id, sequence, ids)) by {
        assert forall|id: Uuid| #[trigger] ids.contains(id) <==> some_item(
            later.deliveries,
            delivery_is(input.workspace_id, sequence, id),
        ) by {
            assert(some_item(
                after.deliveries,
                delivery_is(input.workspace_id, sequence, id),
            ) <==> ids.contains(id));
        }
    }
    lemma_reached(later, input.workspace_id, sequence, ids);
    assert(after.has_member(input.workspace_id, input.author_id));
    assert(later.has_member(input.workspace_id, input.author_id));
}

/// A store goes on, as far as a message that it holds is concerned, when an event
/// is appended.
pub proof fn law_appends_go_on(
    state: StoreState,
    event: WorkspaceEventView,
    validate_references: bool,
    workspace_id: Uuid,
    sequence: u64,
)
    requires
        state.wf(),
        some_item(state.events, event_at(workspace_id, sequence)),
    ensures
        goes_on(
            state,
            append_outcome(state, event, validate_references).1,
            workspace_id,
            sequence,
        ),
{
    let after = append_outcome(state, event, validate_references).1;
    law_append_only(state, event, validate_references);
    lemma_position(state.events, event_at(workspace_id, sequence));
    let at = position(state.events, event_at(workspace_id, sequence))->Some_0;
    assert(state.events[at].sequence == sequence);
    assert forall|id: Uuid| #[trigger]
        some_item(after.deliveries, delivery_is(workspace_id, sequence, id)) <==> some_item(
            state.deliveries,
            delivery_is(workspace_id, sequence, id),
        ) by {
        let selected = delivery_is(workspace_id, sequence, id);
        lemma_position(state.deliveries, selected);
        lemma_position(after.deliveries, selected);
        if some_item(state.deliveries, selected) {
            let k = position(state.deliveries, selected)->Some_0;
            assert(after.deliveries[k] == state.deliveries[k]);
            lemma_some_item(after.deliveries, selected, k);
        }
        if some_item(after.deliveries, selected) {
            let k = position(after.deliveries, selected)->Some_0;
            if k < state.deliveries.len() {
                assert(after.deliveries[k] == state.deliveries[k]);
                lemma_some_item(state.deliveries, selected, k);
            } else {
                let stored = sequenced(state, event);
                let added = fanned(
                    stored.workspace_id,
                    stored.sequence,
                    recipients_of(state, event),
                    mode_of(stored.kind),
                    is_message(stored.kind),
                );
                assert(after.deliveries[k] == added[k - state.deliveries.len()]);
            }
        }
    }
}

/// A store goes on, as far as a message that it holds is concerned, when a
/// delivery moves.
pub proof fn law_moves_go_on(
    state: StoreState,
    moved_in: Uuid,
    moved_at: u64,
    recipient_id: Uuid,
    next: DeliveryState,
    attempt: Option<DeliveryAttemptView>,
    workspace_id: Uuid,
    sequence: u64,
)
    ensures
        goes_on(
            state,
            transition_outcome(state, moved_in, moved_at, recipient_id, next, attempt).1,
            workspace_id,
            sequence,
        ),
{
    let after = transition_outcome(state, moved_in, moved_at, recipient_id, next, attempt).1;
    let own = delivery_is(moved_in, moved_at, recipient_id);
    lemma_position(state.deliveries, own);
    if after != state {
        let index = position(state.deliveries, own)->Some_0;
        assert forall|id: Uuid| #[trigger]
            some_item(after.deliveries, delivery_is(workspace_id, sequence, id)) <==> some_item(
                state.deliveries,
                delivery_is(workspace_id, sequence, id),
            ) by {
            lemma_position_update(
                state.deliveries,
                index,
                after.deliveries[index],
                delivery_is(workspace_id, sequence, id),
            );
        }
    }
}

/// Projecting keeps what stands under a key.
proof fn lemma_projection_keeps_keys(
    state: StoreState,
    events: Seq<WorkspaceEventView>,
    count: nat,
    keyed: spec_fn(WorkspaceEventView) -> bool,
    index: int,
)
    requires
        position(state.events, keyed) == Some(index),
        project_first(state, events, count) is Ok,
    ensures
        ({
            let after = project_first(state, events, count)->Ok_0;
            &&& position(after.events, keyed) == Some(index)
            &&& after.events[index] == state.events[index]
            &&& after.members == state.members
        }),
    decreases count,
{
    lemma_position(state.events, keyed);
    if count > 0 {
        lemma_projection_keeps_keys(state, events, (count - 1) as nat, keyed, index);
        let before = project_first(state, events, (count - 1) as nat)->Ok_0;
        let event = events[count - 1];
        lemma_position(before.events, keyed);
        if key_holder(before, event) is None {
            lemma_position_push(before.events, sequenced(before, event), keyed);
        }
    }
}

/// After the first events of a batch are projected, the rest follows from there.
proof fn lemma_projection_splits(
    state: StoreState,
    events: Seq<WorkspaceEventView>,
    first: nat,
    count: nat,
)
    requires
        first <= count <= events.len(),
        project_first(state, events, first) is Ok,
    ensures
        project_first(state, events, count) == project_first(
            project_first(state, events, first)->Ok_0,
            events.skip(first as int),
            (count - first) as nat,
        ),
    decreases count,
{
    if count > first {
        lemma_projection_splits(state, events, first, (count - 1) as nat);
        assert(events.skip(first as int)[count - 1 - first] == events[count - 1]);
    }
}

/// Projecting never changes who belongs where.
proof fn lemma_projection_keeps_members(
    state: StoreState,
    events: Seq<WorkspaceEventView>,
    count: nat,
)
    requires
        project_first(state, events, count) is Ok,
    ensures
        project_first(state, events, count)->Ok_0.members == state.members,
    decreases count,
{
    if count > 0 {
        lemma_projection_keeps_members(state, events, (count - 1) as nat);
    }
}

/// Projecting a batch again changes nothing, so a restart may replay what it has
/// already projected.
pub proof fn law_projection_is_idempotent(state: StoreState, events: Seq<WorkspaceEventView>)
    requires
        project_batch(state, events) is Ok,
    ensures
        project_batch(project_batch(state, events)->Ok_0, events) == project_batch(state, events),
{
    let after = project_batch(state, events)->Ok_0;
    lemma_projection_again(state, events, after, events.len());
}

/// Once a batch is projected, the watermark of a session covers every sequence
/// that the batch carries: a restart that replays above it misses nothing.
pub proof fn law_watermark_covers_projection(
    state: StoreState,
    events: Seq<WorkspaceEventView>,
    index: int,
    session_id: Uuid,
)
    requires
        project_batch(state, events) is Ok,
        0 <= index < events.len(),
        projects(events[index].workspace_id, session_id)(events[index]),
    ensures
        projected_at(
            project_batch(state, events)->Ok_0.events,
            events[index].workspace_id,
            session_id,
            session_sequence(events[index]),
        ),
{
    let after = project_batch(state, events)->Ok_0;
    let event = events[index];
    lemma_projection_again(state, events, after, index as nat);
    lemma_projection_again(state, events, after, (index + 1) as nat);
    assert(project_one(after, event) == Ok::<StoreState, WorkspaceError>(after));
    let keyed = event_keyed(event.workspace_id, event.author_id, event.idempotency_key);
    lemma_position(after.events, keyed);
    match key_holder(after, event) {
        Some(at) => {
            let held = after.events[at];
            assert(canonical(held) == canonical(event));
            assert(canonical(held).kind == canonical(event).kind);
            assert(projects(event.workspace_id, session_id)(after.events[at]));
        },
        None => {
            assert(recorded(after, event, projection_recipients(after, event)).events.len()
                == after.events.len() + 1);
        },
    }
}

/// Projecting a batch that is projected changes nothing, part by part.
proof fn lemma_projection_again(
    state: StoreState,
    events: Seq<WorkspaceEventView>,
    after: StoreState,
    count: nat,
)
    requires
        project_first(state, events, events.len()) == Ok::<StoreState, WorkspaceError>(after),
        count <= events.len(),
    ensures
        project_first(after, events, count) == Ok::<StoreState, WorkspaceError>(after),
    decreases count,
{
    if count > 0 {
        lemma_projection_again(state, events, after, (count - 1) as nat);
        let event = events[count - 1];
        lemma_projection_prefix(state, events, (count - 1) as nat, events.len());
        lemma_projection_prefix(state, events, count, events.len());
        let before = project_first(state, events, (count - 1) as nat)->Ok_0;
        let then = project_first(state, events, count)->Ok_0;
        lemma_projection_keeps_members(state, events, (count - 1) as nat);
        lemma_projection_keeps_members(state, events, events.len());
        let keyed = event_keyed(event.workspace_id, event.author_id, event.idempotency_key);
        lemma_position(before.events, keyed);
        let index = match key_holder(before, event) {
            Some(index) => index,
            None => before.events.len() as int,
        };
        if key_holder(before, event) is None {
            let stored = sequenced(before, event);
            lemma_position_push(before.events, stored, keyed);
            assert(keyed(stored));
            assert(canonical(stored) == canonical(event));
            assert(then.events[index] == stored);
        }
        assert(position(then.events, keyed) == Some(index));
        assert(canonical(then.events[index]) == canonical(event));
        lemma_projection_splits(state, events, count, events.len());
        lemma_projection_keeps_keys(
            then,
            events.skip(count as int),
            (events.len() - count) as nat,
            keyed,
            index,
        );
        assert(project_one(after, event) == Ok::<StoreState, WorkspaceError>(after));
    }
}

/// Where a whole batch is projected, every first part of it is.
proof fn lemma_projection_prefix(
    state: StoreState,
    events: Seq<WorkspaceEventView>,
    first: nat,
    count: nat,
)
    requires
        first <= count,
        project_first(state, events, count) is Ok,
    ensures
        project_first(state, events, first) is Ok,
    decreases count,
{
    if first < count {
        lemma_projection_prefix(state, events, first, (count - 1) as nat);
    }
}

} // verus!
