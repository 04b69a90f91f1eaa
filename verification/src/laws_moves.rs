//! What becomes of a delivery, a lease and an instance that are moved on, told row by
//! row.

use crate::delivery::{message_transition_outcome, moved, sequence_of, transition_outcome};
use crate::error::WorkspaceError;
use crate::facts::{belongs, lemma_belongs, lemma_sent, was_sent};
use crate::instances::{
    after_reaping, after_report, instance_view, known_instance, listed, listing, reaped,
    with_instance,
};
use crate::laws_reading::law_messages_are_found_by_identity;
use crate::model::{lemma_filter_contains, lemma_position, position};
use crate::presence::{lease_refusal, leased_in, running, with_lease};
use crate::store::{
    delivery_is, instance_is, instances_ok, lease_is, leases_ok, InstanceRowView, StoreState,
};
use crate::time::Timestamp;
use crate::workspace::{
    AgentInstanceView, DeliveryAttemptView, DeliveryState, ParticipantKind, PresenceLease,
    RecipientDeliveryView, Uuid,
};
use vstd::prelude::*;

verus! {

/// The steps that a delivery can take.
pub open spec fn is_step(from: DeliveryState, to: DeliveryState) -> bool {
    ||| from == DeliveryState::Pending && to == DeliveryState::Relayed
    ||| from == DeliveryState::Pending && to == DeliveryState::Admitted
    ||| from == DeliveryState::Pending && to == DeliveryState::Failed
    ||| from == DeliveryState::Pending && to == DeliveryState::Recalled
    ||| from == DeliveryState::Relayed && to == DeliveryState::Acknowledged
    ||| from == DeliveryState::Relayed && to == DeliveryState::Failed
    ||| from == DeliveryState::Admitted && to == DeliveryState::Acknowledged
    ||| from == DeliveryState::Admitted && to == DeliveryState::Failed
    ||| from == DeliveryState::Failed && to == DeliveryState::Pending
}

/// A delivery that is told the state it is in stays as it is; one that takes a step
/// gets the new state, counts and keeps the attempt that came with it, if one did,
/// and stays what it was otherwise; and nothing else can be asked of it. The count of
/// attempts has an end.
pub proof fn law_deliveries_take_steps(
    delivery: RecipientDeliveryView,
    next: DeliveryState,
    attempt: Option<DeliveryAttemptView>,
)
    ensures
        ({
            let res = moved(delivery, next, attempt);
            if delivery.state == next {
                res == Ok::<RecipientDeliveryView, WorkspaceError>(delivery)
            } else if !is_step(delivery.state, next) {
                res == Err::<RecipientDeliveryView, WorkspaceError>(
                    WorkspaceError::InvalidTransition,
                )
            } else if attempt is Some && delivery.attempts == u32::MAX {
                res == Err::<RecipientDeliveryView, WorkspaceError>(WorkspaceError::OutOfRange)
            } else {
                &&& res is Ok
                &&& res->Ok_0.state == next
                &&& attempt is Some ==> res->Ok_0.attempts == delivery.attempts + 1
                    && res->Ok_0.last_attempt == attempt
                &&& attempt is None ==> res->Ok_0.attempts == delivery.attempts
                    && res->Ok_0.last_attempt == delivery.last_attempt
                &&& res->Ok_0.workspace_id == delivery.workspace_id
                &&& res->Ok_0.sequence == delivery.sequence
                &&& res->Ok_0.recipient_id == delivery.recipient_id
                &&& res->Ok_0.mode == delivery.mode
            }
        }),
{
}

/// A transition moves the one delivery that it names and nothing else, and says what
/// became of it. It is refused, and changes nothing, where no such delivery is there,
/// or where the delivery cannot take the step.
pub proof fn law_transitions_move_one_delivery(
    state: StoreState,
    workspace_id: Uuid,
    sequence: u64,
    recipient_id: Uuid,
    next: DeliveryState,
    attempt: Option<DeliveryAttemptView>,
)
    requires
        state.wf(),
    ensures
        ({
            let outcome = transition_outcome(
                state,
                workspace_id,
                sequence,
                recipient_id,
                next,
                attempt,
            );
            let after = outcome.1;
            &&& sequence > i64::MAX ==> outcome == (
                Err::<RecipientDeliveryView, WorkspaceError>(WorkspaceError::OutOfRange),
                state,
            )
            &&& sequence <= i64::MAX && !was_sent(state, workspace_id, sequence, recipient_id)
                ==> outcome == (
                Err::<RecipientDeliveryView, WorkspaceError>(WorkspaceError::NoDelivery),
                state,
            )
            &&& forall|i: int|
                0 <= i < state.deliveries.len() && sequence <= i64::MAX && (
                #[trigger] state.deliveries[i]).delivery.workspace_id == workspace_id
                    && state.deliveries[i].delivery.sequence == sequence
                    && state.deliveries[i].delivery.recipient_id == recipient_id ==> {
                    &&& outcome.0 == moved(state.deliveries[i].delivery, next, attempt)
                    &&& outcome.0 is Err ==> after == state
                    &&& outcome.0 is Ok ==> {
                        &&& after.deliveries.len() == state.deliveries.len()
                        &&& after.deliveries[i].delivery == outcome.0->Ok_0
                        &&& after.deliveries[i].is_message == state.deliveries[i].is_message
                        &&& forall|j: int|
                            0 <= j < state.deliveries.len() && j != i ==> #[trigger] after.deliveries[j]
                                == state.deliveries[j]
                        &&& after == (StoreState { deliveries: after.deliveries, ..state })
                    }
                }
        }),
{
    let own = delivery_is(workspace_id, sequence, recipient_id);
    lemma_position(state.deliveries, own);
    lemma_sent(state, workspace_id, sequence, recipient_id);
    assert forall|i: int|
        0 <= i < state.deliveries.len() && (#[trigger] state.deliveries[i]).delivery.workspace_id
            == workspace_id && state.deliveries[i].delivery.sequence == sequence
            && state.deliveries[i].delivery.recipient_id == recipient_id implies position(
        state.deliveries,
        own,
    ) == Some(i) by {
        assert(own(state.deliveries[i]));
        let at = position(state.deliveries, own)->Some_0;
        if at < i {
            assert(own(state.deliveries[at]));
            assert(!(state.deliveries[at].delivery.workspace_id
                == state.deliveries[i].delivery.workspace_id
                && state.deliveries[at].delivery.sequence == state.deliveries[i].delivery.sequence
                && state.deliveries[at].delivery.recipient_id
                == state.deliveries[i].delivery.recipient_id));
        }
    }
}

/// A transition that names a message moves the delivery at the sequence of that
/// message. Where there is no such message in the workspace, or it was not sent to
/// the recipient, there is nothing to move, which is no error.
pub proof fn law_message_transitions_move_that_message(
    state: StoreState,
    workspace_id: Uuid,
    message_id: Uuid,
    recipient_id: Uuid,
    next: DeliveryState,
    attempt: Option<DeliveryAttemptView>,
)
    requires
        state.wf(),
    ensures
        ({
            let outcome = message_transition_outcome(
                state,
                workspace_id,
                message_id,
                recipient_id,
                next,
                attempt,
            );
            &&& (forall|i: int|
                0 <= i < state.events.len() && (#[trigger] state.events[i]).id == message_id
                    && state.events[i].workspace_id == workspace_id
                    && state.events[i].kind is Message ==> !was_sent(
                    state,
                    workspace_id,
                    state.events[i].sequence,
                    recipient_id,
                )) ==> outcome == (
                Ok::<Option<RecipientDeliveryView>, WorkspaceError>(None),
                state,
            )
            &&& forall|i: int|
                0 <= i < state.events.len() && (#[trigger] state.events[i]).id == message_id
                    && state.events[i].workspace_id == workspace_id
                    && state.events[i].kind is Message && was_sent(
                    state,
                    workspace_id,
                    state.events[i].sequence,
                    recipient_id,
                ) && (forall|j: int|
                    0 <= j < state.events.len() && (#[trigger] state.events[j]).id == message_id
                        && state.events[j].workspace_id == workspace_id ==> j == i) ==> {
                    let moved = transition_outcome(
                        state,
                        workspace_id,
                        state.events[i].sequence,
                        recipient_id,
                        next,
                        attempt,
                    );
                    &&& outcome.1 == moved.1
                    &&& moved.0 is Ok ==> outcome.0 == Ok::<
                        Option<RecipientDeliveryView>,
                        WorkspaceError,
                    >(Some(moved.0->Ok_0))
                    &&& moved.0 is Err ==> outcome.0 == Err::<
                        Option<RecipientDeliveryView>,
                        WorkspaceError,
                    >(moved.0->Err_0)
                }
        }),
{
    law_messages_are_found_by_identity(state, workspace_id, message_id);
    let found = sequence_of(state.events, workspace_id, message_id);
    if let Some(sequence) = found {
        lemma_sent(state, workspace_id, sequence, recipient_id);
    }
}

/// A lease is taken exactly where it still runs and its holder belongs to the
/// workspace. A lease that has run out is told so first.
pub proof fn law_leases_are_for_members(state: StoreState, lease: PresenceLease, now: Timestamp)
    ensures
        ({
            let runs = now.secs < lease.expires_at.secs || (now.secs == lease.expires_at.secs
                && now.nanos < lease.expires_at.nanos);
            let inside = belongs(state, lease.workspace_id, lease.participant_id);
            &&& lease_refusal(state, lease, now) is None <==> runs && inside
            &&& lease_refusal(state, lease, now) == Some(WorkspaceError::LeaseExpired) <==> !runs
            &&& lease_refusal(state, lease, now) == Some(WorkspaceError::PresenceNotMember) <==> runs
                && !inside
        }),
{
    lemma_belongs(state, lease.workspace_id, lease.participant_id);
}

/// A lease that is taken is the client's only one on the workspace, whatever the
/// client held before, and no other lease changes.
pub proof fn law_leases_are_renewed(
    rows: Seq<PresenceLease>,
    lease: PresenceLease,
    row: PresenceLease,
)
    requires
        leases_ok(rows),
    ensures
        with_lease(rows, lease).contains(row) <==> if row.workspace_id == lease.workspace_id
            && row.participant_id == lease.participant_id && row.client_id == lease.client_id {
            row == lease
        } else {
            rows.contains(row)
        },
{
    let own = lease_is(lease.workspace_id, lease.participant_id, lease.client_id);
    let after = with_lease(rows, lease);
    lemma_position(rows, own);
    let at = match position(rows, own) {
        Some(at) => at,
        None => rows.len() as int,
    };
    assert(after[at] == lease);
    if after.contains(row) {
        let i = choose|i: int| 0 <= i < after.len() && after[i] == row;
        if i != at {
            assert(rows[i] == row);
            if own(row) {
                assert(position(rows, own) is Some);
                assert(own(rows[at]));
                if i < at {
                    assert(!(rows[i].workspace_id == rows[at].workspace_id
                        && rows[i].participant_id == rows[at].participant_id && rows[i].client_id
                        == rows[at].client_id));
                } else {
                    assert(!(rows[at].workspace_id == rows[i].workspace_id
                        && rows[at].participant_id == rows[i].participant_id && rows[at].client_id
                        == rows[i].client_id));
                }
            }
        }
    }
    if rows.contains(row) && !own(row) {
        let i = choose|i: int| 0 <= i < rows.len() && rows[i] == row;
        assert(after[i] == row);
    }
}

/// Who is present in a workspace: those whose lease on it runs beyond the time, and
/// nobody else. What is swept away are the leases that have run out, on whatever
/// workspace.
pub proof fn law_presence_is_a_running_lease(
    state: StoreState,
    workspace_id: Uuid,
    now: Timestamp,
    row: PresenceLease,
)
    ensures
        ({
            let runs = now.secs < row.expires_at.secs || (now.secs == row.expires_at.secs
                && now.nanos < row.expires_at.nanos);
            let kept = state.leases.filter(running(now));
            &&& kept.contains(row) <==> state.leases.contains(row) && runs
            &&& kept.filter(leased_in(workspace_id)).contains(row) <==> state.leases.contains(row)
                && runs && row.workspace_id == workspace_id
        }),
{
    lemma_filter_contains(state.leases, running(now), row);
    lemma_filter_contains(state.leases.filter(running(now)), leased_in(workspace_id), row);
}

/// What is known of a process: the row that has its participant, or nothing but the
/// participant.
pub proof fn law_what_is_known_of_a_process(rows: Seq<InstanceRowView>, id: Uuid)
    requires
        instances_ok(rows),
    ensures
        forall|i: int|
            0 <= i < rows.len() && (#[trigger] rows[i]).participant_id == id ==> known_instance(
                rows,
                id,
            ) == rows[i],
        (forall|i: int| 0 <= i < rows.len() ==> (#[trigger] rows[i]).participant_id != id) ==> {
            let row = known_instance(rows, id);
            &&& row.participant_id == id
            &&& row.host_id is None
            &&& row.workspace_id is None
            &&& row.seen_at is None
            &&& row.cwd is None
            &&& row.status is None
            &&& row.pid is None
            &&& row.exited_at is None
        },
{
    let own = instance_is(id);
    lemma_position(rows, own);
    assert forall|i: int| 0 <= i < rows.len() && (#[trigger] rows[i]).participant_id
        == id implies known_instance(rows, id) == rows[i] by {
        assert(own(rows[i]));
        let at = position(rows, own)->Some_0;
        if at < i {
            assert(rows[at].participant_id != rows[i].participant_id);
        }
    }
}

/// What is put down of a process replaces what was known of it, and no other process
/// is touched.
pub proof fn law_instances_are_replaced(
    rows: Seq<InstanceRowView>,
    put: InstanceRowView,
    row: InstanceRowView,
)
    requires
        instances_ok(rows),
    ensures
        with_instance(rows, put).contains(row) <==> if row.participant_id == put.participant_id {
            row == put
        } else {
            rows.contains(row)
        },
{
    let own = instance_is(put.participant_id);
    let after = with_instance(rows, put);
    lemma_position(rows, own);
    let at = match position(rows, own) {
        Some(at) => at,
        None => rows.len() as int,
    };
    assert(after[at] == put);
    if after.contains(row) {
        let i = choose|i: int| 0 <= i < after.len() && after[i] == row;
        if i != at {
            assert(rows[i] == row);
            if own(row) {
                assert(position(rows, own) is Some);
                assert(own(rows[at]));
                if i < at {
                    assert(rows[i].participant_id != rows[at].participant_id);
                } else {
                    assert(rows[at].participant_id != rows[i].participant_id);
                }
            }
        }
    }
    if rows.contains(row) && !own(row) {
        let i = choose|i: int| 0 <= i < rows.len() && rows[i] == row;
        assert(after[i] == row);
    }
}

/// A sweep tombstones exactly the instances that it names and that were not gone, at
/// the time of the sweep; everything else about them stays, and so does everyone
/// else. What it counts is what it tombstones.
pub proof fn law_sweeps_tombstone_what_they_name(
    row: InstanceRowView,
    ids: Seq<Uuid>,
    now: Timestamp,
)
    ensures
        ({
            let after = after_reaping(row, ids, now);
            let named = exists|i: int| 0 <= i < ids.len() && #[trigger] ids[i] == row.participant_id;
            &&& named && row.exited_at is None ==> after.exited_at == Some(now)
            &&& !(named && row.exited_at is None) ==> after.exited_at == row.exited_at
            &&& reaped(ids)(row) <==> named && row.exited_at is None
            &&& after.participant_id == row.participant_id
            &&& after.host_id == row.host_id
            &&& after.workspace_id == row.workspace_id
            &&& after.seen_at == row.seen_at
            &&& after.cwd == row.cwd
            &&& after.status == row.status
            &&& after.pid == row.pid
        }),
{
    if ids.contains(row.participant_id) {
        let i = choose|i: int| 0 <= i < ids.len() && ids[i] == row.participant_id;
        assert(ids[i] == row.participant_id);
    }
}

/// What a report leaves of an instance: what it says replaces what was known, what it
/// leaves out stays, the instance was seen at the time of the report, and it is gone
/// exactly where it is reported as stopped, or where nothing is reported of its status
/// and it was gone before. The first time it was found gone stays.
pub proof fn law_reports_say_what_is_known(
    known: InstanceRowView,
    host_id: Option<Uuid>,
    workspace_id: Option<Uuid>,
    cwd: Option<Seq<char>>,
    status: Option<Seq<char>>,
    now: Timestamp,
)
    ensures
        ({
            let after = after_report(known, host_id, workspace_id, cwd, status, now);
            &&& after.participant_id == known.participant_id
            &&& after.seen_at == Some(now)
            &&& after.pid == known.pid
            &&& host_id is Some ==> after.host_id == host_id
            &&& host_id is None ==> after.host_id == known.host_id
            &&& workspace_id is Some ==> after.workspace_id == workspace_id
            &&& workspace_id is None ==> after.workspace_id == known.workspace_id
            &&& cwd is Some ==> after.cwd == cwd
            &&& cwd is None ==> after.cwd == known.cwd
            &&& status is Some ==> after.status == status
            &&& status is None ==> after.status == known.status && after.exited_at
                == known.exited_at
            &&& status is Some && status->Some_0 != "stopped"@ ==> after.exited_at is None
            &&& status == Some("stopped"@) && known.exited_at is Some ==> after.exited_at
                == known.exited_at
            &&& status == Some("stopped"@) && known.exited_at is None ==> after.exited_at == Some(
                now,
            )
        }),
{
}

/// Who is listed: the agents among the participants, each with what is known of its
/// process; those whose process is gone only where they are asked for.
pub proof fn law_listings_show_agents(
    state: StoreState,
    include_exited: bool,
    shown: AgentInstanceView,
)
    ensures
        listing(state, include_exited).contains(shown) <==> {
            let row = known_instance(state.instances, shown.participant.id);
            &&& state.participants.contains(shown.participant)
            &&& shown.participant.kind == ParticipantKind::Agent
            &&& include_exited || row.exited_at is None
            &&& shown.host_id == row.host_id
            &&& shown.workspace_id == row.workspace_id
            &&& shown.seen_at == row.seen_at
            &&& shown.cwd == row.cwd
            &&& shown.status == row.status
            &&& shown.pid == row.pid
            &&& shown.exited_at == row.exited_at
        },
{
    let selected = listed(state.instances, include_exited);
    let kept = state.participants.filter(selected);
    let all = listing(state, include_exited);
    let person = shown.participant;
    lemma_filter_contains(state.participants, selected, person);
    if all.contains(shown) {
        let i = choose|i: int| 0 <= i < all.len() && all[i] == shown;
        assert(all[i] == instance_view(kept[i], known_instance(state.instances, kept[i].id)));
        assert(kept.contains(kept[i]));
        lemma_filter_contains(state.participants, selected, kept[i]);
    }
    if kept.contains(person) {
        let i = choose|i: int| 0 <= i < kept.len() && kept[i] == person;
        assert(all[i] == instance_view(person, known_instance(state.instances, person.id)));
        let row = known_instance(state.instances, person.id);
        if shown.host_id == row.host_id && shown.workspace_id == row.workspace_id && shown.seen_at
            == row.seen_at && shown.cwd == row.cwd && shown.status == row.status && shown.pid
            == row.pid && shown.exited_at == row.exited_at {
            assert(all[i] =~= shown);
        }
    }
}

} // verus!
