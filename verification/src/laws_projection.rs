//! What becomes of a session journal that is projected, told row by row.

use crate::append::{key_holder, lemma_others, lemma_recorded_wf, lemma_sequence_step, sequenced};
use crate::audience::is_listed;
use crate::error::WorkspaceError;
use crate::facts::{
    belongs, counts_from, exists_workspace, is_free, lemma_belongs, lemma_free, lemma_sent,
    says_the_same, stands_under, urgency, was_sent,
};
use crate::laws::lemma_new_delivery;
use crate::laws_admission::{has_room, lemma_counts, lemma_says_the_same};
use crate::model::{lemma_position, position};
use crate::projection::{
    compatible, ids_of, lemma_ids_distinct, project_batch, project_first, project_one,
    projection_recipients,
};
use crate::store::{delivery_ok, event_at, event_keyed, next_sequence, roles_in, StoreState};
use crate::workspace::{DeliveryState, Uuid, WorkspaceEventView};
use vstd::prelude::*;

verus! {

/// An event of a store was delivered to everyone who belongs to its workspace, but
/// for its author, and each of these deliveries is as it began.
pub open spec fn reached_everyone(state: StoreState, now: StoreState, i: int) -> bool {
    let event = now.events[i];
    &&& forall|id: Uuid| #[trigger]
        was_sent(now, event.workspace_id, event.sequence, id) <==> belongs(
            state,
            event.workspace_id,
            id,
        ) && id != event.author_id
    &&& forall|d: int|
        0 <= d < now.deliveries.len() && (#[trigger] now.deliveries[d]).delivery.workspace_id
            == event.workspace_id && now.deliveries[d].delivery.sequence == event.sequence ==> {
            &&& now.deliveries[d].delivery.mode == urgency(event.kind)
            &&& now.deliveries[d].delivery.state == DeliveryState::Pending
            &&& now.deliveries[d].delivery.attempts == 0
            &&& now.deliveries[d].delivery.last_attempt is None
            &&& !now.deliveries[d].is_message
        }
}

/// An event of a store is one of the first of a batch, but for its sequence.
pub open spec fn came_from(
    event: WorkspaceEventView,
    events: Seq<WorkspaceEventView>,
    count: nat,
) -> bool {
    exists|k: int|
        0 <= k < count && event == (WorkspaceEventView {
            sequence: event.sequence,
            ..#[trigger] events[k]
        })
}

/// An event stands in a store under its key.
pub open spec fn is_there(now: StoreState, event: WorkspaceEventView) -> bool {
    exists|i: int| #[trigger]
        stands_under(now, i, event.workspace_id, event.author_id, event.idempotency_key)
            && says_the_same(now.events[i], event)
}

/// What holds while a batch is projected.
spec fn goes_well(
    state: StoreState,
    now: StoreState,
    events: Seq<WorkspaceEventView>,
    count: nat,
) -> bool {
    &&& now.wf()
    &&& now.members == state.members
    &&& state.events.len() <= now.events.len()
    &&& forall|i: int| 0 <= i < state.events.len() ==> #[trigger] now.events[i] == state.events[i]
    &&& forall|i: int|
        state.events.len() <= i < now.events.len() ==> came_from(
            #[trigger] now.events[i],
            events,
            count,
        )
    &&& forall|i: int|
        state.events.len() <= i < now.events.len() ==> #[trigger] reached_everyone(state, now, i)
    &&& forall|k: int| 0 <= k < count ==> is_there(now, #[trigger] events[k])
}

/// One more event of a batch goes as well as those before it.
proof fn lemma_one_more(
    state: StoreState,
    now: StoreState,
    events: Seq<WorkspaceEventView>,
    count: nat,
)
    requires
        goes_well(state, now, events, count),
        count < events.len(),
        events[count as int].kind is SessionEvent,
        project_one(now, events[count as int]) is Ok,
    ensures
        goes_well(state, project_one(now, events[count as int])->Ok_0, events, count + 1),
{
    let event = events[count as int];
    let home = event.workspace_id;
    let then = project_one(now, event)->Ok_0;
    lemma_free(now, home, event.author_id, event.idempotency_key);
    assert forall|i: int|
        state.events.len() <= i < now.events.len() implies came_from(
        #[trigger] now.events[i],
        events,
        count + 1,
    ) by {
        assert(came_from(now.events[i], events, count));
        let k = choose|k: int|
            0 <= k < count && now.events[i] == (WorkspaceEventView {
                sequence: now.events[i].sequence,
                ..#[trigger] events[k]
            });
        assert(0 <= k < count + 1);
    }
    match key_holder(now, event) {
        Some(at) => {
            lemma_position(now.events, event_keyed(home, event.author_id, event.idempotency_key));
            lemma_says_the_same(now.events[at], event);
            assert(stands_under(now, at, home, event.author_id, event.idempotency_key));
            assert(is_there(now, event));
        },
        None => {
            let recipients = projection_recipients(now, event);
            let ids = ids_of(roles_in(now.members, home));
            lemma_ids_distinct(now.members, home);
            lemma_others(ids, event.author_id);
            lemma_recorded_wf(now, event, recipients, true);
            lemma_sequence_step(now, event);
            let stored = sequenced(now, event);
            let at = now.events.len() as int;
            assert(then.events[at] == stored);
            assert(stored =~= (WorkspaceEventView { sequence: stored.sequence, ..event }));
            assert(came_from(then.events[at], events, count + 1));
            assert(stands_under(then, at, home, event.author_id, event.idempotency_key));
            assert(says_the_same(then.events[at], event));
            assert(is_there(then, event));
            assert forall|k: int| 0 <= k < count implies is_there(then, #[trigger] events[k]) by {
                let earlier = events[k];
                assert(is_there(now, earlier));
                let i = choose|i: int| #[trigger]
                    stands_under(
                        now,
                        i,
                        earlier.workspace_id,
                        earlier.author_id,
                        earlier.idempotency_key,
                    ) && says_the_same(now.events[i], earlier);
                assert(then.events[i] == now.events[i]);
                assert(stands_under(
                    then,
                    i,
                    earlier.workspace_id,
                    earlier.author_id,
                    earlier.idempotency_key,
                ));
            }
            let n = now.deliveries.len() as int;
            assert(then.deliveries.len() == n + recipients.len());
            assert forall|d: int| 0 <= d < n implies #[trigger] then.deliveries[d]
                == now.deliveries[d] by {}
            assert forall|d: int| n <= d < then.deliveries.len() implies (
            #[trigger] then.deliveries[d]).delivery.sequence == stored.sequence
                && then.deliveries[d].delivery.workspace_id == home by {}
            assert forall|i: int| 0 <= i < now.events.len() implies {
                let other = #[trigger] now.events[i];
                other.workspace_id != home || other.sequence != stored.sequence
            } by {
                lemma_position(now.events, event_at(home, stored.sequence));
                assert(!event_at(home, stored.sequence)(now.events[i]));
            }
            assert forall|i: int| state.events.len() <= i < then.events.len() implies #[trigger]
                reached_everyone(state, then, i) by {
                if i < at {
                    assert(then.events[i] == now.events[i]);
                    assert(reached_everyone(state, now, i));
                    let other = now.events[i];
                    assert forall|id: Uuid| #[trigger]
                        was_sent(then, other.workspace_id, other.sequence, id) <==> was_sent(
                            now,
                            other.workspace_id,
                            other.sequence,
                            id,
                        ) by {
                        if was_sent(then, other.workspace_id, other.sequence, id) {
                            let d = choose|d: int|
                                0 <= d < then.deliveries.len() && (
                                #[trigger] then.deliveries[d]).delivery.workspace_id
                                    == other.workspace_id && then.deliveries[d].delivery.sequence
                                    == other.sequence && then.deliveries[d].delivery.recipient_id
                                    == id;
                            assert(d < n);
                            assert(now.deliveries[d].delivery.recipient_id == id);
                        }
                        if was_sent(now, other.workspace_id, other.sequence, id) {
                            let d = choose|d: int|
                                0 <= d < now.deliveries.len() && (
                                #[trigger] now.deliveries[d]).delivery.workspace_id
                                    == other.workspace_id && now.deliveries[d].delivery.sequence
                                    == other.sequence && now.deliveries[d].delivery.recipient_id
                                    == id;
                            assert(then.deliveries[d].delivery.recipient_id == id);
                        }
                    }
                    assert forall|d: int|
                        0 <= d < then.deliveries.len() && (
                        #[trigger] then.deliveries[d]).delivery.workspace_id == other.workspace_id
                            && then.deliveries[d].delivery.sequence == other.sequence implies {
                        &&& then.deliveries[d].delivery.mode == urgency(other.kind)
                        &&& then.deliveries[d].delivery.state == DeliveryState::Pending
                        &&& then.deliveries[d].delivery.attempts == 0
                        &&& then.deliveries[d].delivery.last_attempt is None
                        &&& !then.deliveries[d].is_message
                    } by {
                        assert(d < n);
                        assert(now.deliveries[d] == then.deliveries[d]);
                    }
                } else {
                    assert forall|id: Uuid| #[trigger]
                        was_sent(then, home, stored.sequence, id) <==> belongs(state, home, id) && id
                            != event.author_id by {
                        lemma_new_delivery(now, event, recipients, id);
                        lemma_sent(then, home, stored.sequence, id);
                        lemma_belongs(state, home, id);
                        let roles = roles_in(now.members, home);
                        if ids.contains(id) {
                            let k = choose|k: int| 0 <= k < ids.len() && ids[k] == id;
                            assert(roles[k].0 == id);
                        }
                        if is_listed(roles, id) {
                            let k = choose|k: int|
                                0 <= k < roles.len() && (#[trigger] roles[k]).0 == id;
                            assert(ids[k] == id);
                        }
                    }
                    assert forall|d: int|
                        0 <= d < then.deliveries.len() && (
                        #[trigger] then.deliveries[d]).delivery.workspace_id == home
                            && then.deliveries[d].delivery.sequence == stored.sequence implies {
                        &&& then.deliveries[d].delivery.mode == urgency(stored.kind)
                        &&& then.deliveries[d].delivery.state == DeliveryState::Pending
                        &&& then.deliveries[d].delivery.attempts == 0
                        &&& then.deliveries[d].delivery.last_attempt is None
                        &&& !then.deliveries[d].is_message
                    } by {
                        if d < n {
                            let row = now.deliveries[d];
                            assert(delivery_ok(row, now.events));
                            let behind = event_at(row.delivery.workspace_id, row.delivery.sequence);
                            lemma_position(now.events, behind);
                            let j = position(now.events, behind)->Some_0;
                            assert(behind(now.events[j]));
                            assert(false);
                        }
                    }
                }
            }
        },
    }
}

/// A batch that is projected goes well to the end.
proof fn lemma_goes_well(state: StoreState, events: Seq<WorkspaceEventView>, count: nat)
    requires
        state.wf(),
        count <= events.len(),
        forall|k: int| 0 <= k < events.len() ==> (#[trigger] events[k]).kind is SessionEvent,
        project_first(state, events, count) is Ok,
    ensures
        goes_well(state, project_first(state, events, count)->Ok_0, events, count),
    decreases count,
{
    if count > 0 {
        lemma_goes_well(state, events, (count - 1) as nat);
        assert(events[count - 1].kind is SessionEvent);
        lemma_one_more(
            state,
            project_first(state, events, (count - 1) as nat)->Ok_0,
            events,
            (count - 1) as nat,
        );
    }
}

/// After a batch is projected, each event of it stands in the journal under its key
/// and says what it said. One whose key was new is stored as it came, but for its
/// sequence, and was delivered to exactly those who belong to the workspace and are
/// not its author: whoever belongs to the workspace can read it, and nobody else.
pub proof fn law_projected_events_reach_everyone(
    state: StoreState,
    events: Seq<WorkspaceEventView>,
    k: int,
    id: Uuid,
)
    requires
        state.wf(),
        project_batch(state, events) is Ok,
        0 <= k < events.len(),
    ensures
        ({
            let after = project_batch(state, events)->Ok_0;
            let event = events[k];
            &&& exists|i: int| #[trigger]
                stands_under(after, i, event.workspace_id, event.author_id, event.idempotency_key)
                    && says_the_same(after.events[i], event)
            &&& is_free(state, event.workspace_id, event.author_id, event.idempotency_key)
                ==> forall|i: int| #[trigger]
                stands_under(after, i, event.workspace_id, event.author_id, event.idempotency_key)
                    ==> {
                    let sequence = after.events[i].sequence;
                    &&& state.events.len() <= i
                    &&& after.events[i].kind == event.kind
                    &&& was_sent(after, event.workspace_id, sequence, id) <==> belongs(
                        state,
                        event.workspace_id,
                        id,
                    ) && id != event.author_id
                    &&& (id == after.events[i].author_id || was_sent(
                        after,
                        event.workspace_id,
                        sequence,
                        id,
                    )) <==> belongs(state, event.workspace_id, id)
                    &&& forall|d: int|
                        0 <= d < after.deliveries.len() && (
                        #[trigger] after.deliveries[d]).delivery.workspace_id == event.workspace_id
                            && after.deliveries[d].delivery.sequence == sequence ==> {
                            &&& after.deliveries[d].delivery.mode == urgency(event.kind)
                            &&& after.deliveries[d].delivery.state == DeliveryState::Pending
                            &&& after.deliveries[d].delivery.attempts == 0
                            &&& after.deliveries[d].delivery.last_attempt is None
                            &&& !after.deliveries[d].is_message
                        }
                }
        }),
{
    let after = project_batch(state, events)->Ok_0;
    let event = events[k];
    let home = event.workspace_id;
    lemma_goes_well(state, events, events.len());
    assert(is_there(after, event));
    lemma_free(after, home, event.author_id, event.idempotency_key);
    let at = choose|i: int| #[trigger]
        stands_under(after, i, home, event.author_id, event.idempotency_key) && says_the_same(
            after.events[i],
            event,
        );
    lemma_projecting_needs_members(state, events, events.len(), k);
    if is_free(state, home, event.author_id, event.idempotency_key) {
        assert forall|i: int| #[trigger]
            stands_under(after, i, home, event.author_id, event.idempotency_key) implies {
            let sequence = after.events[i].sequence;
            &&& state.events.len() <= i
            &&& after.events[i].kind == event.kind
            &&& was_sent(after, home, sequence, id) <==> belongs(state, home, id) && id
                != event.author_id
            &&& (id == after.events[i].author_id || was_sent(after, home, sequence, id))
                <==> belongs(state, home, id)
            &&& forall|d: int|
                0 <= d < after.deliveries.len() && (
                #[trigger] after.deliveries[d]).delivery.workspace_id == home
                    && after.deliveries[d].delivery.sequence == sequence ==> {
                    &&& after.deliveries[d].delivery.mode == urgency(event.kind)
                    &&& after.deliveries[d].delivery.state == DeliveryState::Pending
                    &&& after.deliveries[d].delivery.attempts == 0
                    &&& after.deliveries[d].delivery.last_attempt is None
                    &&& !after.deliveries[d].is_message
                }
        } by {
            assert(i == at);
            if i < state.events.len() {
                assert(after.events[i] == state.events[i]);
                assert(stands_under(state, i, home, event.author_id, event.idempotency_key));
            }
            assert(reached_everyone(state, after, i));
        }
    }
}

/// Whoever wrote an event of a projected batch belongs to its workspace.
proof fn lemma_projecting_needs_members(
    state: StoreState,
    events: Seq<WorkspaceEventView>,
    count: nat,
    k: int,
)
    requires
        state.wf(),
        0 <= k < count <= events.len(),
        forall|j: int| 0 <= j < events.len() ==> (#[trigger] events[j]).kind is SessionEvent,
        project_first(state, events, count) is Ok,
    ensures
        belongs(state, events[k].workspace_id, events[k].author_id),
    decreases count,
{
    lemma_goes_well(state, events, (count - 1) as nat);
    if k == count - 1 {
        let now = project_first(state, events, (count - 1) as nat)->Ok_0;
        lemma_belongs(now, events[k].workspace_id, events[k].author_id);
        lemma_belongs(state, events[k].workspace_id, events[k].author_id);
    } else {
        lemma_projecting_needs_members(state, events, (count - 1) as nat, k);
    }
}

/// A projection adds nothing but the events of its batch, each as it came but for its
/// sequence, and keeps everything that was there.
pub proof fn law_projecting_adds_the_batch_alone(
    state: StoreState,
    events: Seq<WorkspaceEventView>,
)
    requires
        state.wf(),
        project_batch(state, events) is Ok,
    ensures
        ({
            let after = project_batch(state, events)->Ok_0;
            &&& after.wf()
            &&& state.events.len() <= after.events.len()
            &&& forall|i: int|
                0 <= i < state.events.len() ==> #[trigger] after.events[i] == state.events[i]
            &&& forall|i: int|
                state.events.len() <= i < after.events.len() ==> exists|k: int|
                    0 <= k < events.len() && #[trigger] after.events[i] == (WorkspaceEventView {
                        sequence: after.events[i].sequence,
                        ..#[trigger] events[k]
                    })
            &&& after.members == state.members
        }),
{
    lemma_goes_well(state, events, events.len());
    let after = project_batch(state, events)->Ok_0;
    assert forall|i: int| state.events.len() <= i < after.events.len() implies exists|k: int|
        0 <= k < events.len() && #[trigger] after.events[i] == (WorkspaceEventView {
            sequence: after.events[i].sequence,
            ..#[trigger] events[k]
        }) by {
        assert(came_from(after.events[i], events, events.len()));
    }
}

/// A batch is refused as incompatible exactly where two of its events are of
/// different workspaces, or one of them is no session event. An empty batch changes
/// nothing.
pub proof fn law_batches_are_of_one_workspace(state: StoreState, events: Seq<WorkspaceEventView>)
    ensures
        (exists|i: int|
            0 <= i < events.len() && !((#[trigger] events[i]).kind is SessionEvent)) || (exists|
            i: int,
            j: int,
        |
            0 <= i < events.len() && 0 <= j < events.len() && (#[trigger] events[i]).workspace_id
                != (#[trigger] events[j]).workspace_id) ==> project_batch(state, events) == Err::<
            StoreState,
            WorkspaceError,
        >(WorkspaceError::IncompatibleBatch),
        project_batch(state, events) == Err::<StoreState, WorkspaceError>(
            WorkspaceError::IncompatibleBatch,
        ) ==> (exists|i: int|
            0 <= i < events.len() && !((#[trigger] events[i]).kind is SessionEvent)) || (exists|
            i: int,
            j: int,
        |
            0 <= i < events.len() && 0 <= j < events.len() && (#[trigger] events[i]).workspace_id
                != (#[trigger] events[j]).workspace_id),
        events.len() == 0 ==> project_batch(state, events) == Ok::<StoreState, WorkspaceError>(
            state,
        ),
{
    if compatible(events) {
        assert forall|i: int, j: int| 0 <= i < events.len() && 0 <= j < events.len() implies (
        #[trigger] events[i]).workspace_id == (#[trigger] events[j]).workspace_id by {
            assert(events[i].workspace_id == events[0].workspace_id);
        }
        lemma_not_incompatible(state, events, events.len());
    } else {
        let i = choose|i: int|
            0 <= i < events.len() && !((#[trigger] events[i]).workspace_id
                == events[0].workspace_id && events[i].kind is SessionEvent);
        assert(events[i].workspace_id != events[0].workspace_id || !(
        events[i].kind is SessionEvent));
    }
}

/// An event is never refused for the batch that it is in.
proof fn lemma_not_incompatible(state: StoreState, events: Seq<WorkspaceEventView>, count: nat)
    ensures
        project_first(state, events, count) != Err::<StoreState, WorkspaceError>(
            WorkspaceError::IncompatibleBatch,
        ),
    decreases count,
{
    if count > 0 {
        lemma_not_incompatible(state, events, (count - 1) as nat);
    }
}

/// What becomes of one session event: it is refused where its author does not belong
/// to the workspace, where its key stands for something else, or where there is no
/// workspace or no sequence left; it is passed over where it was projected before;
/// and it is added otherwise.
pub proof fn law_session_events_are_projected_where_they_fit(
    state: StoreState,
    event: WorkspaceEventView,
)
    requires
        state.wf(),
    ensures
        ({
            let home = event.workspace_id;
            let res = project_one(state, event);
            let taken = |same: bool|
                exists|i: int| #[trigger]
                    stands_under(state, i, home, event.author_id, event.idempotency_key)
                        && says_the_same(state.events[i], event) == same;
            if !belongs(state, home, event.author_id) {
                res == Err::<StoreState, WorkspaceError>(WorkspaceError::AuthorNotMember)
            } else if taken(false) {
                res == Err::<StoreState, WorkspaceError>(WorkspaceError::IdempotencyConflict)
            } else if taken(true) {
                res == Ok::<StoreState, WorkspaceError>(state)
            } else if !exists_workspace(state, home) {
                res == Err::<StoreState, WorkspaceError>(
                    WorkspaceError::WorkspaceUnknown { workspace_id: home },
                )
            } else if !has_room(state, home) {
                res == Err::<StoreState, WorkspaceError>(WorkspaceError::SequenceExhausted)
            } else {
                res is Ok && res->Ok_0.events.len() == state.events.len() + 1 && counts_from(
                    state,
                    home,
                    res->Ok_0.events.last().sequence,
                )
            }
        }),
{
    let home = event.workspace_id;
    lemma_belongs(state, home, event.author_id);
    lemma_free(state, home, event.author_id, event.idempotency_key);
    lemma_counts(state, home);
    match key_holder(state, event) {
        Some(at) => {
            lemma_position(state.events, event_keyed(home, event.author_id, event.idempotency_key));
            lemma_says_the_same(state.events[at], event);
            assert(stands_under(state, at, home, event.author_id, event.idempotency_key));
        },
        None => {},
    }
    if next_sequence(state.workspaces, home) is Some {
        assert(counts_from(state, home, next_sequence(state.workspaces, home)->Some_0));
    }
}

/// A batch can be projected as far as its first events go.
proof fn lemma_good_batch(
    state: StoreState,
    events: Seq<WorkspaceEventView>,
    workspace_id: Uuid,
    next: u64,
    count: nat,
)
    requires
        is_good_batch(state, events, workspace_id, next),
        count <= events.len(),
    ensures
        project_first(state, events, count) is Ok,
        next_sequence(project_first(state, events, count)->Ok_0.workspaces, workspace_id) is Some,
        next_sequence(
            project_first(state, events, count)->Ok_0.workspaces,
            workspace_id,
        )->Some_0 <= next + count,
    decreases count,
{
    if count == 0 {
        lemma_counts(state, workspace_id);
    } else {
        lemma_good_batch(state, events, workspace_id, next, (count - 1) as nat);
        let now = project_first(state, events, (count - 1) as nat)->Ok_0;
        let event = events[count - 1];
        lemma_goes_well(state, events, (count - 1) as nat);
        lemma_belongs(now, workspace_id, event.author_id);
        lemma_belongs(state, workspace_id, event.author_id);
        lemma_free(now, workspace_id, event.author_id, event.idempotency_key);
        match key_holder(now, event) {
            Some(at) => {
                lemma_position(
                    now.events,
                    event_keyed(workspace_id, event.author_id, event.idempotency_key),
                );
                assert(stands_under(
                    now,
                    at,
                    workspace_id,
                    event.author_id,
                    event.idempotency_key,
                ));
                if at < state.events.len() {
                    assert(now.events[at] == state.events[at]);
                    assert(stands_under(
                        state,
                        at,
                        workspace_id,
                        event.author_id,
                        event.idempotency_key,
                    ));
                } else {
                    assert(came_from(now.events[at], events, (count - 1) as nat));
                    let j = choose|j: int|
                        0 <= j < count - 1 && now.events[at] == (WorkspaceEventView {
                            sequence: now.events[at].sequence,
                            ..#[trigger] events[j]
                        });
                    assert(says_the_same(events[j], events[count - 1]));
                }
                lemma_says_the_same(now.events[at], event);
            },
            None => {
                lemma_sequence_step(now, event);
            },
        }
    }
}

/// A batch of session events of one workspace that are written by people who belong
/// to it, under keys that stand for nothing else, and for which there are sequences
/// enough.
pub open spec fn is_good_batch(
    state: StoreState,
    events: Seq<WorkspaceEventView>,
    workspace_id: Uuid,
    next: u64,
) -> bool {
    &&& state.wf()
    &&& counts_from(state, workspace_id, next)
    &&& next + events.len() < i64::MAX
    &&& forall|k: int|
        0 <= k < events.len() ==> (#[trigger] events[k]).kind is SessionEvent
            && events[k].workspace_id == workspace_id && belongs(
            state,
            workspace_id,
            events[k].author_id,
        )
    &&& forall|k: int, i: int|
        0 <= k < events.len() && stands_under(
            state,
            i,
            workspace_id,
            (#[trigger] events[k]).author_id,
            events[k].idempotency_key,
        ) ==> says_the_same(#[trigger] state.events[i], events[k])
    &&& forall|j: int, k: int|
        0 <= j < events.len() && 0 <= k < events.len() && (#[trigger] events[j]).author_id == (
        #[trigger] events[k]).author_id && events[j].idempotency_key == events[k].idempotency_key
            ==> says_the_same(events[j], events[k])
}

/// A good batch is projected.
pub proof fn law_good_batches_are_projected(
    state: StoreState,
    events: Seq<WorkspaceEventView>,
    workspace_id: Uuid,
    next: u64,
)
    requires
        is_good_batch(state, events, workspace_id, next),
    ensures
        project_batch(state, events) is Ok,
{
    lemma_good_batch(state, events, workspace_id, next, events.len());
}

} // verus!
