//! Deliveries: how they move, and what their recipients read.

use crate::append::result_view;
use crate::audience::{increasing, insert_increasing};
use crate::error::WorkspaceError;
use crate::facts::{belongs, is_free, lemma_belongs, lemma_free, lemma_sent, was_sent};
use crate::laws_reading::{
    law_deliveries_are_read_after_the_cursor, law_messages_are_found_by_identity,
    law_replays_show_what_a_viewer_may_see, law_waiting_messages_are_the_pending_ones,
};
use crate::model::{
    arrange, arranged, find, first_items, lemma_filter_contains, lemma_position, lemma_some_item,
    lemma_views_update, option_view, position, select, some_item, views, Ranked, Row,
};
use crate::store::{
    deliveries_ok, delivery_is, delivery_ok, event_at, event_keyed, is_message, member_is,
    DeliveryRow, DeliveryRowView, StoreState, WorkspaceTables, MAX_COLUMN,
};
use crate::time::Timestamp;
use crate::workspace::{
    DeliveryAttempt, DeliveryAttemptView, DeliveryState, RecipientDelivery, RecipientDeliveryView,
    Uuid, WorkspaceEvent, WorkspaceEventKind, WorkspaceEventView, WorkspaceMembership,
};
use vstd::prelude::*;

verus! {

/// The states that a delivery may move to. A failed delivery may be tried
/// again; an acknowledged or recalled one is done.
pub open spec fn may_move(from: DeliveryState, to: DeliveryState) -> bool {
    match from {
        DeliveryState::Pending => to == DeliveryState::Relayed || to == DeliveryState::Admitted
            || to == DeliveryState::Failed || to == DeliveryState::Recalled,
        DeliveryState::Relayed => to == DeliveryState::Relayed || to == DeliveryState::Acknowledged
            || to == DeliveryState::Failed,
        DeliveryState::Admitted => to == DeliveryState::Acknowledged || to == DeliveryState::Failed,
        DeliveryState::Failed => to == DeliveryState::Pending,
        DeliveryState::Acknowledged => false,
        DeliveryState::Recalled => false,
    }
}

/// Whether a delivery may move from one state to another.
pub fn allowed(from: DeliveryState, to: DeliveryState) -> (res: bool)
    ensures
        res == may_move(from, to),
{
    match from {
        DeliveryState::Pending => to == DeliveryState::Relayed || to == DeliveryState::Admitted
            || to == DeliveryState::Failed || to == DeliveryState::Recalled,
        DeliveryState::Relayed => to == DeliveryState::Relayed || to == DeliveryState::Acknowledged
            || to == DeliveryState::Failed,
        DeliveryState::Admitted => to == DeliveryState::Acknowledged || to == DeliveryState::Failed,
        DeliveryState::Failed => to == DeliveryState::Pending,
        DeliveryState::Acknowledged => false,
        DeliveryState::Recalled => false,
    }
}

/// A delivery after a transition, or why there is none. Repeating the current
/// state changes nothing, so a relay that retries is not punished; a change of
/// state counts the attempt that comes with it.
pub open spec fn moved(
    delivery: RecipientDeliveryView,
    next: DeliveryState,
    attempt: Option<DeliveryAttemptView>,
) -> Result<RecipientDeliveryView, WorkspaceError> {
    if delivery.state == next {
        Ok(delivery)
    } else if !may_move(delivery.state, next) {
        Err(WorkspaceError::InvalidTransition)
    } else if attempt is Some && delivery.attempts == u32::MAX {
        Err(WorkspaceError::OutOfRange)
    } else {
        Ok(
            RecipientDeliveryView {
                state: next,
                attempts: (delivery.attempts + if attempt is Some {
                    1int
                } else {
                    0
                }) as u32,
                last_attempt: if attempt is Some {
                    attempt
                } else {
                    delivery.last_attempt
                },
                ..delivery
            },
        )
    }
}

/// What a transition returns, and the tables after it.
pub open spec fn transition_outcome(
    state: StoreState,
    workspace_id: Uuid,
    sequence: u64,
    recipient_id: Uuid,
    next: DeliveryState,
    attempt: Option<DeliveryAttemptView>,
) -> (Result<RecipientDeliveryView, WorkspaceError>, StoreState) {
    if sequence > MAX_COLUMN {
        (Err(WorkspaceError::OutOfRange), state)
    } else {
        match position(state.deliveries, delivery_is(workspace_id, sequence, recipient_id)) {
            None => (Err(WorkspaceError::NoDelivery), state),
            Some(index) => match moved(state.deliveries[index].delivery, next, attempt) {
                Err(error) => (Err(error), state),
                Ok(delivery) => (
                    Ok(delivery),
                    StoreState {
                        deliveries: state.deliveries.update(
                            index,
                            DeliveryRowView { delivery, ..state.deliveries[index] },
                        ),
                        ..state
                    },
                ),
            },
        }
    }
}

/// Moving a delivery keeps the invariant of the deliveries.
proof fn lemma_moved_ok(
    rows: Seq<DeliveryRowView>,
    events: Seq<WorkspaceEventView>,
    index: int,
    row: DeliveryRowView,
)
    requires
        deliveries_ok(rows, events),
        0 <= index < rows.len(),
        row.is_message == rows[index].is_message,
        row.delivery.workspace_id == rows[index].delivery.workspace_id,
        row.delivery.sequence == rows[index].delivery.sequence,
        row.delivery.recipient_id == rows[index].delivery.recipient_id,
    ensures
        deliveries_ok(rows.update(index, row), events),
{
    let after = rows.update(index, row);
    assert forall|i: int| 0 <= i < after.len() implies delivery_ok(#[trigger] after[i], events) by {
        assert(delivery_ok(rows[i], events));
    }
    assert forall|i: int, j: int|
        0 <= i < j < after.len() && (#[trigger] after[i]).delivery.workspace_id == (
        #[trigger] after[j]).delivery.workspace_id implies after[i].delivery.sequence
        <= after[j].delivery.sequence by {
        assert(rows[i].delivery.workspace_id == rows[j].delivery.workspace_id);
    }
    assert forall|i: int, j: int| 0 <= i < j < after.len() implies !((
    #[trigger] after[i]).delivery.workspace_id == (#[trigger] after[j]).delivery.workspace_id
        && after[i].delivery.sequence == after[j].delivery.sequence
        && after[i].delivery.recipient_id == after[j].delivery.recipient_id) by {
        assert(rows[i].delivery.workspace_id != rows[j].delivery.workspace_id
            || rows[i].delivery.sequence != rows[j].delivery.sequence
            || rows[i].delivery.recipient_id != rows[j].delivery.recipient_id);
    }
}

/// A delivery after a transition, or why there is none.
pub fn move_delivery(
    delivery: &RecipientDelivery,
    next: DeliveryState,
    attempt: Option<DeliveryAttempt>,
) -> (res: Result<RecipientDelivery, WorkspaceError>)
    ensures
        result_view(res) == moved(delivery@, next, option_view(attempt)),
{
    if delivery.state == next {
        return Ok(delivery.clone());
    }
    if !allowed(delivery.state, next) {
        return Err(WorkspaceError::InvalidTransition);
    }
    let mut res = delivery.clone();
    if let Some(attempt) = attempt {
        if delivery.attempts == u32::MAX {
            return Err(WorkspaceError::OutOfRange);
        }
        res.attempts = delivery.attempts + 1;
        res.last_attempt = Some(attempt);
    }
    res.state = next;
    Ok(res)
}

/// Selects what a recipient was sent after a sequence.
pub open spec fn delivered_after(workspace_id: Uuid, recipient_id: Uuid, after: u64) -> spec_fn(
    DeliveryRowView,
) -> bool {
    |row: DeliveryRowView|
        row.delivery.workspace_id == workspace_id && row.delivery.recipient_id == recipient_id
            && row.delivery.sequence > after
}

/// Selects the messages that still wait for a recipient.
pub open spec fn pending_for(workspace_id: Uuid, recipient_id: Uuid) -> spec_fn(
    DeliveryRowView,
) -> bool {
    |row: DeliveryRowView|
        row.delivery.workspace_id == workspace_id && row.delivery.recipient_id == recipient_id
            && row.is_message && row.delivery.state == DeliveryState::Pending
}

/// Selects the event that has an identity and a sequence.
pub open spec fn event_is(id: Uuid, workspace_id: Uuid, sequence: u64) -> spec_fn(
    WorkspaceEventView,
) -> bool {
    |row: WorkspaceEventView|
        row.id == id && row.workspace_id == workspace_id && row.sequence == sequence
}

/// Selects the deliveries of the events that have an identity.
pub open spec fn delivery_under(events: Seq<WorkspaceEventView>, id: Uuid) -> spec_fn(
    DeliveryRowView,
) -> bool {
    |row: DeliveryRowView|
        some_item(events, event_is(id, row.delivery.workspace_id, row.delivery.sequence))
}

/// Selects what a viewer may read after a sequence: what they authored and what
/// was delivered to them, never another participant's private audience.
pub open spec fn visible_after(
    deliveries: Seq<DeliveryRowView>,
    workspace_id: Uuid,
    viewer_id: Uuid,
    after: u64,
) -> spec_fn(WorkspaceEventView) -> bool {
    |row: WorkspaceEventView|
        row.workspace_id == workspace_id && row.sequence > after && (row.author_id == viewer_id
            || some_item(deliveries, delivery_is(workspace_id, row.sequence, viewer_id)))
}

/// Selects a message by the identity of its event.
pub open spec fn message_event(id: Uuid) -> spec_fn(WorkspaceEventView) -> bool {
    |row: WorkspaceEventView| row.id == id && is_message(row.kind)
}

/// Selects a message of a workspace by the identity of its event.
pub open spec fn message_event_in(workspace_id: Uuid, id: Uuid) -> spec_fn(
    WorkspaceEventView,
) -> bool {
    |row: WorkspaceEventView|
        row.workspace_id == workspace_id && row.id == id && is_message(row.kind)
}

/// The deliveries in a list of rows.
pub open spec fn deliveries_in(rows: Seq<DeliveryRowView>) -> Seq<RecipientDeliveryView> {
    rows.map_values(|row: DeliveryRowView| row.delivery)
}

/// The event that a delivery belongs to.
pub open spec fn event_behind(
    events: Seq<WorkspaceEventView>,
    delivery: RecipientDeliveryView,
) -> WorkspaceEventView {
    events[position(events, event_at(delivery.workspace_id, delivery.sequence))->Some_0]
}

/// The recipients of an event, in increasing order.
pub open spec fn is_reached(
    deliveries: Seq<DeliveryRowView>,
    workspace_id: Uuid,
    sequence: u64,
    ids: Seq<Uuid>,
) -> bool {
    &&& increasing(ids)
    &&& forall|id: Uuid| #[trigger]
        ids.contains(id) <==> some_item(deliveries, delivery_is(workspace_id, sequence, id))
}

/// The sequence of a message in a workspace.
pub open spec fn sequence_of(
    events: Seq<WorkspaceEventView>,
    workspace_id: Uuid,
    id: Uuid,
) -> Option<u64> {
    match position(events, message_event_in(workspace_id, id)) {
        Some(index) => Some(events[index].sequence),
        None => None,
    }
}

/// What a transition by message returns, and the tables after it. Somebody
/// outside the audience has nothing to move, which is no error: a session must
/// not end over someone else's mail.
pub open spec fn message_transition_outcome(
    state: StoreState,
    workspace_id: Uuid,
    message_id: Uuid,
    recipient_id: Uuid,
    next: DeliveryState,
    attempt: Option<DeliveryAttemptView>,
) -> (Result<Option<RecipientDeliveryView>, WorkspaceError>, StoreState) {
    match sequence_of(state.events, workspace_id, message_id) {
        None => (Ok(None), state),
        Some(sequence) => if !some_item(
            state.deliveries,
            delivery_is(workspace_id, sequence, recipient_id),
        ) {
            (Ok(None), state)
        } else {
            let outcome = transition_outcome(
                state,
                workspace_id,
                sequence,
                recipient_id,
                next,
                attempt,
            );
            match outcome.0 {
                Ok(delivery) => (Ok(Some(delivery)), outcome.1),
                Err(error) => (Err(error), outcome.1),
            }
        },
    }
}

/// The sequence at which a message reached a recipient, where the message is known
/// and was addressed to the recipient: elsewhere there is nothing to move.
pub fn addressed_sequence(sequence: Option<u64>, reached: &Vec<Uuid>, recipient_id: Uuid) -> (res:
    Option<u64>)
    ensures
        res == if reached@.contains(recipient_id) {
            sequence
        } else {
            None
        },
{
    let mut index: usize = 0;
    while index < reached.len()
        invariant
            index <= reached.len(),
            forall|i: int| 0 <= i < index ==> #[trigger] reached@[i] != recipient_id,
        decreases reached.len() - index,
    {
        if reached[index] == recipient_id {
            return sequence;
        }
        index = index + 1;
    }
    None
}

impl Ranked for RecipientDelivery {
    open spec fn rank(value: RecipientDeliveryView) -> (Timestamp, u128) {
        (Timestamp { secs: 0, nanos: 0 }, value.recipient_id)
    }

    fn rank_of(&self) -> (res: (Timestamp, u128)) {
        (Timestamp::epoch(), self.recipient_id)
    }
}

impl Row for RecipientDelivery {
    fn duplicate(&self) -> (res: Self) {
        self.clone()
    }
}

/// The deliveries in a list of rows.
fn unwrap_rows(rows: &Vec<DeliveryRow>) -> (res: Vec<RecipientDelivery>)
    ensures
        views(res@) == deliveries_in(views(rows@)),
{
    let mut res: Vec<RecipientDelivery> = Vec::new();
    let mut index: usize = 0;
    while index < rows.len()
        invariant
            index <= rows.len(),
            res.len() == index,
            forall|i: int| 0 <= i < index ==> (#[trigger] res@[i])@ == rows@[i]@.delivery,
        decreases rows.len() - index,
    {
        res.push(rows[index].delivery.clone());
        index = index + 1;
    }
    assert(views(res@) =~= deliveries_in(views(rows@)));
    res
}

impl WorkspaceTables {
    /// Whether a participant belongs to a workspace.
    pub fn is_member(&self, workspace_id: Uuid, participant_id: Uuid) -> (res: bool)
        ensures
            res == self@.has_member(workspace_id, participant_id),
            res == belongs(self@, workspace_id, participant_id),
    {
        proof {
            lemma_belongs(self@, workspace_id, participant_id);
        }
        let test = |row: &WorkspaceMembership| -> (answer: bool)
            ensures
                answer == member_is(workspace_id, participant_id)(row@),
        { row.workspace_id == workspace_id && row.participant_id == participant_id };
        find(&self.members, test, Ghost(member_is(workspace_id, participant_id))).is_some()
    }

    /// Refuses a viewer who does not belong to the workspace.
    pub fn require_member(&self, workspace_id: Uuid, viewer_id: Uuid) -> (res: Result<
        (),
        WorkspaceError,
    >)
        ensures
            res == if self@.has_member(workspace_id, viewer_id) {
                Ok::<(), WorkspaceError>(())
            } else {
                Err(WorkspaceError::ViewerNotMember)
            },
            res is Ok <==> belongs(self@, workspace_id, viewer_id),
    {
        if self.is_member(workspace_id, viewer_id) {
            Ok(())
        } else {
            Err(WorkspaceError::ViewerNotMember)
        }
    }

    /// The position of one recipient's delivery.
    fn delivery_row(&self, workspace_id: Uuid, sequence: u64, recipient_id: Uuid) -> (res: Option<
        usize,
    >)
        ensures
            match res {
                Some(index) => position(
                    self@.deliveries,
                    delivery_is(workspace_id, sequence, recipient_id),
                ) == Some(index as int) && index < self.deliveries.len(),
                None => position(
                    self@.deliveries,
                    delivery_is(workspace_id, sequence, recipient_id),
                ) is None,
            },
    {
        let test = |row: &DeliveryRow| -> (answer: bool)
            ensures
                answer == delivery_is(workspace_id, sequence, recipient_id)(row@),
        {
            row.delivery.workspace_id == workspace_id && row.delivery.sequence == sequence
                && row.delivery.recipient_id == recipient_id
        };
        find(&self.deliveries, test, Ghost(delivery_is(workspace_id, sequence, recipient_id)))
    }

    /// Moves one recipient's delivery to another state.
    pub fn transition_delivery(
        &mut self,
        workspace_id: Uuid,
        sequence: u64,
        recipient_id: Uuid,
        next: DeliveryState,
        attempt: Option<DeliveryAttempt>,
    ) -> (res: Result<RecipientDelivery, WorkspaceError>)
        requires
            old(self)@.wf(),
        ensures
            result_view(res) == transition_outcome(
                old(self)@,
                workspace_id,
                sequence,
                recipient_id,
                next,
                option_view(attempt),
            ).0,
            final(self)@ == transition_outcome(
                old(self)@,
                workspace_id,
                sequence,
                recipient_id,
                next,
                option_view(attempt),
            ).1,
            final(self)@.wf(),
    {
        if sequence > MAX_COLUMN {
            return Err(WorkspaceError::OutOfRange);
        }
        match self.delivery_row(workspace_id, sequence, recipient_id) {
            None => Err(WorkspaceError::NoDelivery),
            Some(index) => {
                let ghost before = self@;
                assert(before.deliveries[index as int] == self.deliveries@[index as int]@);
                match move_delivery(&self.deliveries[index].delivery, next, attempt) {
                    Err(error) => Err(error),
                    Ok(delivery) => {
                        let row = DeliveryRow {
                            delivery: delivery.clone(),
                            is_message: self.deliveries[index].is_message,
                        };
                        proof {
                            lemma_views_update(self.deliveries@, index as int, row);
                            lemma_moved_ok(before.deliveries, before.events, index as int, row@);
                        }
                        self.deliveries.set(index, row);
                        Ok(delivery)
                    },
                }
            },
        }
    }

    /// The sequence of a message in this workspace, if it is there.
    pub fn message_sequence(&self, workspace_id: Uuid, message_id: Uuid) -> (res: Option<u64>)
        ensures
            res == sequence_of(self@.events, workspace_id, message_id),
            match res {
                Some(sequence) => exists|i: int|
                    0 <= i < self@.events.len() && (#[trigger] self@.events[i]).id == message_id
                        && self@.events[i].workspace_id == workspace_id
                        && self@.events[i].kind is Message && self@.events[i].sequence == sequence,
                None => forall|i: int|
                    0 <= i < self@.events.len() && (#[trigger] self@.events[i]).id == message_id
                        && self@.events[i].workspace_id == workspace_id
                        ==> !(self@.events[i].kind is Message),
            },
    {
        proof {
            law_messages_are_found_by_identity(self@, workspace_id, message_id);
        }
        let test = |row: &WorkspaceEvent| -> (answer: bool)
            ensures
                answer == message_event_in(workspace_id, message_id)(row@),
        {
            row.workspace_id == workspace_id && row.id == message_id && match &row.kind {
                WorkspaceEventKind::Message { .. } => true,
                _ => false,
            }
        };
        match find(&self.events, test, Ghost(message_event_in(workspace_id, message_id))) {
            Some(index) => {
                assert(self@.events[index as int] == self.events@[index as int]@);
                Some(self.events[index].sequence)
            },
            None => None,
        }
    }

    /// Moves a delivery that is addressed by message rather than sequence.
    pub fn transition_message_delivery(
        &mut self,
        workspace_id: Uuid,
        message_id: Uuid,
        recipient_id: Uuid,
        next: DeliveryState,
        attempt: Option<DeliveryAttempt>,
    ) -> (res: Result<Option<RecipientDelivery>, WorkspaceError>)
        requires
            old(self)@.wf(),
        ensures
            match res {
                Ok(delivery) => message_transition_outcome(
                    old(self)@,
                    workspace_id,
                    message_id,
                    recipient_id,
                    next,
                    option_view(attempt),
                ).0 == Ok::<Option<RecipientDeliveryView>, WorkspaceError>(option_view(delivery)),
                Err(error) => message_transition_outcome(
                    old(self)@,
                    workspace_id,
                    message_id,
                    recipient_id,
                    next,
                    option_view(attempt),
                ).0 == Err::<Option<RecipientDeliveryView>, WorkspaceError>(error),
            },
            final(self)@ == message_transition_outcome(
                old(self)@,
                workspace_id,
                message_id,
                recipient_id,
                next,
                option_view(attempt),
            ).1,
            final(self)@.wf(),
    {
        match self.message_sequence(workspace_id, message_id) {
            None => Ok(None),
            Some(sequence) => {
                if self.delivery_row(workspace_id, sequence, recipient_id).is_none() {
                    return Ok(None);
                }
                match self.transition_delivery(
                    workspace_id,
                    sequence,
                    recipient_id,
                    next,
                    attempt,
                ) {
                    Ok(delivery) => Ok(Some(delivery)),
                    Err(error) => Err(error),
                }
            },
        }
    }

    /// What a recipient was sent after a sequence, oldest first.
    pub fn deliveries_after(
        &self,
        workspace_id: Uuid,
        recipient_id: Uuid,
        after_sequence: u64,
        limit: usize,
    ) -> (res: Result<Vec<RecipientDelivery>, WorkspaceError>)
        ensures
            match res {
                Ok(deliveries) => after_sequence <= MAX_COLUMN && limit <= MAX_COLUMN && views(
                    deliveries@,
                ) == deliveries_in(
                    first_items(
                        self@.deliveries.filter(
                            delivered_after(workspace_id, recipient_id, after_sequence),
                        ),
                        limit as nat,
                    ),
                ),
                Err(error) => error == WorkspaceError::OutOfRange && (after_sequence > MAX_COLUMN
                    || limit > MAX_COLUMN),
            },
            res is Ok <==> after_sequence <= i64::MAX && limit <= i64::MAX,
            res matches Ok(found) ==> {
                &&& found@.len() <= limit
                &&& forall|k: int|
                    0 <= k < found@.len() ==> {
                        &&& (#[trigger] found@[k]).workspace_id == workspace_id
                        &&& found@[k].recipient_id == recipient_id
                        &&& found@[k].sequence > after_sequence
                        &&& exists|i: int|
                            0 <= i < self@.deliveries.len() && (
                            #[trigger] self@.deliveries[i]).delivery == found@[k]@
                    }
                &&& forall|i: int|
                    0 <= i < self@.deliveries.len() && (
                    #[trigger] self@.deliveries[i]).delivery.workspace_id == workspace_id
                        && self@.deliveries[i].delivery.recipient_id == recipient_id
                        && self@.deliveries[i].delivery.sequence > after_sequence && found@.len()
                        < limit ==> exists|k: int|
                        0 <= k < found@.len() && (#[trigger] found@[k])@
                            == self@.deliveries[i].delivery
            },
    {
        if after_sequence > MAX_COLUMN || limit as u64 > MAX_COLUMN {
            return Err(WorkspaceError::OutOfRange);
        }
        let test = |row: &DeliveryRow| -> (answer: bool)
            ensures
                answer == delivered_after(workspace_id, recipient_id, after_sequence)(row@),
        {
            row.delivery.workspace_id == workspace_id && row.delivery.recipient_id == recipient_id
                && row.delivery.sequence > after_sequence
        };
        let rows = select(
            &self.deliveries,
            limit,
            test,
            Ghost(delivered_after(workspace_id, recipient_id, after_sequence)),
        );
        let found = unwrap_rows(&rows);
        proof {
            let all = views(found@);
            law_deliveries_are_read_after_the_cursor(
                self@,
                workspace_id,
                recipient_id,
                after_sequence,
                limit as nat,
                all,
            );
            assert forall|k: int| 0 <= k < found@.len() implies (#[trigger] found@[k])@
                == all[k] by {}
            assert forall|i: int|
                0 <= i < self@.deliveries.len() && (
                #[trigger] self@.deliveries[i]).delivery.workspace_id == workspace_id
                    && self@.deliveries[i].delivery.recipient_id == recipient_id
                    && self@.deliveries[i].delivery.sequence > after_sequence && found@.len()
                    < limit implies exists|k: int|
                0 <= k < found@.len() && (#[trigger] found@[k])@
                    == self@.deliveries[i].delivery by {
                let row = self@.deliveries[i].delivery;
                assert(all.contains(row));
                let k = choose|k: int| 0 <= k < all.len() && all[k] == row;
                assert(found@[k]@ == row);
            }
        }
        Ok(found)
    }

    /// What a viewer may read of a workspace after a sequence, oldest first.
    pub fn replay(
        &self,
        workspace_id: Uuid,
        viewer_id: Uuid,
        after_sequence: u64,
        limit: usize,
    ) -> (res: Result<Vec<WorkspaceEvent>, WorkspaceError>)
        ensures
            match res {
                Ok(events) => self@.has_member(workspace_id, viewer_id) && after_sequence
                    <= MAX_COLUMN && limit <= MAX_COLUMN && views(events@) == first_items(
                    self@.events.filter(
                        visible_after(self@.deliveries, workspace_id, viewer_id, after_sequence),
                    ),
                    limit as nat,
                ),
                Err(error) => if !self@.has_member(workspace_id, viewer_id) {
                    error == WorkspaceError::ViewerNotMember
                } else {
                    error == WorkspaceError::OutOfRange && (after_sequence > MAX_COLUMN || limit
                        > MAX_COLUMN)
                },
            },
            res is Ok <==> belongs(self@, workspace_id, viewer_id) && after_sequence <= i64::MAX
                && limit <= i64::MAX,
            res matches Ok(found) ==> {
                &&& found@.len() <= limit
                &&& forall|k: int|
                    0 <= k < found@.len() ==> {
                        &&& (#[trigger] found@[k]).workspace_id == workspace_id
                        &&& found@[k].sequence > after_sequence
                        &&& found@[k].author_id == viewer_id || was_sent(
                            self@,
                            workspace_id,
                            found@[k].sequence,
                            viewer_id,
                        )
                        &&& self@.events.contains(found@[k]@)
                    }
                &&& forall|i: int|
                    0 <= i < self@.events.len() && (#[trigger] self@.events[i]).workspace_id
                        == workspace_id && self@.events[i].sequence > after_sequence && (
                    self@.events[i].author_id == viewer_id || was_sent(
                        self@,
                        workspace_id,
                        self@.events[i].sequence,
                        viewer_id,
                    )) && found@.len() < limit ==> exists|k: int|
                        0 <= k < found@.len() && (#[trigger] found@[k])@ == self@.events[i]
            },
    {
        match self.require_member(workspace_id, viewer_id) {
            Err(error) => return Err(error),
            Ok(()) => {},
        }
        if after_sequence > MAX_COLUMN || limit as u64 > MAX_COLUMN {
            return Err(WorkspaceError::OutOfRange);
        }
        let test = |row: &WorkspaceEvent| -> (answer: bool)
            ensures
                answer == visible_after(
                    self@.deliveries,
                    workspace_id,
                    viewer_id,
                    after_sequence,
                )(row@),
        {
            row.workspace_id == workspace_id && row.sequence > after_sequence && (row.author_id
                == viewer_id || self.delivery_row(workspace_id, row.sequence, viewer_id).is_some())
        };
        let found = select(
            &self.events,
            limit,
            test,
            Ghost(visible_after(self@.deliveries, workspace_id, viewer_id, after_sequence)),
        );
        proof {
            let all = views(found@);
            law_replays_show_what_a_viewer_may_see(
                self@,
                workspace_id,
                viewer_id,
                after_sequence,
                limit as nat,
                all,
            );
            assert forall|k: int| 0 <= k < found@.len() implies (#[trigger] found@[k])@
                == all[k] by {}
            assert forall|i: int|
                0 <= i < self@.events.len() && (#[trigger] self@.events[i]).workspace_id
                    == workspace_id && self@.events[i].sequence > after_sequence && (
                self@.events[i].author_id == viewer_id || was_sent(
                    self@,
                    workspace_id,
                    self@.events[i].sequence,
                    viewer_id,
                )) && found@.len() < limit implies exists|k: int|
                0 <= k < found@.len() && (#[trigger] found@[k])@ == self@.events[i] by {
                let row = self@.events[i];
                assert(all.contains(row));
                let k = choose|k: int| 0 <= k < all.len() && all[k] == row;
                assert(found@[k]@ == row);
            }
        }
        Ok(found)
    }

    /// Undelivered messages for one recipient, oldest first.
    ///
    /// Session projections also leave deliveries that stay pending for ever;
    /// only messages count here.
    pub fn pending_message_events(
        &self,
        workspace_id: Uuid,
        recipient_id: Uuid,
        limit: usize,
    ) -> (res: Result<Vec<(WorkspaceEvent, RecipientDelivery)>, WorkspaceError>)
        requires
            self@.wf(),
        ensures
            match res {
                Ok(found) => {
                    let rows = first_items(
                        self@.deliveries.filter(pending_for(workspace_id, recipient_id)),
                        limit as nat,
                    );
                    &&& limit <= MAX_COLUMN
                    &&& found@.len() == rows.len()
                    &&& forall|i: int|
                        0 <= i < rows.len() ==> (#[trigger] found@[i]).1@ == rows[i].delivery
                            && found@[i].0@ == event_behind(self@.events, rows[i].delivery)
                },
                Err(error) => error == WorkspaceError::OutOfRange && limit > MAX_COLUMN,
            },
            res is Ok <==> limit <= i64::MAX,
            res matches Ok(found) ==> {
                &&& found@.len() <= limit
                &&& forall|k: int|
                    0 <= k < found@.len() ==> {
                        let (event, delivery) = #[trigger] found@[k];
                        &&& delivery.workspace_id == workspace_id
                        &&& delivery.recipient_id == recipient_id
                        &&& delivery.state == DeliveryState::Pending
                        &&& event.workspace_id == workspace_id
                        &&& event.sequence == delivery.sequence
                        &&& event@.kind is Message
                        &&& self@.events.contains(event@)
                    }
                &&& forall|i: int, j: int|
                    0 <= i < self@.deliveries.len() && 0 <= j < self@.events.len() && (
                    #[trigger] self@.deliveries[i]).delivery.workspace_id == workspace_id
                        && self@.deliveries[i].delivery.recipient_id == recipient_id
                        && self@.deliveries[i].delivery.state == DeliveryState::Pending && (
                    #[trigger] self@.events[j]).workspace_id == workspace_id
                        && self@.events[j].sequence == self@.deliveries[i].delivery.sequence
                        && self@.events[j].kind is Message && found@.len() < limit ==> exists|
                        k: int,
                    |
                        0 <= k < found@.len() && (#[trigger] found@[k]).1@
                            == self@.deliveries[i].delivery
            },
    {
        if limit as u64 > MAX_COLUMN {
            return Err(WorkspaceError::OutOfRange);
        }
        let test = |row: &DeliveryRow| -> (answer: bool)
            ensures
                answer == pending_for(workspace_id, recipient_id)(row@),
        {
            row.delivery.workspace_id == workspace_id && row.delivery.recipient_id == recipient_id
                && row.is_message && row.delivery.state == DeliveryState::Pending
        };
        let rows = select(
            &self.deliveries,
            limit,
            test,
            Ghost(pending_for(workspace_id, recipient_id)),
        );
        let ghost kept = self@.deliveries.filter(pending_for(workspace_id, recipient_id));
        let mut found: Vec<(WorkspaceEvent, RecipientDelivery)> = Vec::new();
        let mut index: usize = 0;
        while index < rows.len()
            invariant
                index <= rows.len(),
                found.len() == index,
                self@.wf(),
                kept == self@.deliveries.filter(pending_for(workspace_id, recipient_id)),
                views(rows@) == first_items(kept, limit as nat),
                forall|i: int|
                    0 <= i < index ==> (#[trigger] found@[i]).1@ == rows@[i]@.delivery
                        && found@[i].0@ == event_behind(self@.events, rows@[i]@.delivery),
            decreases rows.len() - index,
        {
            let delivery = rows[index].delivery.clone();
            let sequence: u64 = delivery.sequence;
            let home: Uuid = delivery.workspace_id;
            proof {
                let row = rows@[index as int]@;
                assert(views(rows@)[index as int] == row);
                assert(views(rows@).len() == rows@.len());
                assert(kept[index as int] == row);
                assert(kept.contains(row));
                lemma_filter_contains(
                    self@.deliveries,
                    pending_for(workspace_id, recipient_id),
                    row,
                );
                let at = choose|at: int|
                    0 <= at < self@.deliveries.len() && self@.deliveries[at] == row;
                assert(delivery_ok(self@.deliveries[at], self@.events));
            }
            let is_behind = |row: &WorkspaceEvent| -> (answer: bool)
                ensures
                    answer == event_at(home, sequence)(row@),
            { row.workspace_id == home && row.sequence == sequence };
            match find(&self.events, is_behind, Ghost(event_at(home, sequence))) {
                Some(at) => {
                    assert(self@.events[at as int] == self.events@[at as int]@);
                    found.push((self.events[at].clone(), delivery));
                },
                None => {
                    assert(false);
                },
            }
            index = index + 1;
        }
        proof {
            let all = views(rows@);
            assert forall|i: int| 0 <= i < rows@.len() implies all[i] == (#[trigger] rows@[i])@ by {}
            law_waiting_messages_are_the_pending_ones(
                self@,
                workspace_id,
                recipient_id,
                limit as nat,
                all,
            );
            assert forall|k: int| 0 <= k < found@.len() implies {
                let (event, delivery) = #[trigger] found@[k];
                &&& delivery.workspace_id == workspace_id
                &&& delivery.recipient_id == recipient_id
                &&& delivery.state == DeliveryState::Pending
                &&& event.workspace_id == workspace_id
                &&& event.sequence == delivery.sequence
                &&& event@.kind is Message
                &&& self@.events.contains(event@)
            } by {
                assert(found@[k].1@ == all[k].delivery);
                assert(found@[k].0@ == event_behind(self@.events, all[k].delivery));
            }
            assert forall|i: int, j: int|
                0 <= i < self@.deliveries.len() && 0 <= j < self@.events.len() && (
                #[trigger] self@.deliveries[i]).delivery.workspace_id == workspace_id
                    && self@.deliveries[i].delivery.recipient_id == recipient_id
                    && self@.deliveries[i].delivery.state == DeliveryState::Pending && (
                #[trigger] self@.events[j]).workspace_id == workspace_id
                    && self@.events[j].sequence == self@.deliveries[i].delivery.sequence
                    && self@.events[j].kind is Message && found@.len() < limit implies exists|k: int|
                0 <= k < found@.len() && (#[trigger] found@[k]).1@
                    == self@.deliveries[i].delivery by {
                let row = self@.deliveries[i];
                assert(all.contains(row));
                let k = choose|k: int| 0 <= k < all.len() && all[k] == row;
                assert(found@[k].1@ == row.delivery);
            }
        }
        Ok(found)
    }

    /// Every recipient's delivery of one message, in recipient order.
    pub fn message_deliveries(&self, message_id: Uuid) -> (res: Vec<RecipientDelivery>)
        ensures
            arranged::<RecipientDelivery>(
                views(res@),
                deliveries_in(self@.deliveries.filter(delivery_under(self@.events, message_id))),
            ),
    {
        let test = |row: &DeliveryRow| -> (answer: bool)
            ensures
                answer == delivery_under(self@.events, message_id)(row@),
        { self.event_exists(message_id, row.delivery.workspace_id, row.delivery.sequence) };
        let rows = select(
            &self.deliveries,
            self.deliveries.len(),
            test,
            Ghost(delivery_under(self@.events, message_id)),
        );
        proof {
            self@.deliveries.lemma_filter_len(delivery_under(self@.events, message_id));
        }
        arrange(&unwrap_rows(&rows))
    }

    /// Whether there is an event with an identity and a sequence.
    fn event_exists(&self, id: Uuid, workspace_id: Uuid, sequence: u64) -> (res: bool)
        ensures
            res == some_item(self@.events, event_is(id, workspace_id, sequence)),
    {
        let test = |row: &WorkspaceEvent| -> (answer: bool)
            ensures
                answer == event_is(id, workspace_id, sequence)(row@),
        { row.id == id && row.workspace_id == workspace_id && row.sequence == sequence };
        find(&self.events, test, Ghost(event_is(id, workspace_id, sequence))).is_some()
    }

    /// Who a delivered event was fanned out to, in recipient order.
    pub fn delivery_recipients(&self, workspace_id: Uuid, sequence: u64) -> (res: Result<
        Vec<Uuid>,
        WorkspaceError,
    >)
        ensures
            match res {
                Ok(ids) => sequence <= MAX_COLUMN && is_reached(
                    self@.deliveries,
                    workspace_id,
                    sequence,
                    ids@,
                ),
                Err(error) => error == WorkspaceError::OutOfRange && sequence > MAX_COLUMN,
            },
            res is Ok <==> sequence <= i64::MAX,
            res matches Ok(ids) ==> forall|id: Uuid| #[trigger]
                ids@.contains(id) <==> was_sent(self@, workspace_id, sequence, id),
    {
        if sequence > MAX_COLUMN {
            return Err(WorkspaceError::OutOfRange);
        }
        let mut ids: Vec<Uuid> = Vec::new();
        let mut index: usize = 0;
        while index < self.deliveries.len()
            invariant
                index <= self.deliveries.len(),
                increasing(ids@),
                forall|id: Uuid| #[trigger]
                    ids@.contains(id) <==> exists|i: int|
                        0 <= i < index && delivery_is(workspace_id, sequence, id)(
                            #[trigger] self@.deliveries[i],
                        ),
            decreases self.deliveries.len() - index,
        {
            let row = &self.deliveries[index];
            let ghost before = ids@;
            assert(self@.deliveries[index as int] == row@);
            if row.delivery.workspace_id == workspace_id && row.delivery.sequence == sequence {
                insert_increasing(&mut ids, row.delivery.recipient_id);
            }
            proof {
                assert forall|id: Uuid| #[trigger] ids@.contains(id) <==> exists|i: int|
                    0 <= i < index + 1 && delivery_is(workspace_id, sequence, id)(
                        #[trigger] self@.deliveries[i],
                    ) by {
                    if before.contains(id) {
                        let i = choose|i: int|
                            0 <= i < index && delivery_is(workspace_id, sequence, id)(
                                #[trigger] self@.deliveries[i],
                            );
                        assert(delivery_is(workspace_id, sequence, id)(self@.deliveries[i]));
                    }
                    if ids@.contains(id) && !before.contains(id) {
                        assert(delivery_is(workspace_id, sequence, id)(
                            self@.deliveries[index as int],
                        ));
                    }
                    if exists|i: int|
                        0 <= i < index + 1 && delivery_is(workspace_id, sequence, id)(
                            #[trigger] self@.deliveries[i],
                        ) {
                        let i = choose|i: int|
                            0 <= i < index + 1 && delivery_is(workspace_id, sequence, id)(
                                #[trigger] self@.deliveries[i],
                            );
                        if i < index {
                            assert(before.contains(id));
                        }
                    }
                }
            }
            index = index + 1;
        }
        proof {
            assert forall|id: Uuid| #[trigger] ids@.contains(id) <==> some_item(
                self@.deliveries,
                delivery_is(workspace_id, sequence, id),
            ) by {
                let selected = delivery_is(workspace_id, sequence, id);
                lemma_position(self@.deliveries, selected);
                if ids@.contains(id) {
                    let i = choose|i: int|
                        0 <= i < index && delivery_is(workspace_id, sequence, id)(
                            #[trigger] self@.deliveries[i],
                        );
                    lemma_some_item(self@.deliveries, selected, i);
                }
            }
            assert forall|id: Uuid| #[trigger] ids@.contains(id) <==> was_sent(
                self@,
                workspace_id,
                sequence,
                id,
            ) by {
                lemma_sent(self@, workspace_id, sequence, id);
            }
        }
        Ok(ids)
    }

    /// Whether a message with this identity was appended anywhere.
    pub fn contains_message(&self, message_id: Uuid) -> (res: bool)
        ensures
            res == some_item(self@.events, message_event(message_id)),
            res <==> exists|i: int|
                0 <= i < self@.events.len() && (#[trigger] self@.events[i]).id == message_id
                    && self@.events[i].kind is Message,
    {
        proof {
            law_messages_are_found_by_identity(self@, 0, message_id);
        }
        let test = |row: &WorkspaceEvent| -> (answer: bool)
            ensures
                answer == message_event(message_id)(row@),
        {
            row.id == message_id && match &row.kind {
                WorkspaceEventKind::Message { .. } => true,
                _ => false,
            }
        };
        find(&self.events, test, Ghost(message_event(message_id))).is_some()
    }

    /// Whether an author already admitted an event under a key.
    pub fn contains_idempotent_event(
        &self,
        workspace_id: Uuid,
        author_id: Uuid,
        idempotency_key: &str,
    ) -> (res: bool)
        ensures
            res == some_item(
                self@.events,
                event_keyed(workspace_id, author_id, idempotency_key@),
            ),
            res <==> !is_free(self@, workspace_id, author_id, idempotency_key@),
    {
        proof {
            lemma_free(self@, workspace_id, author_id, idempotency_key@);
        }
        self.keyed_row(workspace_id, author_id, &idempotency_key.to_owned()).is_some()
    }

    /// The event that an author already admitted under a key.
    pub fn event_by_idempotency_key(
        &self,
        workspace_id: Uuid,
        author_id: Uuid,
        idempotency_key: &str,
    ) -> (res: Option<WorkspaceEvent>)
        ensures
            match position(
                self@.events,
                event_keyed(workspace_id, author_id, idempotency_key@),
            ) {
                Some(index) => option_view(res) == Some(self@.events[index]),
                None => res is None,
            },
            res is None <==> is_free(self@, workspace_id, author_id, idempotency_key@),
            res matches Some(event) ==> event.workspace_id == workspace_id && event.author_id
                == author_id && event.idempotency_key@ == idempotency_key@
                && self@.events.contains(event@),
    {
        proof {
            lemma_free(self@, workspace_id, author_id, idempotency_key@);
            lemma_position(
                self@.events,
                event_keyed(workspace_id, author_id, idempotency_key@),
            );
        }
        match self.keyed_row(workspace_id, author_id, &idempotency_key.to_owned()) {
            Some(index) => {
                assert(self@.events[index as int] == self.events@[index as int]@);
                Some(self.events[index].clone())
            },
            None => None,
        }
    }
}

} // verus!
