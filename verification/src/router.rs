//! The one durable router of authored messages.
//!
//! That an audience reaches somebody besides the author, that a repeated key
//! carries the same content, and that a lost race is resolved by what was
//! written rather than reported as a conflict are rules, whatever journal holds
//! the rows.

use crate::append::{append_outcome, other_than, others, result_view};
use crate::audience::{
    audience_ids, audience_refusal, lemma_audience_order, lemma_increasing_unique,
    resolve_recipients,
};
use crate::delivery::is_reached;
use crate::directory::roster_entries;
use crate::error::WorkspaceError;
use crate::model::{
    lemma_items_equal, lemma_position, lemma_views_equal, position, some_item, views,
};
use crate::outside::{is_random_uuid, new_v4, utc_now};
use crate::store::{
    delivery_is, event_keyed, next_sequence, workspace_is, StoreState, WorkspaceTables, MAX_COLUMN,
};
use crate::text::{blank, is_blank};
use crate::time::Timestamp;
use crate::workspace::{
    NewWorkspaceMessage, NewWorkspaceMessageView, Uuid, WorkspaceEvent, WorkspaceEventKind,
    WorkspaceEventKindView, WorkspaceEventView, WorkspaceMessage, WorkspaceMessageBody,
    WorkspaceMessageBodyView, WorkspaceMessageReceipt, WorkspaceMessageReceiptView,
    WorkspaceMessageView, WorkspaceRole, WorkspaceRosterEntry, WorkspaceRosterEntryView,
};
use vstd::prelude::*;

verus! {

/// Why a message is refused before anything is looked up, if it is.
pub open spec fn message_refusal(input: NewWorkspaceMessageView) -> Option<WorkspaceError> {
    if blank(input.text) {
        Some(WorkspaceError::EmptyMessage)
    } else if blank(input.idempotency_key) {
        Some(WorkspaceError::EmptyMessageKey)
    } else {
        None
    }
}

/// The members that a roster lists, with their roles.
pub open spec fn roster_roles(roster: Seq<WorkspaceRosterEntryView>) -> Seq<(Uuid, WorkspaceRole)> {
    roster.map_values(|entry: WorkspaceRosterEntryView| (entry.participant.id, entry.role))
}

/// Whom a message is for: the audience without the author.
pub open spec fn addressees(
    input: NewWorkspaceMessageView,
    roster: Seq<WorkspaceRosterEntryView>,
) -> Seq<Uuid> {
    audience_ids(input.audience, roster_roles(roster)).filter(other_than(input.author_id))
}

/// Why the audience of a message is refused, if it is.
pub open spec fn addressees_refusal(
    input: NewWorkspaceMessageView,
    roster: Seq<WorkspaceRosterEntryView>,
) -> Option<WorkspaceError> {
    if audience_refusal(input.audience, roster_roles(roster)) is Some {
        audience_refusal(input.audience, roster_roles(roster))
    } else if addressees(input, roster).len() == 0 {
        Some(WorkspaceError::OnlyAuthorAddressed)
    } else {
        None
    }
}

/// Whether an event carries exactly what a message says.
pub open spec fn carries(event: WorkspaceEventView, input: NewWorkspaceMessageView) -> bool {
    event.kind matches WorkspaceEventKindView::Message { message, mode } && {
        &&& event.workspace_id == input.workspace_id
        &&& event.author_id == input.author_id
        &&& message.workspace_id == input.workspace_id
        &&& message.author_id == input.author_id
        &&& message.thread_id == input.thread_id
        &&& message.reply_to_message_id == input.reply_to_message_id
        &&& message.body.text == input.text
        &&& message.body.mentions == input.mentions
        &&& message.body.attachments == input.attachments
        &&& message.audience == input.audience
        &&& mode == input.mode
    }
}

/// The event that a message becomes.
pub open spec fn candidate_event(
    input: NewWorkspaceMessageView,
    message_id: Uuid,
    now: Timestamp,
) -> WorkspaceEventView {
    WorkspaceEventView {
        id: message_id,
        workspace_id: input.workspace_id,
        sequence: 0,
        author_id: input.author_id,
        idempotency_key: input.idempotency_key,
        created_at: now,
        kind: WorkspaceEventKindView::Message {
            message: WorkspaceMessageView {
                id: message_id,
                workspace_id: input.workspace_id,
                thread_id: input.thread_id,
                reply_to_message_id: input.reply_to_message_id,
                author_id: input.author_id,
                body: WorkspaceMessageBodyView {
                    text: input.text,
                    mentions: input.mentions,
                    attachments: input.attachments,
                },
                audience: input.audience,
                created_at: now,
            },
            mode: input.mode,
        },
    }
}

/// The receipt for a message that was admitted, or why there is none. Delivery
/// rows are the ground truth for who was reached; where they disagree with the
/// authorized audience, the receipt is not handed out.
pub open spec fn receipt_for(
    event: WorkspaceEventView,
    reached: Seq<Uuid>,
    expected: Seq<Uuid>,
) -> Result<WorkspaceMessageReceiptView, WorkspaceError> {
    match event.kind {
        WorkspaceEventKindView::Message { message, mode } => if reached == expected {
            Ok(
                WorkspaceMessageReceiptView {
                    message_id: message.id,
                    workspace_id: event.workspace_id,
                    sequence: event.sequence,
                    recipient_ids: reached,
                    mode,
                },
            )
        } else {
            Err(WorkspaceError::ReceiptMismatch)
        },
        _ => Err(WorkspaceError::NotAMessage),
    }
}

/// Refuses a message that says nothing or has no key.
pub fn check_message(input: &NewWorkspaceMessage) -> (res: Result<(), WorkspaceError>)
    ensures
        res == match message_refusal(input@) {
            Some(error) => Err::<(), WorkspaceError>(error),
            None => Ok(()),
        },
{
    if is_blank(input.text.as_str()) {
        return Err(WorkspaceError::EmptyMessage);
    }
    if is_blank(input.idempotency_key.as_str()) {
        return Err(WorkspaceError::EmptyMessageKey);
    }
    Ok(())
}

/// Whom a message is for, given the roster of its workspace.
pub fn expected_recipients(input: &NewWorkspaceMessage, roster: &Vec<WorkspaceRosterEntry>) -> (res:
    Result<Vec<Uuid>, WorkspaceError>)
    ensures
        match res {
            Ok(ids) => addressees_refusal(input@, views(roster@)) is None && ids@ == addressees(
                input@,
                views(roster@),
            ),
            Err(error) => addressees_refusal(input@, views(roster@)) == Some(error),
        },
{
    let mut members: Vec<(Uuid, WorkspaceRole)> = Vec::new();
    let mut index: usize = 0;
    while index < roster.len()
        invariant
            index <= roster.len(),
            members.len() == index,
            forall|i: int|
                0 <= i < index ==> #[trigger] members@[i] == (
                    roster@[i].participant.id,
                    roster@[i].role,
                ),
        decreases roster.len() - index,
    {
        members.push((roster[index].participant.id, roster[index].role));
        index = index + 1;
    }
    assert(members@ =~= roster_roles(views(roster@)));
    match resolve_recipients(&input.audience, &members) {
        Err(error) => Err(error),
        Ok(ids) => {
            let ids = others(&ids, input.author_id);
            if ids.len() == 0 {
                Err(WorkspaceError::OnlyAuthorAddressed)
            } else {
                Ok(ids)
            }
        },
    }
}

/// Whether an event carries exactly what a message says.
fn same_content(event: &WorkspaceEvent, input: &NewWorkspaceMessage) -> (res: bool)
    ensures
        res == carries(event@, input@),
{
    match &event.kind {
        WorkspaceEventKind::Message { message, mode } => {
            let body = WorkspaceMessageBody {
                text: input.text.clone(),
                mentions: input.mentions.clone(),
                attachments: input.attachments.clone(),
            };
            proof {
                assert(body.mentions@ =~= input.mentions@);
                lemma_views_equal(body.attachments@, input.attachments@);
                assert(views(body.attachments@) == views(input.attachments@));
            }
            event.workspace_id == input.workspace_id && event.author_id == input.author_id
                && message.workspace_id == input.workspace_id && message.author_id
                == input.author_id && message.thread_id == input.thread_id
                && message.reply_to_message_id == input.reply_to_message_id && message.body == body
                && message.audience == input.audience && *mode == input.mode
        },
        _ => false,
    }
}

/// The event that already stands under a message's key, proven to carry the
/// same content. A key that stands for other content is a bug of the caller.
pub fn admitted_message_event(
    input: &NewWorkspaceMessage,
    found: Option<WorkspaceEvent>,
) -> (res: Result<Option<WorkspaceEvent>, WorkspaceError>)
    ensures
        match found {
            None => res == Ok::<Option<WorkspaceEvent>, WorkspaceError>(None),
            Some(event) => if carries(event@, input@) {
                res == Ok::<Option<WorkspaceEvent>, WorkspaceError>(Some(event))
            } else {
                res == Err::<Option<WorkspaceEvent>, WorkspaceError>(
                    WorkspaceError::IdempotencyConflict,
                )
            },
        },
{
    match found {
        None => Ok(None),
        Some(event) => {
            if same_content(&event, input) {
                Ok(Some(event))
            } else {
                Err(WorkspaceError::IdempotencyConflict)
            }
        },
    }
}

/// The event that a message becomes.
pub fn message_candidate(input: &NewWorkspaceMessage, message_id: Uuid, now: Timestamp) -> (res:
    WorkspaceEvent)
    ensures
        res@ == candidate_event(input@, message_id, now),
{
    let input = input.clone();
    WorkspaceEvent {
        id: message_id,
        workspace_id: input.workspace_id,
        sequence: 0,
        author_id: input.author_id,
        idempotency_key: input.idempotency_key,
        created_at: now,
        kind: WorkspaceEventKind::Message {
            message: WorkspaceMessage {
                id: message_id,
                workspace_id: input.workspace_id,
                thread_id: input.thread_id,
                reply_to_message_id: input.reply_to_message_id,
                author_id: input.author_id,
                body: WorkspaceMessageBody {
                    text: input.text,
                    mentions: input.mentions,
                    attachments: input.attachments,
                },
                audience: input.audience,
                created_at: now,
            },
            mode: input.mode,
        },
    }
}

/// Why a message was not admitted after all.
#[derive(Debug, PartialEq, Eq)]
pub enum AppendFailure<E> {
    /// The journal refused it, and nothing stands under its key.
    Refused { error: E },
    /// Another message stands under its key.
    Conflict,
}

/// The event that a message was admitted as, once the journal has answered.
/// Two exact retries can race between the first look and the append, so where
/// the append failed, what stands under the key by then decides.
pub fn settle_append<E>(
    input: &NewWorkspaceMessage,
    appended: Result<WorkspaceEvent, E>,
    found: Option<WorkspaceEvent>,
) -> (res: Result<WorkspaceEvent, AppendFailure<E>>)
    ensures
        match (appended, found) {
            (Ok(event), _) => res == Ok::<WorkspaceEvent, AppendFailure<E>>(event),
            (Err(error), None) => res == Err::<WorkspaceEvent, AppendFailure<E>>(
                AppendFailure::Refused { error },
            ),
            (Err(_), Some(event)) => res == if carries(event@, input@) {
                Ok::<WorkspaceEvent, AppendFailure<E>>(event)
            } else {
                Err(AppendFailure::Conflict)
            },
        },
{
    match appended {
        Ok(event) => Ok(event),
        Err(error) => match admitted_message_event(input, found) {
            Ok(Some(event)) => Ok(event),
            Ok(None) => Err(AppendFailure::Refused { error }),
            Err(_) => Err(AppendFailure::Conflict),
        },
    }
}

/// The receipt for a message that was admitted, checked against the audience
/// that the caller was authorized for.
pub fn message_receipt(event: &WorkspaceEvent, reached: Vec<Uuid>, expected: &Vec<Uuid>) -> (res:
    Result<WorkspaceMessageReceipt, WorkspaceError>)
    ensures
        result_view(res) == receipt_for(event@, reached@, expected@),
{
    match &event.kind {
        WorkspaceEventKind::Message { message, mode } => {
            proof {
                lemma_items_equal(reached@, expected@);
            }
            if reached == *expected {
                Ok(
                    WorkspaceMessageReceipt {
                        message_id: message.id,
                        workspace_id: event.workspace_id,
                        sequence: event.sequence,
                        recipient_ids: reached,
                        mode: *mode,
                    },
                )
            } else {
                Err(WorkspaceError::ReceiptMismatch)
            }
        },
        _ => Err(WorkspaceError::NotAMessage),
    }
}

/// Who an event reached.
pub open spec fn reached(state: StoreState, workspace_id: Uuid, sequence: u64) -> Seq<Uuid> {
    choose|ids: Seq<Uuid>| is_reached(state.deliveries, workspace_id, sequence, ids)
}

/// There is one increasing list of the people that an event reached.
pub proof fn lemma_reached(state: StoreState, workspace_id: Uuid, sequence: u64, ids: Seq<Uuid>)
    requires
        is_reached(state.deliveries, workspace_id, sequence, ids),
    ensures
        reached(state, workspace_id, sequence) == ids,
{
    let chosen = reached(state, workspace_id, sequence);
    assert forall|id: Uuid| #[trigger] chosen.contains(id) <==> ids.contains(id) by {
        assert(ids.contains(id) <==> some_item(
            state.deliveries,
            delivery_is(workspace_id, sequence, id),
        ));
    }
    lemma_increasing_unique(chosen, ids);
}

/// What routing a message returns, and the tables after it, given the identity
/// and the time that a new message would get.
pub open spec fn route_outcome(
    state: StoreState,
    input: NewWorkspaceMessageView,
    message_id: Uuid,
    now: Timestamp,
) -> (Result<WorkspaceMessageReceiptView, WorkspaceError>, StoreState) {
    let roster = roster_entries(state, input.workspace_id);
    let expected = addressees(input, roster);
    if message_refusal(input) is Some {
        (Err(message_refusal(input)->Some_0), state)
    } else if !state.has_member(input.workspace_id, input.author_id) {
        (Err(WorkspaceError::ViewerNotMember), state)
    } else if addressees_refusal(input, roster) is Some {
        (Err(addressees_refusal(input, roster)->Some_0), state)
    } else {
        match position(
            state.events,
            event_keyed(input.workspace_id, input.author_id, input.idempotency_key),
        ) {
            Some(index) => {
                let event = state.events[index];
                if carries(event, input) {
                    (
                        receipt_for(
                            event,
                            reached(state, event.workspace_id, event.sequence),
                            expected,
                        ),
                        state,
                    )
                } else {
                    (Err(WorkspaceError::IdempotencyConflict), state)
                }
            },
            None => {
                let outcome = append_outcome(state, candidate_event(input, message_id, now), true);
                match outcome.0 {
                    Ok(event) => (
                        receipt_for(
                            event,
                            reached(outcome.1, event.workspace_id, event.sequence),
                            expected,
                        ),
                        outcome.1,
                    ),
                    Err(error) => (Err(error), outcome.1),
                }
            },
        }
    }
}

/// Listing a roster in another order keeps its members and roles.
proof fn lemma_roster_order(
    listed: Seq<WorkspaceRosterEntryView>,
    entries: Seq<WorkspaceRosterEntryView>,
    input: NewWorkspaceMessageView,
)
    requires
        listed.to_multiset() == entries.to_multiset(),
    ensures
        addressees(input, listed) == addressees(input, entries),
        addressees_refusal(input, listed) == addressees_refusal(input, entries),
{
    let left = roster_roles(listed);
    let right = roster_roles(entries);
    broadcast use vstd::seq_lib::group_to_multiset_ensures;

    assert forall|member: (Uuid, WorkspaceRole)| #[trigger] left.contains(member)
        <==> right.contains(member) by {
        if left.contains(member) {
            let i = choose|i: int| 0 <= i < left.len() && left[i] == member;
            assert(listed.contains(listed[i]));
            assert(listed.to_multiset().count(listed[i]) > 0);
            assert(entries.contains(listed[i]));
            let j = choose|j: int| 0 <= j < entries.len() && entries[j] == listed[i];
            assert(right[j] == member);
        }
        if right.contains(member) {
            let i = choose|i: int| 0 <= i < right.len() && right[i] == member;
            assert(entries.contains(entries[i]));
            assert(entries.to_multiset().count(entries[i]) > 0);
            assert(listed.contains(entries[i]));
            let j = choose|j: int| 0 <= j < listed.len() && listed[j] == entries[i];
            assert(left[j] == member);
        }
    }
    lemma_audience_order(input.audience, left, right);
}

impl WorkspaceTables {
    /// The receipt for a message that was admitted.
    fn receipt(&self, event: &WorkspaceEvent, expected: &Vec<Uuid>) -> (res: Result<
        WorkspaceMessageReceipt,
        WorkspaceError,
    >)
        requires
            event.sequence <= MAX_COLUMN,
        ensures
            result_view(res) == receipt_for(
                event@,
                reached(self@, event.workspace_id, event.sequence),
                expected@,
            ),
    {
        match self.delivery_recipients(event.workspace_id, event.sequence) {
            Err(error) => {
                assert(false);
                Err(error)
            },
            Ok(ids) => {
                proof {
                    lemma_reached(self@, event.workspace_id, event.sequence, ids@);
                }
                message_receipt(event, ids, expected)
            },
        }
    }

    /// Admits one authored message and returns its delivery receipt. A message
    /// that is new gets the given identity and time.
    pub fn append_message_as(
        &mut self,
        input: &NewWorkspaceMessage,
        message_id: Uuid,
        now: Timestamp,
    ) -> (res: Result<WorkspaceMessageReceipt, WorkspaceError>)
        requires
            old(self)@.wf(),
        ensures
            result_view(res) == route_outcome(old(self)@, input@, message_id, now).0,
            final(self)@ == route_outcome(old(self)@, input@, message_id, now).1,
            final(self)@.wf(),
    {
        match check_message(input) {
            Err(error) => return Err(error),
            Ok(()) => {},
        }
        let roster = match self.workspace_roster(input.workspace_id, input.author_id) {
            Err(error) => return Err(error),
            Ok(roster) => roster,
        };
        proof {
            lemma_roster_order(views(roster@), roster_entries(self@, input.workspace_id), input@);
        }
        let expected = match expected_recipients(input, &roster) {
            Err(error) => return Err(error),
            Ok(expected) => expected,
        };
        let found = self.event_by_idempotency_key(
            input.workspace_id,
            input.author_id,
            input.idempotency_key.as_str(),
        );
        proof {
            lemma_position(
                self@.events,
                event_keyed(input.workspace_id, input.author_id, input.idempotency_key@),
            );
        }
        match admitted_message_event(input, found) {
            Err(error) => return Err(error),
            Ok(Some(event)) => {
                proof {
                    lemma_sequence_bound(self@, event@);
                }
                return self.receipt(&event, &expected);
            },
            Ok(None) => {},
        }
        let candidate = message_candidate(input, message_id, now);
        let appended = self.append(candidate);
        let found_after = self.event_by_idempotency_key(
            input.workspace_id,
            input.author_id,
            input.idempotency_key.as_str(),
        );
        match settle_append(input, appended, found_after) {
            Err(AppendFailure::Refused { error }) => Err(error),
            Err(AppendFailure::Conflict) => Err(WorkspaceError::IdempotencyConflict),
            Ok(event) => {
                proof {
                    assert(self@.events.last() == event@);
                    lemma_sequence_bound(self@, event@);
                }
                self.receipt(&event, &expected)
            },
        }
    }

    /// Admits one authored message and returns its delivery receipt. A message
    /// that is new gets a random identity and the current time.
    pub fn append_message(&mut self, input: &NewWorkspaceMessage) -> (res: Result<
        WorkspaceMessageReceipt,
        WorkspaceError,
    >)
        requires
            old(self)@.wf(),
        ensures
            exists|message_id: Uuid, now: Timestamp|
                is_random_uuid(message_id) && #[trigger] route_outcome(
                    old(self)@,
                    input@,
                    message_id,
                    now,
                ) == (result_view(res), final(self)@),
            final(self)@.wf(),
    {
        let message_id = new_v4();
        let now = utc_now();
        let ghost before = self@;
        let res = self.append_message_as(input, message_id, now);
        assert(is_random_uuid(message_id) && route_outcome(before, input@, message_id, now) == (
            result_view(res),
            self@,
        ));
        res
    }
}

/// A sequence that a journal holds fits its columns.
proof fn lemma_sequence_bound(state: StoreState, event: WorkspaceEventView)
    requires
        state.wf(),
        state.events.contains(event),
    ensures
        event.sequence < MAX_COLUMN,
{
    let i = choose|i: int| 0 <= i < state.events.len() && state.events[i] == event;
    assert(state.events[i].sequence < next_sequence(
        state.workspaces,
        state.events[i].workspace_id,
    )->Some_0);
    lemma_position(state.workspaces, workspace_is(event.workspace_id));
}

} // verus!
