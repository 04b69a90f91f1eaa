//! What becomes of a message that is routed, relayed or projected, told row by row.

use crate::append::{append_outcome, lemma_others, lemma_sequence_step, recipients_of};
use crate::audience::{
    addresses, audience_ids, increasing, lemma_audience_listed, lemma_increasing_unique,
};
use crate::directory::roster_entries;
use crate::error::WorkspaceError;
use crate::facts::{
    belongs, exists_workspace, is_free, is_known, is_meant, is_served, keeps_message, keeps_thread,
    lemma_belongs, lemma_free, lemma_meant, lemma_rows, lemma_sent, stands_under, was_sent,
};
use crate::laws::{
    law_append_keeps_invariant, lemma_new_delivery, lemma_reached_exists, lemma_roster_is_members,
    members_known,
};
use crate::laws_admission::{
    has_room, law_admitted_events_are_stored_as_given, law_new_events_are_admitted_where_they_fit,
    law_refusals_tell_what_is_wrong, lemma_counts, lemma_served,
};
use crate::model::some_item;
use crate::router::{
    addressees, addressees_refusal, candidate_event, carries, reached, route_outcome,
};
use crate::store::{participant_is, roles_in, StoreState};
use crate::text::blank;
use crate::time::Timestamp;
use crate::workspace::{
    NewWorkspaceMessageView, Uuid, WorkspaceEventView, WorkspaceMessageReceiptView,
};
use vstd::prelude::*;

verus! {

/// Whether everyone who belongs to a workspace is a known participant.
pub open spec fn all_known(state: StoreState) -> bool {
    forall|i: int|
        0 <= i < state.members.len() ==> is_known(
            state,
            (#[trigger] state.members[i]).participant_id,
        )
}

/// An event is a message that says what was written, word for word.
pub open spec fn says_what_was_written(
    event: WorkspaceEventView,
    input: NewWorkspaceMessageView,
) -> bool {
    &&& event.kind is Message
    &&& event.workspace_id == input.workspace_id
    &&& event.author_id == input.author_id
    &&& event.kind->Message_message.workspace_id == input.workspace_id
    &&& event.kind->Message_message.author_id == input.author_id
    &&& event.kind->Message_message.body.text == input.text
    &&& event.kind->Message_message.body.mentions == input.mentions
    &&& event.kind->Message_message.body.attachments == input.attachments
    &&& event.kind->Message_message.thread_id == input.thread_id
    &&& event.kind->Message_message.reply_to_message_id == input.reply_to_message_id
    &&& event.kind->Message_message.audience == input.audience
    &&& event.kind->Message_mode == input.mode
}

/// A receipt is for a message: it names the message, where it stands, and everyone
/// whom it was delivered to, each once.
pub open spec fn is_receipt_for(
    receipt: WorkspaceMessageReceiptView,
    state: StoreState,
    event: WorkspaceEventView,
) -> bool {
    &&& event.kind is Message
    &&& receipt.message_id == event.kind->Message_message.id
    &&& receipt.workspace_id == event.workspace_id
    &&& receipt.sequence == event.sequence
    &&& receipt.mode == event.kind->Message_mode
    &&& forall|i: int, j: int|
        0 <= i < j < receipt.recipient_ids.len() ==> receipt.recipient_ids[i]
            < receipt.recipient_ids[j]
    &&& forall|id: Uuid| #[trigger]
        receipt.recipient_ids.contains(id) <==> was_sent(
            state,
            event.workspace_id,
            event.sequence,
            id,
        )
}

/// Whom a message reached, as delivery rows tell.
proof fn lemma_reached_rows(state: StoreState, workspace_id: Uuid, sequence: u64)
    ensures
        increasing(reached(state, workspace_id, sequence)),
        forall|id: Uuid| #[trigger]
            reached(state, workspace_id, sequence).contains(id) <==> was_sent(
                state,
                workspace_id,
                sequence,
                id,
            ),
{
    lemma_reached_exists(state, workspace_id, sequence);
    let ids = reached(state, workspace_id, sequence);
    assert forall|id: Uuid| #[trigger] ids.contains(id) <==> was_sent(
        state,
        workspace_id,
        sequence,
        id,
    ) by {
        lemma_sent(state, workspace_id, sequence, id);
    }
}

/// A message that is routed under a key that stood for nothing is stored as it was
/// written: the one event that stands under the key afterwards is a message whose
/// text, mentions, attachments, thread, reply target, audience and mode are those of
/// the input. It has the identity and the time that were given to it, and the receipt
/// is for it. Its recipients are exactly those whom the audience means, but for the
/// author.
pub proof fn law_routed_messages_are_stored_as_written(
    state: StoreState,
    input: NewWorkspaceMessageView,
    message_id: Uuid,
    now: Timestamp,
)
    requires
        state.wf(),
        is_free(state, input.workspace_id, input.author_id, input.idempotency_key),
        route_outcome(state, input, message_id, now).0 is Ok,
    ensures
        ({
            let receipt = route_outcome(state, input, message_id, now).0->Ok_0;
            let after = route_outcome(state, input, message_id, now).1;
            let at = state.events.len() as int;
            let event = after.events[at];
            &&& after.events.len() == at + 1
            &&& forall|i: int| 0 <= i < at ==> #[trigger] after.events[i] == state.events[i]
            &&& forall|i: int| #[trigger]
                stands_under(
                    after,
                    i,
                    input.workspace_id,
                    input.author_id,
                    input.idempotency_key,
                ) <==> i == at
            &&& event.id == message_id
            &&& event.created_at == now
            &&& event.kind is Message
            &&& event.kind->Message_message.id == message_id
            &&& event.kind->Message_message.created_at == now
            &&& event.kind->Message_message.workspace_id == input.workspace_id
            &&& event.kind->Message_message.author_id == input.author_id
            &&& event.kind->Message_message.body.text == input.text
            &&& event.kind->Message_message.body.mentions == input.mentions
            &&& event.kind->Message_message.body.attachments == input.attachments
            &&& event.kind->Message_message.thread_id == input.thread_id
            &&& event.kind->Message_message.reply_to_message_id == input.reply_to_message_id
            &&& event.kind->Message_message.audience == input.audience
            &&& event.kind->Message_mode == input.mode
            &&& is_receipt_for(receipt, after, event)
            &&& forall|id: Uuid| #[trigger]
                receipt.recipient_ids.contains(id) <==> id != input.author_id && is_meant(
                    state,
                    input.workspace_id,
                    input.audience,
                    id,
                )
        }),
{
    let home = input.workspace_id;
    let candidate = candidate_event(input, message_id, now);
    let after = route_outcome(state, input, message_id, now).1;
    let at = state.events.len() as int;
    lemma_free(state, home, input.author_id, input.idempotency_key);
    law_append_keeps_invariant(state, candidate, true);
    law_admitted_events_are_stored_as_given(state, candidate, true);
    let event = after.events[at];
    lemma_free(after, home, input.author_id, input.idempotency_key);
    assert(stands_under(after, at, home, input.author_id, input.idempotency_key));
    lemma_reached_rows(after, event.workspace_id, event.sequence);
    let members = roles_in(state.members, home);
    lemma_audience_listed(input.audience, members);
    lemma_others(audience_ids(input.audience, members), input.author_id);
    lemma_sequence_step(state, candidate);
    let recipients = recipients_of(state, candidate);
    assert forall|id: Uuid| #[trigger]
        reached(after, event.workspace_id, event.sequence).contains(id) <==> id != input.author_id
            && is_meant(state, home, input.audience, id) by {
        lemma_sent(after, event.workspace_id, event.sequence, id);
        lemma_new_delivery(state, candidate, recipients, id);
        lemma_meant(state, home, input.audience, id);
        assert(audience_ids(input.audience, members).contains(id) <==> addresses(
            input.audience,
            members,
            id,
        ));
    }
}

/// A message that is routed under a key that is taken changes nothing. It gets the
/// receipt for what stands there only where that says what was written, word for
/// word; and what says something else is a conflict, once the message itself is in
/// order.
pub proof fn law_routing_again_changes_nothing(
    state: StoreState,
    input: NewWorkspaceMessageView,
    message_id: Uuid,
    now: Timestamp,
    i: int,
)
    requires
        state.wf(),
        stands_under(state, i, input.workspace_id, input.author_id, input.idempotency_key),
    ensures
        route_outcome(state, input, message_id, now).1 == state,
        route_outcome(state, input, message_id, now).0 is Ok ==> says_what_was_written(
            state.events[i],
            input,
        ) && is_receipt_for(
            route_outcome(state, input, message_id, now).0->Ok_0,
            state,
            state.events[i],
        ),
        all_known(state) && !blank(input.text) && !blank(input.idempotency_key) && belongs(
            state,
            input.workspace_id,
            input.author_id,
        ) && is_served(state, input.workspace_id, input.audience) && (exists|id: Uuid| #[trigger]
            is_meant(state, input.workspace_id, input.audience, id) && id != input.author_id) ==> (
        route_outcome(state, input, message_id, now).0 == Err::<
            WorkspaceMessageReceiptView,
            WorkspaceError,
        >(WorkspaceError::IdempotencyConflict) <==> !says_what_was_written(state.events[i], input)),
{
    let home = input.workspace_id;
    lemma_free(state, home, input.author_id, input.idempotency_key);
    let event = state.events[i];
    assert(carries(event, input) <==> says_what_was_written(event, input));
    lemma_reached_rows(state, event.workspace_id, event.sequence);
    if all_known(state) {
        lemma_addressees(state, input);
        lemma_belongs(state, home, input.author_id);
    }
}

/// Why a message has no addressees, where everyone is known.
proof fn lemma_addressees(state: StoreState, input: NewWorkspaceMessageView)
    requires
        all_known(state),
    ensures
        ({
            let home = input.workspace_id;
            let refusal = addressees_refusal(input, roster_entries(state, home));
            let ids = addressees(input, roster_entries(state, home));
            &&& forall|id: Uuid| #[trigger]
                ids.contains(id) <==> id != input.author_id && is_meant(
                    state,
                    home,
                    input.audience,
                    id,
                )
            &&& increasing(ids)
            &&& refusal == Some(WorkspaceError::EmptyAudience) <==> forall|id: Uuid|
                !(#[trigger] is_meant(state, home, input.audience, id))
            &&& refusal == Some(WorkspaceError::AudienceNonMember) <==> exists|id: Uuid| #[trigger]
                is_meant(state, home, input.audience, id) && !belongs(state, home, id)
            &&& refusal == Some(WorkspaceError::OnlyAuthorAddressed) <==> is_served(
                state,
                home,
                input.audience,
            ) && forall|id: Uuid| #[trigger]
                is_meant(state, home, input.audience, id) ==> id == input.author_id
            &&& refusal is None <==> is_served(state, home, input.audience) && exists|id: Uuid|
             #[trigger]
                is_meant(state, home, input.audience, id) && id != input.author_id
            &&& refusal is None || refusal == Some(WorkspaceError::EmptyAudience) || refusal == Some(
                WorkspaceError::AudienceNonMember,
            ) || refusal == Some(WorkspaceError::OnlyAuthorAddressed)
        }),
{
    let home = input.workspace_id;
    assert(members_known(state)) by {
        assert forall|i: int| 0 <= i < state.members.len() implies some_item(
            state.participants,
            participant_is((#[trigger] state.members[i]).participant_id),
        ) by {
            assert(is_known(state, state.members[i].participant_id));
            lemma_rows(state, home, state.members[i].participant_id);
        }
    }
    lemma_roster_is_members(state, home);
    let members = roles_in(state.members, home);
    let all = audience_ids(input.audience, members);
    let ids = addressees(input, roster_entries(state, home));
    lemma_audience_listed(input.audience, members);
    lemma_others(all, input.author_id);
    lemma_served(state, home, input.audience);
    assert forall|id: Uuid| #[trigger] ids.contains(id) <==> id != input.author_id && is_meant(
        state,
        home,
        input.audience,
        id,
    ) by {
        lemma_meant(state, home, input.audience, id);
        assert(all.contains(id) <==> addresses(input.audience, members, id));
    }
    if ids.len() == 0 {
        assert forall|id: Uuid| #[trigger] is_meant(state, home, input.audience, id) implies id
            == input.author_id by {
            assert(!ids.contains(id));
        }
    } else {
        assert(ids.contains(ids[0]));
        assert(is_meant(state, home, input.audience, ids[0]) && ids[0] != input.author_id);
    }
}

/// A message whose key is new is routed exactly where it says something, has a key,
/// its author belongs to the workspace, its audience can be served and means somebody
/// besides the author, the thread and the message that it refers to, if any, are
/// there, and a sequence is left.
pub proof fn law_new_messages_are_routed_where_they_fit(
    state: StoreState,
    input: NewWorkspaceMessageView,
    message_id: Uuid,
    now: Timestamp,
)
    requires
        state.wf(),
        all_known(state),
        is_free(state, input.workspace_id, input.author_id, input.idempotency_key),
    ensures
        route_outcome(state, input, message_id, now).0 is Ok <==> {
            &&& !blank(input.text)
            &&& !blank(input.idempotency_key)
            &&& belongs(state, input.workspace_id, input.author_id)
            &&& is_served(state, input.workspace_id, input.audience)
            &&& exists|id: Uuid| #[trigger]
                is_meant(state, input.workspace_id, input.audience, id) && id != input.author_id
            &&& input.thread_id is Some ==> keeps_thread(
                state,
                input.workspace_id,
                input.thread_id->Some_0,
            )
            &&& input.reply_to_message_id is Some ==> keeps_message(
                state,
                input.workspace_id,
                input.reply_to_message_id->Some_0,
            )
            &&& has_room(state, input.workspace_id)
        },
{
    let home = input.workspace_id;
    let candidate = candidate_event(input, message_id, now);
    lemma_free(state, home, input.author_id, input.idempotency_key);
    lemma_addressees(state, input);
    lemma_belongs(state, home, input.author_id);
    law_new_events_are_admitted_where_they_fit(state, candidate, true);
    if !blank(input.idempotency_key) {
        assert(input.idempotency_key.len() > 0);
    }
    let outcome = append_outcome(state, candidate, true);
    if outcome.0 is Ok {
        let event = outcome.0->Ok_0;
        let after = outcome.1;
        lemma_reached_rows(after, event.workspace_id, event.sequence);
        let members = roles_in(state.members, home);
        lemma_audience_listed(input.audience, members);
        lemma_others(audience_ids(input.audience, members), input.author_id);
        lemma_sequence_step(state, candidate);
        let recipients = recipients_of(state, candidate);
        let expected = addressees(input, roster_entries(state, home));
        let ids = reached(after, event.workspace_id, event.sequence);
        assert forall|id: Uuid| #[trigger] ids.contains(id) <==> expected.contains(id) by {
            lemma_sent(after, event.workspace_id, event.sequence, id);
            lemma_new_delivery(state, candidate, recipients, id);
            lemma_meant(state, home, input.audience, id);
            assert(audience_ids(input.audience, members).contains(id) <==> addresses(
                input.audience,
                members,
                id,
            ));
        }
        lemma_increasing_unique(ids, expected);
    }
}

/// A message that is refused changes nothing, and is told the first thing that is
/// wrong with it.
pub proof fn law_refused_messages_are_told_why(
    state: StoreState,
    input: NewWorkspaceMessageView,
    message_id: Uuid,
    now: Timestamp,
)
    requires
        state.wf(),
        all_known(state),
        is_free(state, input.workspace_id, input.author_id, input.idempotency_key),
        route_outcome(state, input, message_id, now).0 is Err,
    ensures
        route_outcome(state, input, message_id, now).1 == state,
        ({
            let home = input.workspace_id;
            let error = route_outcome(state, input, message_id, now).0->Err_0;
            if blank(input.text) {
                error == WorkspaceError::EmptyMessage
            } else if blank(input.idempotency_key) {
                error == WorkspaceError::EmptyMessageKey
            } else if !belongs(state, home, input.author_id) {
                error == WorkspaceError::ViewerNotMember
            } else if forall|id: Uuid| !(#[trigger] is_meant(state, home, input.audience, id)) {
                error == WorkspaceError::EmptyAudience
            } else if !is_served(state, home, input.audience) {
                error == WorkspaceError::AudienceNonMember
            } else if forall|id: Uuid| #[trigger]
                is_meant(state, home, input.audience, id) ==> id == input.author_id {
                error == WorkspaceError::OnlyAuthorAddressed
            } else if input.thread_id is Some && !keeps_thread(
                state,
                home,
                input.thread_id->Some_0,
            ) {
                error == WorkspaceError::ThreadMissing
            } else if input.reply_to_message_id is Some && !keeps_message(
                state,
                home,
                input.reply_to_message_id->Some_0,
            ) {
                error == WorkspaceError::ReplyTargetMissing
            } else if !exists_workspace(state, home) {
                error == (WorkspaceError::WorkspaceUnknown { workspace_id: home })
            } else {
                error == WorkspaceError::SequenceExhausted && !has_room(state, home)
            }
        }),
{
    let home = input.workspace_id;
    let candidate = candidate_event(input, message_id, now);
    law_new_messages_are_routed_where_they_fit(state, input, message_id, now);
    lemma_free(state, home, input.author_id, input.idempotency_key);
    lemma_addressees(state, input);
    lemma_belongs(state, home, input.author_id);
    lemma_counts(state, home);
    if append_outcome(state, candidate, true).0 is Err {
        law_refusals_tell_what_is_wrong(state, candidate, true);
    } else {
        law_new_events_are_admitted_where_they_fit(state, candidate, true);
    }
}

} // verus!
