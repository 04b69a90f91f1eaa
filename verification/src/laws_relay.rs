//! What becomes of mail that a relay delivers, told row by row.

use crate::append::append_outcome;
use crate::directory::{
    lemma_with_member_ok, lemma_with_participant_ok, lemma_with_workspace_ok, with_member, Renewal,
};
use crate::error::WorkspaceError;
use crate::facts::{
    belongs, counts_from, exists_workspace, is_free, is_meant, meant_audience, stands_under,
};
use crate::laws_admission::{
    has_room, law_admitted_events_are_stored_as_given, law_admitted_events_reach_their_audience,
    law_admitting_touches_nothing_else, law_new_events_are_admitted_where_they_fit,
    law_refusals_tell_what_is_wrong,
};
use crate::laws_directory::{
    has_made_sure_of, is_member_now, is_participant_now, lemma_member_now, lemma_member_rows,
    lemma_participant_rows, lemma_workspace_rows, same_journal,
};
use crate::model::{lemma_position, position};
use crate::outside::uuid_text;
use crate::relay::{relay_event, relay_outcome, relay_refusal, with_conversation};
use crate::store::{participant_is, StoreState};
use crate::text::blank;
use crate::workspace::{
    AudienceView, DeliveryMode, DeliveryState, ParticipantKind, ParticipantView, Uuid,
    WorkspaceEventView, WorkspaceMembership, WorkspaceMessageView, WorkspaceRole,
};
use vstd::prelude::*;

verus! {

/// Somebody is known as something other than an agent.
pub open spec fn is_known_as_other(state: StoreState, id: Uuid) -> bool {
    exists|i: int|
        0 <= i < state.participants.len() && (#[trigger] state.participants[i]).id == id
            && state.participants[i].kind != ParticipantKind::Agent
}

/// Mail is refused, and changes nothing, where it goes to its own author, says
/// nothing, is not addressed to its recipient alone, or comes in the name of somebody
/// who is known here and no agent. Each refusal tells of the first of these.
pub proof fn law_relays_cannot_bring_everything(
    state: StoreState,
    message: WorkspaceMessageView,
    author_name: Seq<char>,
    recipient_id: Uuid,
    mode: DeliveryMode,
)
    requires
        state.wf(),
    ensures
        ({
            let outcome = relay_outcome(state, message, author_name, recipient_id, mode);
            let refused = |error: WorkspaceError|
                outcome.0 == Err::<WorkspaceEventView, WorkspaceError>(error) && outcome.1 == state;
            if message.author_id == recipient_id {
                refused(WorkspaceError::RelayToSelf)
            } else if blank(message.body.text) {
                refused(WorkspaceError::EmptyRelayMessage)
            } else if !(message.audience is Direct) || message.audience->Direct_participant
                != recipient_id {
                refused(WorkspaceError::RelayRecipientMismatch)
            } else if is_known_as_other(state, message.author_id) {
                refused(WorkspaceError::RelayIdentityConflict)
            } else {
                outcome.0 is Ok || (outcome.0->Err_0 != WorkspaceError::RelayToSelf
                    && outcome.0->Err_0 != WorkspaceError::EmptyRelayMessage && outcome.0->Err_0
                    != WorkspaceError::RelayRecipientMismatch && outcome.0->Err_0
                    != WorkspaceError::RelayIdentityConflict)
            }
        }),
{
    lemma_identity(state, message.author_id);
    let outcome = relay_outcome(state, message, author_name, recipient_id, mode);
    if relay_refusal(state, message, recipient_id) is None && outcome.0 is Err {
        lemma_conversation(state, message, author_name, recipient_id);
        let middle = with_conversation(state, message, author_name, recipient_id);
        law_refusals_tell_what_is_wrong(
            middle,
            relay_event(message, mode),
            false,
        );
    }
}

/// How somebody is known.
proof fn lemma_identity(state: StoreState, id: Uuid)
    requires
        state.wf(),
    ensures
        is_known_as_other(state, id) <==> position(state.participants, participant_is(id)) is Some
            && state.participants[position(
            state.participants,
            participant_is(id),
        )->Some_0].kind != ParticipantKind::Agent,
{
    let selected = participant_is(id);
    lemma_position(state.participants, selected);
    if is_known_as_other(state, id) {
        let i = choose|i: int|
            0 <= i < state.participants.len() && (#[trigger] state.participants[i]).id == id
                && state.participants[i].kind != ParticipantKind::Agent;
        assert(selected(state.participants[i]));
        let at = position(state.participants, selected)->Some_0;
        if at < i {
            assert(state.participants[at].id != state.participants[i].id);
        }
    }
}

/// The conversation of a delivery is sound.
proof fn lemma_conversation(
    state: StoreState,
    message: WorkspaceMessageView,
    author_name: Seq<char>,
    recipient_id: Uuid,
)
    requires
        state.wf(),
    ensures
        with_conversation(state, message, author_name, recipient_id).wf(),
{
    let of = |participant_id: Uuid|
        WorkspaceMembership {
            workspace_id: message.workspace_id,
            participant_id,
            role: WorkspaceRole::Viewer,
            joined_at: message.created_at,
        };
    let author = ParticipantView {
        id: message.author_id,
        display_name: author_name,
        kind: ParticipantKind::Agent,
        created_at: message.created_at,
    };
    lemma_with_workspace_ok(
        state,
        message.workspace_id,
        "Borg instance conversation"@,
        message.created_at,
    );
    lemma_with_participant_ok(state.participants, author, Renewal::Keep);
    lemma_with_member_ok(state.members, of(message.author_id), false);
    lemma_with_member_ok(
        with_member(state.members, of(message.author_id), false),
        of(recipient_id),
        false,
    );
}

/// Mail that is not refused makes sure of its conversation: the workspace exists, its
/// author is known as an agent, under the name that was told unless they were known,
/// and author and recipient belong to it, as viewers unless they belonged to it
/// before. Nobody else is touched, whether the message itself is then admitted or
/// not.
pub proof fn law_relayed_mail_has_a_conversation(
    state: StoreState,
    message: WorkspaceMessageView,
    author_name: Seq<char>,
    recipient_id: Uuid,
    mode: DeliveryMode,
)
    requires
        state.wf(),
        message.author_id != recipient_id,
        !blank(message.body.text),
        message.audience == (AudienceView::Direct { participant: recipient_id }),
        !is_known_as_other(state, message.author_id),
    ensures
        ({
            let home = message.workspace_id;
            let after = relay_outcome(state, message, author_name, recipient_id, mode).1;
            &&& after.threads == state.threads
            &&& after.leases == state.leases
            &&& after.instances == state.instances
            &&& exists_workspace(after, home)
            &&& forall|row: ParticipantView| #[trigger]
                after.participants.contains(row) <==> if row.id == message.author_id {
                    is_participant_now(
                        state.participants,
                        row,
                        ParticipantView {
                            id: message.author_id,
                            display_name: author_name,
                            kind: ParticipantKind::Agent,
                            created_at: message.created_at,
                        },
                        false,
                        false,
                    )
                } else {
                    state.participants.contains(row)
                }
            &&& forall|row: WorkspaceMembership| #[trigger]
                after.members.contains(row) <==> if row.workspace_id == home && (row.participant_id
                    == message.author_id || row.participant_id == recipient_id) {
                    is_member_now(
                        state.members,
                        row,
                        WorkspaceMembership {
                            workspace_id: home,
                            participant_id: row.participant_id,
                            role: WorkspaceRole::Viewer,
                            joined_at: message.created_at,
                        },
                        false,
                    )
                } else {
                    state.members.contains(row)
                }
        }),
{
    let home = message.workspace_id;
    let middle = with_conversation(state, message, author_name, recipient_id);
    let event = relay_event(message, mode);
    lemma_identity(state, message.author_id);
    lemma_conversation_rows(state, message, author_name, recipient_id);
    law_admitting_touches_nothing_else(middle, event, false);
    let after = append_outcome(middle, event, false).1;
    let i = choose|i: int|
        0 <= i < middle.workspaces.len() && (#[trigger] middle.workspaces[i]).workspace.id == home;
    assert(after.workspaces[i].workspace.id == home);
}

/// What the conversation of a delivery consists of.
proof fn lemma_conversation_rows(
    state: StoreState,
    message: WorkspaceMessageView,
    author_name: Seq<char>,
    recipient_id: Uuid,
)
    requires
        state.wf(),
        message.author_id != recipient_id,
    ensures
        ({
            let home = message.workspace_id;
            let middle = with_conversation(state, message, author_name, recipient_id);
            &&& same_journal(state, middle)
            &&& has_made_sure_of(
                state,
                middle,
                home,
                "Borg instance conversation"@,
                message.created_at,
            )
            &&& exists_workspace(middle, home)
            &&& belongs(middle, home, message.author_id)
            &&& belongs(middle, home, recipient_id)
            &&& forall|row: ParticipantView| #[trigger]
                middle.participants.contains(row) <==> if row.id == message.author_id {
                    is_participant_now(
                        state.participants,
                        row,
                        ParticipantView {
                            id: message.author_id,
                            display_name: author_name,
                            kind: ParticipantKind::Agent,
                            created_at: message.created_at,
                        },
                        false,
                        false,
                    )
                } else {
                    state.participants.contains(row)
                }
            &&& forall|row: WorkspaceMembership| #[trigger]
                middle.members.contains(row) <==> if row.workspace_id == home && (row.participant_id
                    == message.author_id || row.participant_id == recipient_id) {
                    is_member_now(
                        state.members,
                        row,
                        WorkspaceMembership {
                            workspace_id: home,
                            participant_id: row.participant_id,
                            role: WorkspaceRole::Viewer,
                            joined_at: message.created_at,
                        },
                        false,
                    )
                } else {
                    state.members.contains(row)
                }
        }),
{
    let home = message.workspace_id;
    let middle = with_conversation(state, message, author_name, recipient_id);
    let of = |participant_id: Uuid|
        WorkspaceMembership {
            workspace_id: home,
            participant_id,
            role: WorkspaceRole::Viewer,
            joined_at: message.created_at,
        };
    let author = ParticipantView {
        id: message.author_id,
        display_name: author_name,
        kind: ParticipantKind::Agent,
        created_at: message.created_at,
    };
    lemma_workspace_rows(state, home, "Borg instance conversation"@, message.created_at);
    if !exists_workspace(state, home) {
        assert(middle.workspaces[state.workspaces.len() as int].workspace.id == home);
    } else {
        let i = choose|i: int|
            0 <= i < state.workspaces.len() && (#[trigger] state.workspaces[i]).workspace.id
                == home;
        assert(middle.workspaces[i].workspace.id == home);
    }
    assert forall|row: ParticipantView| #[trigger] middle.participants.contains(row) <==> if row.id
        == message.author_id {
        is_participant_now(state.participants, row, author, false, false)
    } else {
        state.participants.contains(row)
    } by {
        lemma_participant_rows(state.participants, author, Renewal::Keep, row);
    }
    let m0 = state.members;
    let m1 = with_member(m0, of(message.author_id), false);
    let m2 = with_member(m1, of(recipient_id), false);
    assert(middle.members == m2);
    lemma_with_member_ok(m0, of(message.author_id), false);
    assert forall|row: WorkspaceMembership| #[trigger] m2.contains(row) <==> if row.workspace_id
        == home && (row.participant_id == message.author_id || row.participant_id == recipient_id) {
        is_member_now(m0, row, of(row.participant_id), false)
    } else {
        m0.contains(row)
    } by {
        lemma_member_rows(m1, of(recipient_id), false, row);
        lemma_member_rows(m0, of(message.author_id), false, row);
        lemma_member_now(m0, m1, of(message.author_id), of(recipient_id), false, row);
    }
    lemma_is_in(m0, m2, of(message.author_id));
    lemma_is_in(m0, m2, of(recipient_id));
    assert(belongs(middle, home, message.author_id));
    assert(belongs(middle, home, recipient_id));
}

/// Who was added belongs.
proof fn lemma_is_in(
    before: Seq<WorkspaceMembership>,
    after: Seq<WorkspaceMembership>,
    offered: WorkspaceMembership,
)
    requires
        forall|row: WorkspaceMembership|
            row.workspace_id == offered.workspace_id && row.participant_id
                == offered.participant_id && is_member_now(before, row, offered, false)
                ==> #[trigger] after.contains(row),
    ensures
        exists|i: int|
            0 <= i < after.len() && (#[trigger] after[i]).workspace_id == offered.workspace_id
                && after[i].participant_id == offered.participant_id,
{
    let row = if exists|k: int|
        0 <= k < before.len() && (#[trigger] before[k]).workspace_id == offered.workspace_id
            && before[k].participant_id == offered.participant_id {
        before[choose|k: int|
            0 <= k < before.len() && (#[trigger] before[k]).workspace_id == offered.workspace_id
                && before[k].participant_id == offered.participant_id]
    } else {
        offered
    };
    assert(is_member_now(before, row, offered, false));
    assert(after.contains(row));
    let i = choose|i: int| 0 <= i < after.len() && after[i] == row;
    assert(after[i].participant_id == offered.participant_id);
}

/// Mail that is in order and new is imported: the message is stored as it came, under
/// its own identity and time and under a key that is made of that identity, and waits
/// for its recipient and for nobody else. Threads and messages that it refers to need
/// not be here.
pub proof fn law_relayed_mail_is_imported(
    state: StoreState,
    message: WorkspaceMessageView,
    author_name: Seq<char>,
    recipient_id: Uuid,
    mode: DeliveryMode,
)
    requires
        state.wf(),
        message.author_id != recipient_id,
        !blank(message.body.text),
        message.audience == (AudienceView::Direct { participant: recipient_id }),
        !is_known_as_other(state, message.author_id),
        is_free(
            state,
            message.workspace_id,
            message.author_id,
            "relay-message:"@ + uuid_text(message.id),
        ),
        exists_workspace(state, message.workspace_id) ==> has_room(state, message.workspace_id),
    ensures
        ({
            let outcome = relay_outcome(state, message, author_name, recipient_id, mode);
            let after = outcome.1;
            let event = after.events[state.events.len() as int];
            let sent = after.deliveries[state.deliveries.len() as int];
            &&& outcome.0 == Ok::<WorkspaceEventView, WorkspaceError>(event)
            &&& after.events.len() == state.events.len() + 1
            &&& forall|i: int|
                0 <= i < state.events.len() ==> #[trigger] after.events[i] == state.events[i]
            &&& event.id == message.id
            &&& event.workspace_id == message.workspace_id
            &&& event.author_id == message.author_id
            &&& event.created_at == message.created_at
            &&& event.idempotency_key == "relay-message:"@ + uuid_text(message.id)
            &&& event.kind is Message
            &&& event.kind->Message_message == message
            &&& event.kind->Message_mode == mode
            &&& after.deliveries.len() == state.deliveries.len() + 1
            &&& sent.is_message
            &&& sent.delivery.workspace_id == message.workspace_id
            &&& sent.delivery.sequence == event.sequence
            &&& sent.delivery.recipient_id == recipient_id
            &&& sent.delivery.mode == mode
            &&& sent.delivery.state == DeliveryState::Pending
        }),
{
    reveal_strlit("relay-message:");
    let home = message.workspace_id;
    let middle = with_conversation(state, message, author_name, recipient_id);
    let event = relay_event(message, mode);
    lemma_identity(state, message.author_id);
    lemma_conversation(state, message, author_name, recipient_id);
    lemma_conversation_rows(state, message, author_name, recipient_id);
    assert(event.idempotency_key.len() > 0);
    assert(is_free(middle, home, message.author_id, event.idempotency_key)) by {
        assert forall|i: int|
            !(#[trigger] stands_under(
                middle,
                i,
                home,
                message.author_id,
                event.idempotency_key,
            )) by {
            assert(!stands_under(state, i, home, message.author_id, event.idempotency_key));
        }
    }
    assert(has_room(middle, home)) by {
        if exists_workspace(state, home) {
            let n = choose|n: u64| #[trigger] counts_from(state, home, n) && n < i64::MAX;
            let i = choose|i: int|
                0 <= i < state.workspaces.len() && (#[trigger] state.workspaces[i]).workspace.id
                    == home && state.workspaces[i].next_sequence == n;
            assert(middle.workspaces[i].next_sequence == n);
            assert(counts_from(middle, home, n));
        } else {
            let i = state.workspaces.len() as int;
            assert(middle.workspaces[i].next_sequence == 1);
            assert(counts_from(middle, home, 1));
        }
    }
    assert forall|id: Uuid| #[trigger] is_meant(middle, home, message.audience, id) <==> id
        == recipient_id by {}
    assert(is_meant(middle, home, message.audience, recipient_id));
    law_new_events_are_admitted_where_they_fit(middle, event, false);
    law_admitted_events_are_stored_as_given(middle, event, false);
    law_admitted_events_reach_their_audience(middle, event, false);
    let after = append_outcome(middle, event, false).1;
    let n = state.deliveries.len() as int;
    law_admitting_touches_nothing_else(middle, event, false);
    assert(is_meant(middle, home, meant_audience(event.kind), recipient_id));
    let i = choose|i: int|
        n <= i < after.deliveries.len() && (#[trigger] after.deliveries[i]).delivery.recipient_id
            == recipient_id;
    assert forall|j: int| n <= j < after.deliveries.len() implies (
    #[trigger] after.deliveries[j]).delivery.recipient_id == recipient_id by {
        assert(is_meant(
            middle,
            home,
            meant_audience(event.kind),
            after.deliveries[j].delivery.recipient_id,
        ));
    }
    if after.deliveries.len() > n + 1 {
        assert(after.deliveries[n].delivery.recipient_id == after.deliveries[n
            + 1].delivery.recipient_id);
    }
}

} // verus!
