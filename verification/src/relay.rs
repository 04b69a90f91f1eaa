//! Mail that an authenticated relay accepted for this installation.

use crate::append::{append_outcome, result_view};
use crate::directory::{with_member, with_participant, with_workspace, Renewal};
use crate::error::WorkspaceError;
use crate::model::position;
use crate::outside::{uuid_string, uuid_text};
use crate::store::{participant_is, StoreState, WorkspaceTables};
use crate::text::{blank, is_blank};
use crate::workspace::{
    Audience, AudienceView, DeliveryMode, Participant, ParticipantKind, ParticipantView, Uuid,
    WorkspaceEvent, WorkspaceEventKind, WorkspaceEventKindView, WorkspaceEventView,
    WorkspaceMembership, WorkspaceMessage, WorkspaceMessageView, WorkspaceRole,
};
use vstd::prelude::*;
use vstd::string::StringExecFns;

verus! {

/// Why a relay delivery is refused, if it is.
pub open spec fn relay_refusal(
    state: StoreState,
    message: WorkspaceMessageView,
    recipient_id: Uuid,
) -> Option<WorkspaceError> {
    let author = position(state.participants, participant_is(message.author_id));
    if message.author_id == recipient_id {
        Some(WorkspaceError::RelayToSelf)
    } else if blank(message.body.text) {
        Some(WorkspaceError::EmptyRelayMessage)
    } else if message.audience != (AudienceView::Direct { participant: recipient_id }) {
        Some(WorkspaceError::RelayRecipientMismatch)
    } else if author is Some && state.participants[author->Some_0].kind != ParticipantKind::Agent {
        // A relay identity must not attach itself to a local human who happens
        // to share its identity.
        Some(WorkspaceError::RelayIdentityConflict)
    } else {
        None
    }
}

/// The tables once the conversation that a relay delivery belongs to is sure to
/// exist.
pub open spec fn with_conversation(
    state: StoreState,
    message: WorkspaceMessageView,
    author_name: Seq<char>,
    recipient_id: Uuid,
) -> StoreState {
    let of = |participant_id: Uuid|
        WorkspaceMembership {
            workspace_id: message.workspace_id,
            participant_id,
            role: WorkspaceRole::Viewer,
            joined_at: message.created_at,
        };
    StoreState {
        workspaces: with_workspace(
            state.workspaces,
            message.workspace_id,
            "Borg instance conversation"@,
            message.created_at,
        ),
        participants: with_participant(
            state.participants,
            ParticipantView {
                id: message.author_id,
                display_name: author_name,
                kind: ParticipantKind::Agent,
                created_at: message.created_at,
            },
            Renewal::Keep,
        ),
        members: with_member(
            with_member(state.members, of(message.author_id), false),
            of(recipient_id),
            false,
        ),
        ..state
    }
}

/// The event that a relay delivery becomes. Its key is the message's identity,
/// so that a repeated delivery is a retry.
pub open spec fn relay_event(message: WorkspaceMessageView, mode: DeliveryMode) -> WorkspaceEventView {
    WorkspaceEventView {
        id: message.id,
        workspace_id: message.workspace_id,
        sequence: 0,
        author_id: message.author_id,
        idempotency_key: "relay-message:"@ + uuid_text(message.id),
        created_at: message.created_at,
        kind: WorkspaceEventKindView::Message { message, mode },
    }
}

/// What importing a relay delivery returns, and the tables after it. The
/// conversation stays even where the message itself is then refused.
pub open spec fn relay_outcome(
    state: StoreState,
    message: WorkspaceMessageView,
    author_name: Seq<char>,
    recipient_id: Uuid,
    mode: DeliveryMode,
) -> (Result<WorkspaceEventView, WorkspaceError>, StoreState) {
    match relay_refusal(state, message, recipient_id) {
        Some(error) => (Err(error), state),
        None => append_outcome(
            with_conversation(state, message, author_name, recipient_id),
            relay_event(message, mode),
            false,
        ),
    }
}

impl WorkspaceTables {
    /// Projects an authenticated relay delivery into the same inbox as local
    /// messages.
    ///
    /// Thread and reply references are identities of elsewhere and are not
    /// looked up here.
    pub fn import_relay_message(
        &mut self,
        message: WorkspaceMessage,
        author_name: &str,
        recipient_id: Uuid,
        mode: DeliveryMode,
    ) -> (res: Result<WorkspaceEvent, WorkspaceError>)
        requires
            old(self)@.wf(),
        ensures
            result_view(res) == relay_outcome(
                old(self)@,
                message@,
                author_name@,
                recipient_id,
                mode,
            ).0,
            final(self)@ == relay_outcome(
                old(self)@,
                message@,
                author_name@,
                recipient_id,
                mode,
            ).1,
            final(self)@.wf(),
    {
        if message.author_id == recipient_id {
            return Err(WorkspaceError::RelayToSelf);
        }
        if is_blank(message.body.text.as_str()) {
            return Err(WorkspaceError::EmptyRelayMessage);
        }
        let addressed = match &message.audience {
            Audience::Direct { participant } => *participant == recipient_id,
            _ => false,
        };
        if !addressed {
            return Err(WorkspaceError::RelayRecipientMismatch);
        }
        if let Some(index) = self.participant_row(message.author_id) {
            assert(self@.participants[index as int] == self.participants@[index as int]@);
            if self.participants[index].kind != ParticipantKind::Agent {
                return Err(WorkspaceError::RelayIdentityConflict);
            }
        }
        self.keep_workspace(
            message.workspace_id,
            "Borg instance conversation",
            message.created_at,
        );
        self.keep_participant(
            Participant {
                id: message.author_id,
                display_name: author_name.to_owned(),
                kind: ParticipantKind::Agent,
                created_at: message.created_at,
            },
            Renewal::Keep,
        );
        self.keep_member(
            WorkspaceMembership {
                workspace_id: message.workspace_id,
                participant_id: message.author_id,
                role: WorkspaceRole::Viewer,
                joined_at: message.created_at,
            },
            false,
        );
        self.keep_member(
            WorkspaceMembership {
                workspace_id: message.workspace_id,
                participant_id: recipient_id,
                role: WorkspaceRole::Viewer,
                joined_at: message.created_at,
            },
            false,
        );
        let mut idempotency_key = "relay-message:".to_owned();
        idempotency_key.append(uuid_string(message.id).as_str());
        let event = WorkspaceEvent {
            id: message.id,
            workspace_id: message.workspace_id,
            sequence: 0,
            author_id: message.author_id,
            idempotency_key,
            created_at: message.created_at,
            kind: WorkspaceEventKind::Message { message, mode },
        };
        assert(event@ == relay_event(message@, mode));
        self.append_event(event, false)
    }
}

} // verus!
