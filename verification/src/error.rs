//! Why a workspace operation was refused.

use crate::outside::{uuid_string, uuid_text};
use crate::workspace::Uuid;
use vstd::prelude::*;
use vstd::string::StringExecFns;

verus! {

/// A refused workspace operation.
#[derive(Debug, Clone, Copy, PartialEq, Eq, Structural)]
pub enum WorkspaceError {
    /// An event needs a key under which a retry is recognised.
    EmptyIdempotencyKey,
    /// The key already stands for another payload.
    IdempotencyConflict,
    /// Only members author events.
    AuthorNotMember,
    /// Work has a title.
    EmptyWorkTitle,
    /// Work is created once.
    WorkExists,
    /// An artifact has a name and a URI.
    EmptyArtifact,
    /// An artifact belongs to work of its workspace.
    ArtifactWorkMissing,
    /// A message carries the workspace and author of its event.
    MessageMismatch,
    /// A message joins a thread of its workspace.
    ThreadMissing,
    /// A message answers a message of its workspace.
    ReplyTargetMissing,
    /// A decision has a subject and an outcome.
    EmptyDecision,
    /// Claimed work is in the workspace.
    ClaimedWorkMissing,
    /// Only members claim work.
    ClaimantNotMember,
    /// The claim that the claimant saw is no longer current.
    ClaimConflict,
    /// Work does not wait for itself.
    SelfDependency,
    /// Both ends of a dependency are in the workspace.
    DependencyWorkMissing,
    /// Reviewed work is in the workspace.
    ReviewedWorkMissing,
    /// A review is asked of a member.
    RequestedReviewerNotMember,
    /// Only members review.
    ReviewerNotMember,
    /// A review has a verdict.
    EmptyVerdict,
    /// An audience addresses someone.
    EmptyAudience,
    /// An audience addresses members only.
    AudienceNonMember,
    /// The workspace has handed out its last sequence.
    SequenceExhausted,
    /// A projection batch holds session events of one workspace.
    IncompatibleBatch,
    /// Only members read a workspace.
    ViewerNotMember,
    /// A number does not fit the journal's signed 64-bit columns.
    OutOfRange,
    /// The recipient was not addressed.
    NoDelivery,
    /// A delivery does not move that way.
    InvalidTransition,
    /// A lease lies in the future.
    LeaseExpired,
    /// Only members are present.
    PresenceNotMember,
    /// A direct conversation has two ends.
    DirectToSelf,
    /// A relay delivery has two ends.
    RelayToSelf,
    /// A relayed message says something.
    EmptyRelayMessage,
    /// A relayed message is addressed to its recipient alone.
    RelayRecipientMismatch,
    /// A relayed author is an agent.
    RelayIdentityConflict,
    /// A roster is projected onto a workspace that exists.
    RelayWorkspaceMissing,
    /// Only agents are instances.
    NotAnAgent,
    /// A message says something.
    EmptyMessage,
    /// A message needs a key under which a retry is recognised.
    EmptyMessageKey,
    /// A message addresses someone besides its author.
    OnlyAuthorAddressed,
    /// A receipt is for a message.
    NotAMessage,
    /// The recipients reached are not those that were authorized.
    ReceiptMismatch,
    /// A row with this identity exists.
    DuplicateKey,
    /// There is no such workspace.
    WorkspaceUnknown { workspace_id: Uuid },
    /// There is no such participant.
    DirectParticipantUnknown { participant_id: Uuid },
}

impl WorkspaceError {
    /// The text that describes the refusal.
    pub open spec fn text(self) -> Seq<char> {
        match self {
            WorkspaceError::EmptyIdempotencyKey => "idempotency key must not be empty"@,
            WorkspaceError::IdempotencyConflict => "idempotency conflict: key was used with a different payload"@,
            WorkspaceError::AuthorNotMember => "author is not a workspace member"@,
            WorkspaceError::EmptyWorkTitle => "work title must not be empty"@,
            WorkspaceError::WorkExists => "work already exists in workspace"@,
            WorkspaceError::EmptyArtifact => "artifact name and URI must not be empty"@,
            WorkspaceError::ArtifactWorkMissing => "artifact work item is not in workspace"@,
            WorkspaceError::MessageMismatch => "message workspace/author mismatch"@,
            WorkspaceError::ThreadMissing => "thread is not in workspace"@,
            WorkspaceError::ReplyTargetMissing => "reply target is not in workspace"@,
            WorkspaceError::EmptyDecision => "decision subject and outcome must not be empty"@,
            WorkspaceError::ClaimedWorkMissing => "claimed work item is not in workspace"@,
            WorkspaceError::ClaimantNotMember => "claimant is not a workspace member"@,
            WorkspaceError::ClaimConflict => "atomic claim conflict"@,
            WorkspaceError::SelfDependency => "work cannot depend on itself"@,
            WorkspaceError::DependencyWorkMissing => "dependency work item is not in workspace"@,
            WorkspaceError::ReviewedWorkMissing => "reviewed work item is not in workspace"@,
            WorkspaceError::RequestedReviewerNotMember => "requested review participant is not a workspace member"@,
            WorkspaceError::ReviewerNotMember => "reviewing participant is not a workspace member"@,
            WorkspaceError::EmptyVerdict => "review verdict must not be empty"@,
            WorkspaceError::EmptyAudience => "audience resolves to no members"@,
            WorkspaceError::AudienceNonMember => "audience contains a non-member"@,
            WorkspaceError::SequenceExhausted => "workspace sequence is out of range"@,
            WorkspaceError::IncompatibleBatch => "session projection batch contains an incompatible workspace event"@,
            WorkspaceError::ViewerNotMember => "viewer is not a workspace member"@,
            WorkspaceError::OutOfRange => "out of range integral type conversion attempted"@,
            WorkspaceError::NoDelivery => "recipient has no delivery"@,
            WorkspaceError::InvalidTransition => "invalid non-monotonic delivery transition"@,
            WorkspaceError::LeaseExpired => "presence lease must expire in the future"@,
            WorkspaceError::PresenceNotMember => "presence participant is not a workspace member"@,
            WorkspaceError::DirectToSelf => "direct message recipient must differ from its author"@,
            WorkspaceError::RelayToSelf => "relay sender cannot be its recipient"@,
            WorkspaceError::EmptyRelayMessage => "relay message is empty"@,
            WorkspaceError::RelayRecipientMismatch => "relay delivery recipient mismatch"@,
            WorkspaceError::RelayIdentityConflict => "relay agent identity conflicts with a local human participant"@,
            WorkspaceError::RelayWorkspaceMissing => "relay workspace is not materialized locally"@,
            WorkspaceError::NotAnAgent => "instance must be an agent"@,
            WorkspaceError::EmptyMessage => "workspace message is empty"@,
            WorkspaceError::EmptyMessageKey => "workspace message idempotency key is empty"@,
            WorkspaceError::OnlyAuthorAddressed => "message audience resolves only to its author"@,
            WorkspaceError::NotAMessage => "workspace message receipt references a non-message event"@,
            WorkspaceError::ReceiptMismatch => "workspace delivery receipt does not match the authorized audience"@,
            WorkspaceError::DuplicateKey => "duplicate key value violates a unique constraint"@,
            WorkspaceError::WorkspaceUnknown { workspace_id } => "workspace "@ + uuid_text(workspace_id)
                + " does not exist"@,
            WorkspaceError::DirectParticipantUnknown { participant_id } =>
                "direct message participant "@ + uuid_text(participant_id) + " is unknown"@,
        }
    }

    /// Describes the refusal.
    pub fn message(&self) -> (res: String)
        ensures
            res@ == self.text(),
    {
        match self {
            WorkspaceError::EmptyIdempotencyKey => "idempotency key must not be empty".to_owned(),
            WorkspaceError::IdempotencyConflict => "idempotency conflict: key was used with a different payload".to_owned(),
            WorkspaceError::AuthorNotMember => "author is not a workspace member".to_owned(),
            WorkspaceError::EmptyWorkTitle => "work title must not be empty".to_owned(),
            WorkspaceError::WorkExists => "work already exists in workspace".to_owned(),
            WorkspaceError::EmptyArtifact => "artifact name and URI must not be empty".to_owned(),
            WorkspaceError::ArtifactWorkMissing => "artifact work item is not in workspace".to_owned(),
            WorkspaceError::MessageMismatch => "message workspace/author mismatch".to_owned(),
            WorkspaceError::ThreadMissing => "thread is not in workspace".to_owned(),
            WorkspaceError::ReplyTargetMissing => "reply target is not in workspace".to_owned(),
            WorkspaceError::EmptyDecision => "decision subject and outcome must not be empty".to_owned(),
            WorkspaceError::ClaimedWorkMissing => "claimed work item is not in workspace".to_owned(),
            WorkspaceError::ClaimantNotMember => "claimant is not a workspace member".to_owned(),
            WorkspaceError::ClaimConflict => "atomic claim conflict".to_owned(),
            WorkspaceError::SelfDependency => "work cannot depend on itself".to_owned(),
            WorkspaceError::DependencyWorkMissing => "dependency work item is not in workspace".to_owned(),
            WorkspaceError::ReviewedWorkMissing => "reviewed work item is not in workspace".to_owned(),
            WorkspaceError::RequestedReviewerNotMember => "requested review participant is not a workspace member".to_owned(),
            WorkspaceError::ReviewerNotMember => "reviewing participant is not a workspace member".to_owned(),
            WorkspaceError::EmptyVerdict => "review verdict must not be empty".to_owned(),
            WorkspaceError::EmptyAudience => "audience resolves to no members".to_owned(),
            WorkspaceError::AudienceNonMember => "audience contains a non-member".to_owned(),
            WorkspaceError::SequenceExhausted => "workspace sequence is out of range".to_owned(),
            WorkspaceError::IncompatibleBatch => "session projection batch contains an incompatible workspace event".to_owned(),
            WorkspaceError::ViewerNotMember => "viewer is not a workspace member".to_owned(),
            WorkspaceError::OutOfRange => "out of range integral type conversion attempted".to_owned(),
            WorkspaceError::NoDelivery => "recipient has no delivery".to_owned(),
            WorkspaceError::InvalidTransition => "invalid non-monotonic delivery transition".to_owned(),
            WorkspaceError::LeaseExpired => "presence lease must expire in the future".to_owned(),
            WorkspaceError::PresenceNotMember => "presence participant is not a workspace member".to_owned(),
            WorkspaceError::DirectToSelf => "direct message recipient must differ from its author".to_owned(),
            WorkspaceError::RelayToSelf => "relay sender cannot be its recipient".to_owned(),
            WorkspaceError::EmptyRelayMessage => "relay message is empty".to_owned(),
            WorkspaceError::RelayRecipientMismatch => "relay delivery recipient mismatch".to_owned(),
            WorkspaceError::RelayIdentityConflict => "relay agent identity conflicts with a local human participant".to_owned(),
            WorkspaceError::RelayWorkspaceMissing => "relay workspace is not materialized locally".to_owned(),
            WorkspaceError::NotAnAgent => "instance must be an agent".to_owned(),
            WorkspaceError::EmptyMessage => "workspace message is empty".to_owned(),
            WorkspaceError::EmptyMessageKey => "workspace message idempotency key is empty".to_owned(),
            WorkspaceError::OnlyAuthorAddressed => "message audience resolves only to its author".to_owned(),
            WorkspaceError::NotAMessage => "workspace message receipt references a non-message event".to_owned(),
            WorkspaceError::ReceiptMismatch => "workspace delivery receipt does not match the authorized audience".to_owned(),
            WorkspaceError::DuplicateKey => "duplicate key value violates a unique constraint".to_owned(),
            WorkspaceError::WorkspaceUnknown { workspace_id } => {
                let mut text = "workspace ".to_owned();
                text.append(uuid_string(*workspace_id).as_str());
                text.append(" does not exist");
                text
            },
            WorkspaceError::DirectParticipantUnknown { participant_id } => {
                let mut text = "direct message participant ".to_owned();
                text.append(uuid_string(*participant_id).as_str());
                text.append(" is unknown");
                text
            },
        }
    }
}

} // verus!
