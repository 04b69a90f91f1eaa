//! What an event is, apart from when it was written and under which identity.

use crate::time::Timestamp;
use crate::workspace::{
    Audience, AudienceView, DeliveryMode, WorkspaceEvent, WorkspaceEventKind,
    WorkspaceEventKindView, WorkspaceEventView, WorkspaceMessage, WorkspaceMessageView,
};
use vstd::prelude::*;

verus! {

/// A kind of event without the identity and time of its message.
pub open spec fn canonical_kind(kind: WorkspaceEventKindView) -> WorkspaceEventKindView {
    match kind {
        WorkspaceEventKindView::Message { message, mode } => WorkspaceEventKindView::Message {
            message: WorkspaceMessageView {
                id: 0,
                created_at: Timestamp { secs: 0, nanos: 0 },
                ..message
            },
            mode,
        },
        _ => kind,
    }
}

/// An event without identity, sequence and times, so that a retry of the same
/// logical event looks the same.
pub open spec fn canonical(event: WorkspaceEventView) -> WorkspaceEventView {
    WorkspaceEventView {
        id: 0,
        sequence: 0,
        created_at: Timestamp { secs: 0, nanos: 0 },
        kind: canonical_kind(event.kind),
        ..event
    }
}

/// The form of an event that an idempotency key is checked against.
pub fn canonical_event(event: WorkspaceEvent) -> (res: WorkspaceEvent)
    ensures
        res@ == canonical(event@),
{
    let kind = match event.kind {
        WorkspaceEventKind::Message { message, mode } => WorkspaceEventKind::Message {
            message: WorkspaceMessage {
                id: 0,
                workspace_id: message.workspace_id,
                thread_id: message.thread_id,
                reply_to_message_id: message.reply_to_message_id,
                author_id: message.author_id,
                body: message.body,
                audience: message.audience,
                created_at: Timestamp::epoch(),
            },
            mode,
        },
        other => other,
    };
    WorkspaceEvent {
        id: 0,
        workspace_id: event.workspace_id,
        sequence: 0,
        author_id: event.author_id,
        idempotency_key: event.idempotency_key,
        created_at: Timestamp::epoch(),
        kind,
    }
}

/// How urgently an event is delivered.
pub open spec fn mode_of(kind: WorkspaceEventKindView) -> DeliveryMode {
    match kind {
        WorkspaceEventKindView::Message { mode, .. } => mode,
        WorkspaceEventKindView::SessionEvent { mode, .. } => mode,
        WorkspaceEventKindView::WorkCreated { mode, .. } => mode,
        WorkspaceEventKindView::ArtifactPublished { mode, .. } => mode,
        WorkspaceEventKindView::DecisionRecorded { mode, .. } => mode,
        WorkspaceEventKindView::WorkClaimed { mode, .. } => mode,
        WorkspaceEventKindView::DependencyDeclared { mode, .. } => mode,
        WorkspaceEventKindView::ReviewRequested { mode, .. } => mode,
        WorkspaceEventKindView::ReviewRecorded { mode, .. } => mode,
        WorkspaceEventKindView::ReferenceAdded { mode, .. } => mode,
        WorkspaceEventKindView::ProvenanceRecorded { mode, .. } => mode,
    }
}

/// Whom an event is for. Only a message carries its own audience.
pub open spec fn audience_of(kind: WorkspaceEventKindView) -> AudienceView {
    match kind {
        WorkspaceEventKindView::Message { message, .. } => message.audience,
        _ => AudienceView::Workspace,
    }
}

/// How urgently an event is delivered, and to whom.
pub fn routing(kind: &WorkspaceEventKind) -> (res: (DeliveryMode, Audience))
    ensures
        res.0 == mode_of(kind@),
        res.1@ == audience_of(kind@),
{
    match kind {
        WorkspaceEventKind::Message { message, mode } => (*mode, message.audience.clone()),
        WorkspaceEventKind::SessionEvent { mode, .. } => (*mode, Audience::Workspace),
        WorkspaceEventKind::WorkCreated { mode, .. } => (*mode, Audience::Workspace),
        WorkspaceEventKind::ArtifactPublished { mode, .. } => (*mode, Audience::Workspace),
        WorkspaceEventKind::DecisionRecorded { mode, .. } => (*mode, Audience::Workspace),
        WorkspaceEventKind::WorkClaimed { mode, .. } => (*mode, Audience::Workspace),
        WorkspaceEventKind::DependencyDeclared { mode, .. } => (*mode, Audience::Workspace),
        WorkspaceEventKind::ReviewRequested { mode, .. } => (*mode, Audience::Workspace),
        WorkspaceEventKind::ReviewRecorded { mode, .. } => (*mode, Audience::Workspace),
        WorkspaceEventKind::ReferenceAdded { mode, .. } => (*mode, Audience::Workspace),
        WorkspaceEventKind::ProvenanceRecorded { mode, .. } => (*mode, Audience::Workspace),
    }
}

} // verus!
