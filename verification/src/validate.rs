//! What an event must satisfy before a workspace accepts it.

use crate::audience::{is_listed, lists};
use crate::error::WorkspaceError;
use crate::model::{find, position, some_item};
use crate::store::{
    claim_is, thread_in, work_is, StoreState, WorkItem, WorkClaim, WorkspaceTables,
};
use crate::text::{blank, is_blank};
use crate::workspace::{
    Thread, Uuid, WorkspaceEvent, WorkspaceEventKind, WorkspaceEventKindView, WorkspaceEventView,
    WorkspaceRole,
};
use vstd::prelude::*;

verus! {

/// Selects the message that has an identity in a workspace.
pub open spec fn message_in(workspace_id: Uuid, message_id: Uuid) -> spec_fn(
    WorkspaceEventView,
) -> bool {
    |row: WorkspaceEventView|
        row.workspace_id == workspace_id && (row.kind matches WorkspaceEventKindView::Message {
            message,
            ..
        } && message.id == message_id)
}

/// The claim that currently holds a piece of work.
pub open spec fn current_claim(
    claims: Seq<WorkClaim>,
    workspace_id: Uuid,
    work_id: Uuid,
) -> Option<Uuid> {
    match position(claims, claim_is(workspace_id, work_id)) {
        Some(index) => Some(claims[index].claim_id),
        None => None,
    }
}

/// Why a workspace that has given members refuses what an event says, if it does.
/// A relayed message may refer to threads and messages that only exist elsewhere,
/// so its references are not looked up.
pub open spec fn content_refusal(
    state: StoreState,
    event: WorkspaceEventView,
    members: Seq<(Uuid, WorkspaceRole)>,
    validate_references: bool,
) -> Option<WorkspaceError> {
    let workspace_id = event.workspace_id;
    match event.kind {
        WorkspaceEventKindView::WorkCreated { work, .. } => {
            if blank(work.title) {
                Some(WorkspaceError::EmptyWorkTitle)
            } else if state.has_work(workspace_id, work.id) {
                Some(WorkspaceError::WorkExists)
            } else {
                None
            }
        },
        WorkspaceEventKindView::ArtifactPublished { artifact, .. } => {
            if blank(artifact.name) || blank(artifact.uri) {
                Some(WorkspaceError::EmptyArtifact)
            } else if artifact.work_id is Some && !state.has_work(
                workspace_id,
                artifact.work_id->Some_0,
            ) {
                Some(WorkspaceError::ArtifactWorkMissing)
            } else {
                None
            }
        },
        WorkspaceEventKindView::Message { message, .. } => {
            if message.workspace_id != workspace_id || message.author_id != event.author_id {
                Some(WorkspaceError::MessageMismatch)
            } else if validate_references && message.thread_id is Some && !some_item(
                state.threads,
                thread_in(workspace_id, message.thread_id->Some_0),
            ) {
                Some(WorkspaceError::ThreadMissing)
            } else if validate_references && message.reply_to_message_id is Some && !some_item(
                state.events,
                message_in(workspace_id, message.reply_to_message_id->Some_0),
            ) {
                Some(WorkspaceError::ReplyTargetMissing)
            } else {
                None
            }
        },
        WorkspaceEventKindView::DecisionRecorded { decision, .. } => {
            if blank(decision.subject) || blank(decision.outcome) {
                Some(WorkspaceError::EmptyDecision)
            } else {
                None
            }
        },
        WorkspaceEventKindView::WorkClaimed { claim, .. } => {
            if !state.has_work(workspace_id, claim.work_id) {
                Some(WorkspaceError::ClaimedWorkMissing)
            } else if !is_listed(members, claim.claimant_id) {
                Some(WorkspaceError::ClaimantNotMember)
            } else if current_claim(state.claims, workspace_id, claim.work_id)
                != claim.expected_claim_id {
                Some(WorkspaceError::ClaimConflict)
            } else {
                None
            }
        },
        WorkspaceEventKindView::DependencyDeclared { dependency, .. } => {
            if dependency.work_id == dependency.depends_on_work_id {
                Some(WorkspaceError::SelfDependency)
            } else if !state.has_work(workspace_id, dependency.work_id) || !state.has_work(
                workspace_id,
                dependency.depends_on_work_id,
            ) {
                Some(WorkspaceError::DependencyWorkMissing)
            } else {
                None
            }
        },
        WorkspaceEventKindView::ReviewRequested { request, .. } => {
            if !state.has_work(workspace_id, request.work_id) {
                Some(WorkspaceError::ReviewedWorkMissing)
            } else if request.requested_reviewer_id is Some && !is_listed(
                members,
                request.requested_reviewer_id->Some_0,
            ) {
                Some(WorkspaceError::RequestedReviewerNotMember)
            } else {
                None
            }
        },
        WorkspaceEventKindView::ReviewRecorded { review, .. } => {
            if !state.has_work(workspace_id, review.work_id) {
                Some(WorkspaceError::ReviewedWorkMissing)
            } else if !is_listed(members, review.reviewer_id) {
                Some(WorkspaceError::ReviewerNotMember)
            } else if blank(review.verdict) {
                Some(WorkspaceError::EmptyVerdict)
            } else {
                None
            }
        },
        _ => None,
    }
}

impl WorkspaceTables {
    /// Whether a workspace has a piece of work.
    pub fn work_exists(&self, workspace_id: Uuid, work_id: Uuid) -> (res: bool)
        ensures
            res == self@.has_work(workspace_id, work_id),
    {
        let test = |row: &WorkItem| -> (answer: bool)
            ensures
                answer == work_is(workspace_id, work_id)(row@),
        { row.workspace_id == workspace_id && row.work_id == work_id };
        find(&self.work_items, test, Ghost(work_is(workspace_id, work_id))).is_some()
    }

    /// Whether a workspace has a thread.
    fn thread_exists(&self, workspace_id: Uuid, thread_id: Uuid) -> (res: bool)
        ensures
            res == some_item(self@.threads, thread_in(workspace_id, thread_id)),
    {
        let test = |row: &Thread| -> (answer: bool)
            ensures
                answer == thread_in(workspace_id, thread_id)(row@),
        { row.id == thread_id && row.workspace_id == workspace_id };
        find(&self.threads, test, Ghost(thread_in(workspace_id, thread_id))).is_some()
    }

    /// Whether a workspace has a message.
    fn message_exists(&self, workspace_id: Uuid, message_id: Uuid) -> (res: bool)
        ensures
            res == some_item(self@.events, message_in(workspace_id, message_id)),
    {
        let test = |row: &WorkspaceEvent| -> (answer: bool)
            ensures
                answer == message_in(workspace_id, message_id)(row@),
        { row.workspace_id == workspace_id && match &row.kind {
                        WorkspaceEventKind::Message { message, .. } => message.id == message_id,
                        _ => false,
                    } };
        find(&self.events, test, Ghost(message_in(workspace_id, message_id))).is_some()
    }

    /// The claim that currently holds a piece of work.
    fn claim_on(&self, workspace_id: Uuid, work_id: Uuid) -> (res: Option<Uuid>)
        ensures
            res == current_claim(self@.claims, workspace_id, work_id),
    {
        let test = |row: &WorkClaim| -> (answer: bool)
            ensures
                answer == claim_is(workspace_id, work_id)(row@),
        { row.workspace_id == workspace_id && row.work_id == work_id };
        match find(&self.claims, test, Ghost(claim_is(workspace_id, work_id))) {
            Some(index) => Some(self.claims[index].claim_id),
            None => None,
        }
    }

    /// Validates an event against the current state of its workspace, whose
    /// members are given.
    pub fn validate(
        &self,
        event: &WorkspaceEvent,
        members: &Vec<(Uuid, WorkspaceRole)>,
        validate_references: bool,
    ) -> (res: Result<(), WorkspaceError>)
        ensures
            res == match content_refusal(self@, event@, members@, validate_references) {
                Some(error) => Err::<(), WorkspaceError>(error),
                None => Ok(()),
            },
    {
        let workspace_id: Uuid = event.workspace_id;
        match &event.kind {
            WorkspaceEventKind::WorkCreated { work, .. } => {
                if is_blank(work.title.as_str()) {
                    return Err(WorkspaceError::EmptyWorkTitle);
                }
                if self.work_exists(workspace_id, work.id) {
                    return Err(WorkspaceError::WorkExists);
                }
            },
            WorkspaceEventKind::ArtifactPublished { artifact, .. } => {
                if is_blank(artifact.name.as_str()) || is_blank(artifact.uri.as_str()) {
                    return Err(WorkspaceError::EmptyArtifact);
                }
                if let Some(work_id) = artifact.work_id {
                    if !self.work_exists(workspace_id, work_id) {
                        return Err(WorkspaceError::ArtifactWorkMissing);
                    }
                }
            },
            WorkspaceEventKind::Message { message, .. } => {
                if message.workspace_id != workspace_id || message.author_id != event.author_id {
                    return Err(WorkspaceError::MessageMismatch);
                }
                if validate_references {
                    if let Some(thread_id) = message.thread_id {
                        if !self.thread_exists(workspace_id, thread_id) {
                            return Err(WorkspaceError::ThreadMissing);
                        }
                    }
                    if let Some(message_id) = message.reply_to_message_id {
                        if !self.message_exists(workspace_id, message_id) {
                            return Err(WorkspaceError::ReplyTargetMissing);
                        }
                    }
                }
            },
            WorkspaceEventKind::DecisionRecorded { decision, .. } => {
                if is_blank(decision.subject.as_str()) || is_blank(decision.outcome.as_str()) {
                    return Err(WorkspaceError::EmptyDecision);
                }
            },
            WorkspaceEventKind::WorkClaimed { claim, .. } => {
                if !self.work_exists(workspace_id, claim.work_id) {
                    return Err(WorkspaceError::ClaimedWorkMissing);
                }
                if !lists(members, claim.claimant_id) {
                    return Err(WorkspaceError::ClaimantNotMember);
                }
                // Compare-and-set: the claimant states which claim it believes
                // to be current, so two claimants cannot both win.
                if self.claim_on(workspace_id, claim.work_id) != claim.expected_claim_id {
                    return Err(WorkspaceError::ClaimConflict);
                }
            },
            WorkspaceEventKind::DependencyDeclared { dependency, .. } => {
                if dependency.work_id == dependency.depends_on_work_id {
                    return Err(WorkspaceError::SelfDependency);
                }
                if !self.work_exists(workspace_id, dependency.work_id) || !self.work_exists(
                    workspace_id,
                    dependency.depends_on_work_id,
                ) {
                    return Err(WorkspaceError::DependencyWorkMissing);
                }
            },
            WorkspaceEventKind::ReviewRequested { request, .. } => {
                if !self.work_exists(workspace_id, request.work_id) {
                    return Err(WorkspaceError::ReviewedWorkMissing);
                }
                if let Some(reviewer_id) = request.requested_reviewer_id {
                    if !lists(members, reviewer_id) {
                        return Err(WorkspaceError::RequestedReviewerNotMember);
                    }
                }
            },
            WorkspaceEventKind::ReviewRecorded { review, .. } => {
                if !self.work_exists(workspace_id, review.work_id) {
                    return Err(WorkspaceError::ReviewedWorkMissing);
                }
                if !lists(members, review.reviewer_id) {
                    return Err(WorkspaceError::ReviewerNotMember);
                }
                if is_blank(review.verdict.as_str()) {
                    return Err(WorkspaceError::EmptyVerdict);
                }
            },
            _ => {},
        }
        Ok(())
    }
}

} // verus!
