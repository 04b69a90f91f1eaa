//! What becomes of an event that is appended, told row by row.

use crate::append::{
    append_outcome, key_holder, lemma_others, lemma_sequence_step, recipients_of, sequenced,
};
use crate::audience::{
    addresses, audience_ids, audience_refusal, is_listed, lemma_audience_listed,
};
use crate::error::WorkspaceError;
use crate::event::{audience_of, canonical};
use crate::facts::{
    belongs, counts_from, exists_workspace, is_claimed, is_free, is_meant, is_served, is_unclaimed,
    keeps_message, keeps_thread, keeps_work, lemma_belongs, lemma_claimed, lemma_free, lemma_meant,
    lemma_rows, meant_audience, says_the_same, stands_under, urgency,
};
use crate::laws::law_append_keeps_invariant;
use crate::model::{lemma_position, position};
use crate::store::{
    claim_is, edge_is, event_keyed, next_sequence, roles_in, workspace_is, StoreState, WorkClaim,
    WorkEdge, WorkItem,
};
use crate::text::blank;
use crate::validate::{content_refusal, current_claim};
use crate::workspace::{
    AudienceView, DeliveryState, Uuid, WorkspaceEventKindView, WorkspaceEventView,
};
use vstd::prelude::*;

verus! {

/// An event fits its workspace: what it says is filled in, and what it refers to is
/// there.
pub open spec fn fits(state: StoreState, event: WorkspaceEventView, references: bool) -> bool {
    let home = event.workspace_id;
    match event.kind {
        WorkspaceEventKindView::Message { message, mode } => {
            &&& message.workspace_id == home
            &&& message.author_id == event.author_id
            &&& references && message.thread_id is Some ==> keeps_thread(
                state,
                home,
                message.thread_id->Some_0,
            )
            &&& references && message.reply_to_message_id is Some ==> keeps_message(
                state,
                home,
                message.reply_to_message_id->Some_0,
            )
        },
        WorkspaceEventKindView::WorkCreated { work, mode } => !blank(work.title) && !keeps_work(
            state,
            home,
            work.id,
        ),
        WorkspaceEventKindView::ArtifactPublished { artifact, mode } => {
            &&& !blank(artifact.name)
            &&& !blank(artifact.uri)
            &&& artifact.work_id is Some ==> keeps_work(state, home, artifact.work_id->Some_0)
        },
        WorkspaceEventKindView::DecisionRecorded { decision, mode } => !blank(decision.subject)
            && !blank(decision.outcome),
        WorkspaceEventKindView::WorkClaimed { claim, mode } => {
            &&& keeps_work(state, home, claim.work_id)
            &&& belongs(state, home, claim.claimant_id)
            &&& match claim.expected_claim_id {
                None => is_unclaimed(state, home, claim.work_id),
                Some(claim_id) => is_claimed(state, home, claim.work_id, claim_id),
            }
        },
        WorkspaceEventKindView::DependencyDeclared { dependency, mode } => {
            &&& dependency.work_id != dependency.depends_on_work_id
            &&& keeps_work(state, home, dependency.work_id)
            &&& keeps_work(state, home, dependency.depends_on_work_id)
        },
        WorkspaceEventKindView::ReviewRequested { request, mode } => {
            &&& keeps_work(state, home, request.work_id)
            &&& request.requested_reviewer_id is Some ==> belongs(
                state,
                home,
                request.requested_reviewer_id->Some_0,
            )
        },
        WorkspaceEventKindView::ReviewRecorded { review, mode } => {
            &&& keeps_work(state, home, review.work_id)
            &&& belongs(state, home, review.reviewer_id)
            &&& !blank(review.verdict)
        },
        WorkspaceEventKindView::SessionEvent {
            session_id,
            session_event_id,
            session_sequence,
            mode,
        } => true,
        WorkspaceEventKindView::ReferenceAdded { reference, mode } => true,
        WorkspaceEventKindView::ProvenanceRecorded { provenance, mode } => true,
    }
}

/// A workspace has a sequence left to hand out.
pub open spec fn has_room(state: StoreState, workspace_id: Uuid) -> bool {
    exists|sequence: u64| #[trigger]
        counts_from(state, workspace_id, sequence) && sequence < i64::MAX
}

/// What stands in the way of an event, given why it was refused. Each refusal tells
/// of the first thing that is wrong.
pub open spec fn explains(
    state: StoreState,
    event: WorkspaceEventView,
    references: bool,
    error: WorkspaceError,
) -> bool {
    let home = event.workspace_id;
    let free = is_free(state, home, event.author_id, event.idempotency_key);
    let entitled = event.idempotency_key.len() > 0 && free && belongs(state, home, event.author_id);
    let fitting = entitled && fits(state, event, references);
    let served = fitting && is_served(state, home, meant_audience(event.kind));
    match error {
        WorkspaceError::EmptyIdempotencyKey => event.idempotency_key.len() == 0,
        WorkspaceError::IdempotencyConflict => {
            &&& event.idempotency_key.len() > 0
            &&& exists|i: int| #[trigger]
                stands_under(state, i, home, event.author_id, event.idempotency_key)
                    && !says_the_same(state.events[i], event)
        },
        WorkspaceError::AuthorNotMember => {
            &&& event.idempotency_key.len() > 0
            &&& free
            &&& !belongs(state, home, event.author_id)
        },
        WorkspaceError::EmptyWorkTitle => entitled && event.kind is WorkCreated && blank(
            event.kind->WorkCreated_work.title,
        ),
        WorkspaceError::WorkExists => entitled && event.kind is WorkCreated && !blank(
            event.kind->WorkCreated_work.title,
        ) && keeps_work(state, home, event.kind->WorkCreated_work.id),
        WorkspaceError::EmptyArtifact => entitled && event.kind is ArtifactPublished && (blank(
            event.kind->ArtifactPublished_artifact.name,
        ) || blank(event.kind->ArtifactPublished_artifact.uri)),
        WorkspaceError::ArtifactWorkMissing => entitled && event.kind is ArtifactPublished
            && !blank(event.kind->ArtifactPublished_artifact.name) && !blank(
            event.kind->ArtifactPublished_artifact.uri,
        ) && event.kind->ArtifactPublished_artifact.work_id is Some && !keeps_work(
            state,
            home,
            event.kind->ArtifactPublished_artifact.work_id->Some_0,
        ),
        WorkspaceError::MessageMismatch => entitled && event.kind is Message && (
        event.kind->Message_message.workspace_id != home || event.kind->Message_message.author_id
            != event.author_id),
        WorkspaceError::ThreadMissing => entitled && references && event.kind is Message
            && event.kind->Message_message.workspace_id == home
            && event.kind->Message_message.author_id == event.author_id
            && event.kind->Message_message.thread_id is Some && !keeps_thread(
            state,
            home,
            event.kind->Message_message.thread_id->Some_0,
        ),
        WorkspaceError::ReplyTargetMissing => entitled && references && event.kind is Message
            && event.kind->Message_message.workspace_id == home
            && event.kind->Message_message.author_id == event.author_id && (
        event.kind->Message_message.thread_id is Some ==> keeps_thread(
            state,
            home,
            event.kind->Message_message.thread_id->Some_0,
        )) && event.kind->Message_message.reply_to_message_id is Some && !keeps_message(
            state,
            home,
            event.kind->Message_message.reply_to_message_id->Some_0,
        ),
        WorkspaceError::EmptyDecision => entitled && event.kind is DecisionRecorded && (blank(
            event.kind->DecisionRecorded_decision.subject,
        ) || blank(event.kind->DecisionRecorded_decision.outcome)),
        WorkspaceError::ClaimedWorkMissing => entitled && event.kind is WorkClaimed && !keeps_work(
            state,
            home,
            event.kind->WorkClaimed_claim.work_id,
        ),
        WorkspaceError::ClaimantNotMember => entitled && event.kind is WorkClaimed && keeps_work(
            state,
            home,
            event.kind->WorkClaimed_claim.work_id,
        ) && !belongs(state, home, event.kind->WorkClaimed_claim.claimant_id),
        WorkspaceError::ClaimConflict => entitled && event.kind is WorkClaimed && keeps_work(
            state,
            home,
            event.kind->WorkClaimed_claim.work_id,
        ) && belongs(state, home, event.kind->WorkClaimed_claim.claimant_id)
            && match event.kind->WorkClaimed_claim.expected_claim_id {
            None => !is_unclaimed(state, home, event.kind->WorkClaimed_claim.work_id),
            Some(claim_id) => !is_claimed(
                state,
                home,
                event.kind->WorkClaimed_claim.work_id,
                claim_id,
            ),
        },
        WorkspaceError::SelfDependency => entitled && event.kind is DependencyDeclared
            && event.kind->DependencyDeclared_dependency.work_id
            == event.kind->DependencyDeclared_dependency.depends_on_work_id,
        WorkspaceError::DependencyWorkMissing => entitled && event.kind is DependencyDeclared
            && event.kind->DependencyDeclared_dependency.work_id
            != event.kind->DependencyDeclared_dependency.depends_on_work_id && (!keeps_work(
            state,
            home,
            event.kind->DependencyDeclared_dependency.work_id,
        ) || !keeps_work(
            state,
            home,
            event.kind->DependencyDeclared_dependency.depends_on_work_id,
        )),
        WorkspaceError::ReviewedWorkMissing => entitled && (event.kind is ReviewRequested
            && !keeps_work(state, home, event.kind->ReviewRequested_request.work_id)
            || event.kind is ReviewRecorded && !keeps_work(
            state,
            home,
            event.kind->ReviewRecorded_review.work_id,
        )),
        WorkspaceError::RequestedReviewerNotMember => entitled && event.kind is ReviewRequested
            && keeps_work(state, home, event.kind->ReviewRequested_request.work_id)
            && event.kind->ReviewRequested_request.requested_reviewer_id is Some && !belongs(
            state,
            home,
            event.kind->ReviewRequested_request.requested_reviewer_id->Some_0,
        ),
        WorkspaceError::ReviewerNotMember => entitled && event.kind is ReviewRecorded && keeps_work(
            state,
            home,
            event.kind->ReviewRecorded_review.work_id,
        ) && !belongs(state, home, event.kind->ReviewRecorded_review.reviewer_id),
        WorkspaceError::EmptyVerdict => entitled && event.kind is ReviewRecorded && keeps_work(
            state,
            home,
            event.kind->ReviewRecorded_review.work_id,
        ) && belongs(state, home, event.kind->ReviewRecorded_review.reviewer_id) && blank(
            event.kind->ReviewRecorded_review.verdict,
        ),
        WorkspaceError::EmptyAudience => fitting && forall|id: Uuid|
            !(#[trigger] is_meant(state, home, meant_audience(event.kind), id)),
        WorkspaceError::AudienceNonMember => fitting && exists|id: Uuid| #[trigger]
            is_meant(state, home, meant_audience(event.kind), id) && !belongs(state, home, id),
        WorkspaceError::WorkspaceUnknown { workspace_id } => served && workspace_id == home
            && !exists_workspace(state, home),
        WorkspaceError::SequenceExhausted => served && exists_workspace(state, home) && !has_room(
            state,
            home,
        ),
        _ => false,
    }
}

/// An audience is refused exactly where it cannot be served.
pub proof fn lemma_served(state: StoreState, workspace_id: Uuid, audience: AudienceView)
    ensures
        audience_refusal(audience, roles_in(state.members, workspace_id)) is None <==> is_served(
            state,
            workspace_id,
            audience,
        ),
        audience_refusal(audience, roles_in(state.members, workspace_id)) == Some(
            WorkspaceError::EmptyAudience,
        ) <==> forall|id: Uuid| !(#[trigger] is_meant(state, workspace_id, audience, id)),
        audience_refusal(audience, roles_in(state.members, workspace_id)) == Some(
            WorkspaceError::AudienceNonMember,
        ) <==> exists|id: Uuid| #[trigger]
            is_meant(state, workspace_id, audience, id) && !belongs(state, workspace_id, id),
{
    let members = roles_in(state.members, workspace_id);
    assert forall|id: Uuid| #[trigger] is_meant(state, workspace_id, audience, id)
        == addresses(audience, members, id) by {
        lemma_meant(state, workspace_id, audience, id);
    }
    assert forall|id: Uuid| #[trigger] addresses(audience, members, id)
        == is_meant(state, workspace_id, audience, id) by {
        lemma_meant(state, workspace_id, audience, id);
    }
    assert forall|id: Uuid| #[trigger] belongs(state, workspace_id, id)
        == is_listed(members, id) by {
        lemma_belongs(state, workspace_id, id);
    }
    assert forall|id: Uuid| #[trigger] is_listed(members, id) == belongs(
        state,
        workspace_id,
        id,
    ) by {
        lemma_belongs(state, workspace_id, id);
    }
}

/// Where a workspace counts from.
pub proof fn lemma_counts(state: StoreState, workspace_id: Uuid)
    requires
        state.wf(),
    ensures
        match next_sequence(state.workspaces, workspace_id) {
            Some(next) => exists_workspace(state, workspace_id) && forall|sequence: u64| #[trigger]
                counts_from(state, workspace_id, sequence) <==> sequence == next,
            None => !exists_workspace(state, workspace_id) && forall|sequence: u64|
                !(#[trigger] counts_from(state, workspace_id, sequence)),
        },
{
    let here = workspace_is(workspace_id);
    lemma_position(state.workspaces, here);
    match position(state.workspaces, here) {
        Some(at) => {
            assert(here(state.workspaces[at]));
            assert forall|sequence: u64| #[trigger]
                counts_from(state, workspace_id, sequence) <==> sequence
                    == state.workspaces[at].next_sequence by {
                if counts_from(state, workspace_id, sequence) {
                    let i = choose|i: int|
                        0 <= i < state.workspaces.len() && (
                        #[trigger] state.workspaces[i]).workspace.id == workspace_id
                            && state.workspaces[i].next_sequence == sequence;
                    assert(here(state.workspaces[i]));
                    if at < i {
                        assert(state.workspaces[at].workspace.id
                            != state.workspaces[i].workspace.id);
                    }
                }
            }
        },
        None => {
            assert forall|i: int| 0 <= i < state.workspaces.len() implies (
            #[trigger] state.workspaces[i]).workspace.id != workspace_id by {
                assert(!here(state.workspaces[i]));
            }
        },
    }
}

/// Two events that are alike but for identities and times say the same.
pub proof fn lemma_says_the_same(left: WorkspaceEventView, right: WorkspaceEventView)
    ensures
        canonical(left) == canonical(right) <==> says_the_same(left, right),
{
    let a = canonical(left);
    let b = canonical(right);
    if a == b {
        assert(a.kind == b.kind);
        assert(a.workspace_id == left.workspace_id && b.workspace_id == right.workspace_id);
        assert(left.kind is Message <==> a.kind is Message);
        assert(right.kind is Message <==> b.kind is Message);
        if left.kind is Message {
            assert(a.kind->Message_message.body == left.kind->Message_message.body);
            assert(b.kind->Message_message.body == right.kind->Message_message.body);
        }
    }
    if says_the_same(left, right) {
        if left.kind is Message && right.kind is Message {
            assert(left.kind->Message_message.body =~= right.kind->Message_message.body);
            assert(a.kind->Message_message =~= b.kind->Message_message);
            assert(a.kind =~= b.kind);
        }
        assert(a =~= b);
    }
}

/// The claim that is expected is the one that holds the work.
proof fn lemma_expected(state: StoreState, workspace_id: Uuid, work_id: Uuid, expected: Option<Uuid>)
    requires
        state.wf(),
    ensures
        current_claim(state.claims, workspace_id, work_id) == expected
            <==> match expected {
            None => is_unclaimed(state, workspace_id, work_id),
            Some(claim_id) => is_claimed(state, workspace_id, work_id, claim_id),
        },
{
    lemma_claimed(state, workspace_id, work_id);
    if let Some(claim_id) = expected {
        if position(state.claims, claim_is(workspace_id, work_id)) is None && is_claimed(
            state,
            workspace_id,
            work_id,
            claim_id,
        ) {
            let i = choose|i: int|
                0 <= i < state.claims.len() && (#[trigger] state.claims[i]).workspace_id
                    == workspace_id && state.claims[i].work_id == work_id
                    && state.claims[i].claim_id == claim_id;
            assert(false);
        }
    }
}

/// An event is refused for what it says exactly where it does not fit.
proof fn lemma_fits(state: StoreState, event: WorkspaceEventView, references: bool)
    requires
        state.wf(),
        event.idempotency_key.len() > 0,
        is_free(state, event.workspace_id, event.author_id, event.idempotency_key),
        belongs(state, event.workspace_id, event.author_id),
    ensures
        match content_refusal(
            state,
            event,
            roles_in(state.members, event.workspace_id),
            references,
        ) {
            None => fits(state, event, references),
            Some(error) => !fits(state, event, references) && explains(
                state,
                event,
                references,
                error,
            ),
        },
{
    let home = event.workspace_id;
    match event.kind {
        WorkspaceEventKindView::Message { message, mode } => {
            if let Some(thread_id) = message.thread_id {
                lemma_rows(state, home, thread_id);
            }
            if let Some(message_id) = message.reply_to_message_id {
                lemma_rows(state, home, message_id);
            }
        },
        WorkspaceEventKindView::WorkCreated { work, mode } => {
            lemma_rows(state, home, work.id);
        },
        WorkspaceEventKindView::ArtifactPublished { artifact, mode } => {
            if let Some(work_id) = artifact.work_id {
                lemma_rows(state, home, work_id);
            }
        },
        WorkspaceEventKindView::WorkClaimed { claim, mode } => {
            lemma_rows(state, home, claim.work_id);
            lemma_belongs(state, home, claim.claimant_id);
            lemma_expected(state, home, claim.work_id, claim.expected_claim_id);
        },
        WorkspaceEventKindView::DependencyDeclared { dependency, mode } => {
            lemma_rows(state, home, dependency.work_id);
            lemma_rows(state, home, dependency.depends_on_work_id);
        },
        WorkspaceEventKindView::ReviewRequested { request, mode } => {
            lemma_rows(state, home, request.work_id);
            if let Some(reviewer_id) = request.requested_reviewer_id {
                lemma_belongs(state, home, reviewer_id);
            }
        },
        WorkspaceEventKindView::ReviewRecorded { review, mode } => {
            lemma_rows(state, home, review.work_id);
            lemma_belongs(state, home, review.reviewer_id);
        },
        _ => {},
    }
}

/// An event whose key is new is admitted exactly where it has a key, its author
/// belongs to the workspace, it fits there, its audience can be served, and the
/// workspace has a sequence left.
pub proof fn law_new_events_are_admitted_where_they_fit(
    state: StoreState,
    event: WorkspaceEventView,
    references: bool,
)
    requires
        state.wf(),
        is_free(state, event.workspace_id, event.author_id, event.idempotency_key),
    ensures
        append_outcome(state, event, references).0 is Ok <==> {
            &&& event.idempotency_key.len() > 0
            &&& belongs(state, event.workspace_id, event.author_id)
            &&& fits(state, event, references)
            &&& is_served(state, event.workspace_id, meant_audience(event.kind))
            &&& has_room(state, event.workspace_id)
        },
{
    let home = event.workspace_id;
    lemma_free(state, home, event.author_id, event.idempotency_key);
    lemma_belongs(state, home, event.author_id);
    lemma_served(state, home, audience_of(event.kind));
    lemma_counts(state, home);
    if event.idempotency_key.len() > 0 && belongs(state, home, event.author_id) {
        lemma_fits(state, event, references);
    }
    if next_sequence(state.workspaces, home) is Some {
        assert(counts_from(state, home, next_sequence(state.workspaces, home)->Some_0));
    }
}

/// A refusal tells of the first thing that is wrong, and changes nothing.
pub proof fn law_refusals_tell_what_is_wrong(
    state: StoreState,
    event: WorkspaceEventView,
    references: bool,
)
    requires
        state.wf(),
        append_outcome(state, event, references).0 is Err,
    ensures
        explains(state, event, references, append_outcome(state, event, references).0->Err_0),
        append_outcome(state, event, references).1 == state,
{
    let home = event.workspace_id;
    lemma_free(state, home, event.author_id, event.idempotency_key);
    lemma_belongs(state, home, event.author_id);
    lemma_served(state, home, audience_of(event.kind));
    lemma_counts(state, home);
    match key_holder(state, event) {
        Some(at) => {
            lemma_position(
                state.events,
                event_keyed(home, event.author_id, event.idempotency_key),
            );
            lemma_says_the_same(state.events[at], event);
            assert(stands_under(state, at, home, event.author_id, event.idempotency_key));
        },
        None => {
            if event.idempotency_key.len() > 0 && belongs(state, home, event.author_id) {
                lemma_fits(state, event, references);
            }
        },
    }
}

/// A well-formed message is admitted: its author belongs to the workspace, its key
/// is new and not empty, it names the workspace and the author of its event, the
/// thread and the message that it refers to, if any, are there, its audience can be
/// served, and a sequence is left.
pub proof fn law_well_formed_messages_are_admitted(state: StoreState, event: WorkspaceEventView)
    requires
        state.wf(),
        event.kind is Message,
        event.idempotency_key.len() > 0,
        is_free(state, event.workspace_id, event.author_id, event.idempotency_key),
        belongs(state, event.workspace_id, event.author_id),
        event.kind->Message_message.workspace_id == event.workspace_id,
        event.kind->Message_message.author_id == event.author_id,
        event.kind->Message_message.thread_id is Some ==> exists|i: int|
            0 <= i < state.threads.len() && (#[trigger] state.threads[i]).workspace_id
                == event.workspace_id && Some(state.threads[i].id)
                == event.kind->Message_message.thread_id,
        event.kind->Message_message.reply_to_message_id is Some ==> exists|i: int|
            0 <= i < state.events.len() && (#[trigger] state.events[i]).workspace_id
                == event.workspace_id && state.events[i].kind is Message && Some(
                state.events[i].kind->Message_message.id,
            ) == event.kind->Message_message.reply_to_message_id,
        is_served(state, event.workspace_id, event.kind->Message_message.audience),
        has_room(state, event.workspace_id),
    ensures
        append_outcome(state, event, true).0 is Ok,
{
    let message = event.kind->Message_message;
    if let Some(id) = message.thread_id {
        assert(keeps_thread(state, event.workspace_id, id));
    }
    if let Some(id) = message.reply_to_message_id {
        assert(keeps_message(state, event.workspace_id, id));
    }
    law_new_events_are_admitted_where_they_fit(state, event, true);
}

/// What is stored of an event that is admitted for the first time: one event more,
/// which is the one that was given but for its sequence. The sequence is the one
/// that the workspace counted from, and the workspace counts on from the next. It
/// is what the author is told.
pub proof fn law_admitted_events_are_stored_as_given(
    state: StoreState,
    event: WorkspaceEventView,
    references: bool,
)
    requires
        state.wf(),
        is_free(state, event.workspace_id, event.author_id, event.idempotency_key),
        append_outcome(state, event, references).0 is Ok,
    ensures
        ({
            let told = append_outcome(state, event, references).0->Ok_0;
            let after = append_outcome(state, event, references).1;
            let added = after.events[state.events.len() as int];
            &&& after.events.len() == state.events.len() + 1
            &&& forall|i: int|
                0 <= i < state.events.len() ==> #[trigger] after.events[i] == state.events[i]
            &&& told == added
            &&& added.id == event.id
            &&& added.workspace_id == event.workspace_id
            &&& added.author_id == event.author_id
            &&& added.idempotency_key == event.idempotency_key
            &&& added.created_at == event.created_at
            &&& added.kind == event.kind
            &&& counts_from(state, event.workspace_id, added.sequence)
            &&& counts_from(after, event.workspace_id, (added.sequence + 1) as u64)
            &&& 1 <= added.sequence < i64::MAX
            &&& forall|i: int|
                0 <= i < state.events.len() && (#[trigger] state.events[i]).workspace_id
                    == event.workspace_id ==> state.events[i].sequence < added.sequence
        }),
{
    let home = event.workspace_id;
    lemma_free(state, home, event.author_id, event.idempotency_key);
    lemma_sequence_step(state, event);
    lemma_counts(state, home);
    let rows = state.workspaces;
    lemma_position(rows, workspace_is(home));
    let at = position(rows, workspace_is(home))->Some_0;
    let after = append_outcome(state, event, references).1;
    assert(after.workspaces[at].workspace.id == home);
    assert(counts_from(after, home, after.workspaces[at].next_sequence));
}

/// What an admitted event leaves alone: people, workspaces but for the count of its
/// own, members, threads, leases, instances, and every delivery that was there.
pub proof fn law_admitting_touches_nothing_else(
    state: StoreState,
    event: WorkspaceEventView,
    references: bool,
)
    ensures
        ({
            let after = append_outcome(state, event, references).1;
            &&& after.participants == state.participants
            &&& after.members == state.members
            &&& after.threads == state.threads
            &&& after.leases == state.leases
            &&& after.instances == state.instances
            &&& after.workspaces.len() == state.workspaces.len()
            &&& forall|i: int|
                0 <= i < state.workspaces.len() ==> (#[trigger] after.workspaces[i]).workspace
                    == state.workspaces[i].workspace && (state.workspaces[i].workspace.id
                    != event.workspace_id ==> after.workspaces[i] == state.workspaces[i])
            &&& after.deliveries.len() >= state.deliveries.len()
            &&& forall|i: int|
                0 <= i < state.deliveries.len() ==> #[trigger] after.deliveries[i]
                    == state.deliveries[i]
        }),
{
    lemma_position(state.workspaces, workspace_is(event.workspace_id));
}

/// Whom an admitted event is delivered to: exactly those whom its audience means,
/// but for its author. Each of them gets one delivery, which is pending, untried and
/// as urgent as the event says.
pub proof fn law_admitted_events_reach_their_audience(
    state: StoreState,
    event: WorkspaceEventView,
    references: bool,
)
    requires
        state.wf(),
        is_free(state, event.workspace_id, event.author_id, event.idempotency_key),
        append_outcome(state, event, references).0 is Ok,
    ensures
        ({
            let sequence = append_outcome(state, event, references).0->Ok_0.sequence;
            let before = state.deliveries;
            let after = append_outcome(state, event, references).1.deliveries;
            &&& forall|i: int|
                before.len() <= i < after.len() ==> {
                    let row = #[trigger] after[i];
                    &&& row.delivery.workspace_id == event.workspace_id
                    &&& row.delivery.sequence == sequence
                    &&& row.delivery.recipient_id != event.author_id
                    &&& is_meant(
                        state,
                        event.workspace_id,
                        meant_audience(event.kind),
                        row.delivery.recipient_id,
                    )
                    &&& row.delivery.mode == urgency(event.kind)
                    &&& row.delivery.state == DeliveryState::Pending
                    &&& row.delivery.attempts == 0
                    &&& row.delivery.last_attempt is None
                    &&& row.is_message == (event.kind is Message)
                }
            &&& forall|id: Uuid|
                id != event.author_id && #[trigger] is_meant(
                    state,
                    event.workspace_id,
                    meant_audience(event.kind),
                    id,
                ) ==> exists|i: int|
                    before.len() <= i < after.len() && (#[trigger] after[i]).delivery.recipient_id
                        == id
            &&& forall|i: int, j: int|
                before.len() <= i < j < after.len() ==> (#[trigger] after[i]).delivery.recipient_id
                    != (#[trigger] after[j]).delivery.recipient_id
        }),
{
    let home = event.workspace_id;
    let audience = audience_of(event.kind);
    let members = roles_in(state.members, home);
    lemma_free(state, home, event.author_id, event.idempotency_key);
    lemma_audience_listed(audience, members);
    let ids = audience_ids(audience, members);
    lemma_others(ids, event.author_id);
    let recipients = recipients_of(state, event);
    let stored = sequenced(state, event);
    let before = state.deliveries;
    let after = append_outcome(state, event, references).1.deliveries;
    let n = before.len() as int;
    assert(after.len() == n + recipients.len());
    assert forall|i: int| n <= i < after.len() implies {
        let row = #[trigger] after[i];
        &&& row.delivery.recipient_id == recipients[i - n]
        &&& row.delivery.recipient_id != event.author_id
        &&& is_meant(state, home, meant_audience(event.kind), row.delivery.recipient_id)
    } by {
        let id = recipients[i - n];
        assert(after[i].delivery.recipient_id == id);
        assert(recipients.contains(id));
        assert(ids.contains(id));
        lemma_meant(state, home, audience, id);
    }
    assert forall|id: Uuid|
        id != event.author_id && #[trigger] is_meant(
            state,
            home,
            meant_audience(event.kind),
            id,
        ) implies exists|i: int|
        n <= i < after.len() && (#[trigger] after[i]).delivery.recipient_id == id by {
        lemma_meant(state, home, audience, id);
        assert(ids.contains(id));
        assert(recipients.contains(id));
        let k = choose|k: int| 0 <= k < recipients.len() && recipients[k] == id;
        assert(after[n + k].delivery.recipient_id == id);
    }
}

/// An event under a key that is taken is a retry where it says the same as what
/// stands there, and a conflict where it does not. A retry is told what stands there,
/// and neither changes anything.
pub proof fn law_a_taken_key_stands_for_one_event(
    state: StoreState,
    event: WorkspaceEventView,
    references: bool,
    i: int,
)
    requires
        state.wf(),
        event.idempotency_key.len() > 0,
        stands_under(state, i, event.workspace_id, event.author_id, event.idempotency_key),
    ensures
        append_outcome(state, event, references).1 == state,
        says_the_same(state.events[i], event) ==> append_outcome(state, event, references).0 == Ok::<
            WorkspaceEventView,
            WorkspaceError,
        >(state.events[i]),
        !says_the_same(state.events[i], event) ==> append_outcome(state, event, references).0
            == Err::<WorkspaceEventView, WorkspaceError>(WorkspaceError::IdempotencyConflict),
{
    lemma_free(state, event.workspace_id, event.author_id, event.idempotency_key);
    lemma_says_the_same(state.events[i], event);
}

/// Work that is admitted is there afterwards, once, and no other event makes or
/// takes away work.
pub proof fn law_admitted_work_is_kept(
    state: StoreState,
    event: WorkspaceEventView,
    references: bool,
)
    requires
        state.wf(),
        is_free(state, event.workspace_id, event.author_id, event.idempotency_key),
        append_outcome(state, event, references).0 is Ok,
    ensures
        ({
            let told = append_outcome(state, event, references).0->Ok_0;
            let after = append_outcome(state, event, references).1.work_items;
            if event.kind is WorkCreated {
                after == state.work_items.push(
                    WorkItem {
                        workspace_id: event.workspace_id,
                        work_id: event.kind->WorkCreated_work.id,
                        created_sequence: told.sequence,
                    },
                )
            } else {
                after == state.work_items
            }
        }),
{
    lemma_free(state, event.workspace_id, event.author_id, event.idempotency_key);
}

/// An admitted claim is the one that holds its work afterwards, whatever held it
/// before. The claims on other work stay, and no other event changes a claim.
pub proof fn law_admitted_claims_hold(
    state: StoreState,
    event: WorkspaceEventView,
    references: bool,
    row: WorkClaim,
)
    requires
        state.wf(),
        is_free(state, event.workspace_id, event.author_id, event.idempotency_key),
        append_outcome(state, event, references).0 is Ok,
    ensures
        ({
            let told = append_outcome(state, event, references).0->Ok_0;
            let after = append_outcome(state, event, references).1.claims;
            if event.kind is WorkClaimed {
                let claim = event.kind->WorkClaimed_claim;
                let own = row.workspace_id == event.workspace_id && row.work_id == claim.work_id;
                after.contains(row) <==> if own {
                    row.claim_id == event.id && row.claimant_id == claim.claimant_id && row.sequence
                        == told.sequence
                } else {
                    state.claims.contains(row)
                }
            } else {
                after == state.claims
            }
        }),
{
    lemma_free(state, event.workspace_id, event.author_id, event.idempotency_key);
    let told = append_outcome(state, event, references).0->Ok_0;
    let before = state.claims;
    let after = append_outcome(state, event, references).1.claims;
    if event.kind is WorkClaimed {
        let claim = event.kind->WorkClaimed_claim;
        let selected = claim_is(event.workspace_id, claim.work_id);
        lemma_position(before, selected);
        let at = match position(before, selected) {
            Some(at) => at,
            None => before.len() as int,
        };
        let new = after[at];
        assert(new.claim_id == event.id && new.sequence == told.sequence);
        assert(after.contains(new));
        if after.contains(row) {
            let i = choose|i: int| 0 <= i < after.len() && after[i] == row;
            if i != at {
                assert(before[i] == row);
                if selected(row) {
                    if at < before.len() {
                        assert(selected(before[at]));
                        if i < at {
                            assert(!(before[i].workspace_id == before[at].workspace_id
                                && before[i].work_id == before[at].work_id));
                        } else {
                            assert(!(before[at].workspace_id == before[i].workspace_id
                                && before[at].work_id == before[i].work_id));
                        }
                    }
                    assert(false);
                }
            }
        }
        if before.contains(row) && !selected(row) {
            let i = choose|i: int| 0 <= i < before.len() && before[i] == row;
            assert(after[i] == row);
        }
        if selected(row) && row.claim_id == event.id && row.claimant_id == claim.claimant_id
            && row.sequence == told.sequence {
            assert(row == new);
        }
    }
}

/// An admitted dependency is recorded, the first time it is declared, and no other
/// event changes the dependencies.
pub proof fn law_admitted_dependencies_are_kept(
    state: StoreState,
    event: WorkspaceEventView,
    references: bool,
)
    requires
        state.wf(),
        is_free(state, event.workspace_id, event.author_id, event.idempotency_key),
        append_outcome(state, event, references).0 is Ok,
    ensures
        ({
            let told = append_outcome(state, event, references).0->Ok_0;
            let after = append_outcome(state, event, references).1.dependencies;
            if event.kind is DependencyDeclared {
                let dependency = event.kind->DependencyDeclared_dependency;
                if exists|i: int|
                    0 <= i < state.dependencies.len() && (
                    #[trigger] state.dependencies[i]).workspace_id == event.workspace_id
                        && state.dependencies[i].work_id == dependency.work_id
                        && state.dependencies[i].depends_on_work_id
                        == dependency.depends_on_work_id {
                    after == state.dependencies
                } else {
                    after == state.dependencies.push(
                        WorkEdge {
                            workspace_id: event.workspace_id,
                            work_id: dependency.work_id,
                            depends_on_work_id: dependency.depends_on_work_id,
                            sequence: told.sequence,
                        },
                    )
                }
            } else {
                after == state.dependencies
            }
        }),
{
    lemma_free(state, event.workspace_id, event.author_id, event.idempotency_key);
    if event.kind is DependencyDeclared {
        let dependency = event.kind->DependencyDeclared_dependency;
        let selected = edge_is(
            event.workspace_id,
            dependency.work_id,
            dependency.depends_on_work_id,
        );
        lemma_position(state.dependencies, selected);
        if exists|i: int|
            0 <= i < state.dependencies.len() && (#[trigger] state.dependencies[i]).workspace_id
                == event.workspace_id && state.dependencies[i].work_id == dependency.work_id
                && state.dependencies[i].depends_on_work_id == dependency.depends_on_work_id {
            let i = choose|i: int|
                0 <= i < state.dependencies.len() && (
                #[trigger] state.dependencies[i]).workspace_id == event.workspace_id
                    && state.dependencies[i].work_id == dependency.work_id
                    && state.dependencies[i].depends_on_work_id == dependency.depends_on_work_id;
            assert(selected(state.dependencies[i]));
        }
    }
}

/// A message that was just appended can be replied to: whoever belongs to the
/// workspace gets a reply to it admitted, to an audience that can be served and under
/// a key that is new, while a sequence is left.
pub proof fn law_appended_messages_can_be_replied_to(
    state: StoreState,
    event: WorkspaceEventView,
    references: bool,
    reply: WorkspaceEventView,
)
    requires
        state.wf(),
        event.kind is Message,
        append_outcome(state, event, references).0 is Ok,
        reply.kind is Message,
        reply.workspace_id == event.workspace_id,
        belongs(state, event.workspace_id, reply.author_id),
        reply.idempotency_key.len() > 0,
        reply.kind->Message_message.workspace_id == reply.workspace_id,
        reply.kind->Message_message.author_id == reply.author_id,
        reply.kind->Message_message.thread_id is None,
        reply.kind->Message_message.reply_to_message_id == Some(
            append_outcome(state, event, references).0->Ok_0.kind->Message_message.id,
        ),
        is_served(state, event.workspace_id, reply.kind->Message_message.audience),
        is_free(
            append_outcome(state, event, references).1,
            reply.workspace_id,
            reply.author_id,
            reply.idempotency_key,
        ),
        has_room(append_outcome(state, event, references).1, reply.workspace_id),
    ensures
        append_outcome(append_outcome(state, event, references).1, reply, true).0 is Ok,
{
    let told = append_outcome(state, event, references).0->Ok_0;
    let after = append_outcome(state, event, references).1;
    let home = event.workspace_id;
    law_append_keeps_invariant(state, event, references);
    law_admitting_touches_nothing_else(state, event, references);
    lemma_free(state, home, event.author_id, event.idempotency_key);
    let at = match key_holder(state, event) {
        Some(at) => {
            lemma_position(
                state.events,
                event_keyed(home, event.author_id, event.idempotency_key),
            );
            lemma_says_the_same(state.events[at], event);
            at
        },
        None => state.events.len() as int,
    };
    assert(after.events[at] == told);
    assert(told.kind is Message);
    assert(after.events[at].workspace_id == reply.workspace_id);
    assert(belongs(after, home, reply.author_id)) by {
        let i = choose|i: int|
            0 <= i < state.members.len() && (#[trigger] state.members[i]).workspace_id == home
                && state.members[i].participant_id == reply.author_id;
        assert(after.members[i].participant_id == reply.author_id);
    }
    let audience = reply.kind->Message_message.audience;
    lemma_same_people(state, after, home, audience);
    law_well_formed_messages_are_admitted(after, reply);
}

/// Whom an audience means rests on the members alone.
pub proof fn lemma_same_people(
    state: StoreState,
    after: StoreState,
    workspace_id: Uuid,
    audience: AudienceView,
)
    requires
        after.members == state.members,
    ensures
        is_served(after, workspace_id, audience) <==> is_served(state, workspace_id, audience),
{
    lemma_served(state, workspace_id, audience);
    lemma_served(after, workspace_id, audience);
}

} // verus!
