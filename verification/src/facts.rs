//! What the tables of a journal say, row by row.
//!
//! These are the words in which the laws speak. Each of them is about rows and
//! their columns alone.

use crate::model::{lemma_filter_contains, lemma_position, position, some_item};
use crate::store::{
    claim_is, delivery_is, event_keyed, member_in, member_is, participant_is, roles_in, thread_in,
    work_is, workspace_is, StoreState,
};
use crate::audience::{addresses, is_listed};
use crate::validate::message_in;
use crate::workspace::{
    AudienceView, DeliveryMode, Uuid, WorkspaceEventKindView, WorkspaceEventView,
    WorkspaceRole,
};
use vstd::prelude::*;

verus! {

/// Somebody belongs to a workspace.
pub open spec fn belongs(state: StoreState, workspace_id: Uuid, id: Uuid) -> bool {
    exists|i: int|
        0 <= i < state.members.len() && (#[trigger] state.members[i]).workspace_id == workspace_id
            && state.members[i].participant_id == id
}

/// Somebody belongs to a workspace in a role.
pub open spec fn belongs_as(
    state: StoreState,
    workspace_id: Uuid,
    id: Uuid,
    role: WorkspaceRole,
) -> bool {
    exists|i: int|
        0 <= i < state.members.len() && (#[trigger] state.members[i]).workspace_id == workspace_id
            && state.members[i].participant_id == id && state.members[i].role == role
}

/// Somebody is a known participant.
pub open spec fn is_known(state: StoreState, id: Uuid) -> bool {
    exists|i: int| 0 <= i < state.participants.len() && (#[trigger] state.participants[i]).id == id
}

/// An audience means somebody: everyone in the workspace, those it lists, those in
/// a role, or the one it is addressed to.
pub open spec fn is_meant(
    state: StoreState,
    workspace_id: Uuid,
    audience: AudienceView,
    id: Uuid,
) -> bool {
    match audience {
        AudienceView::Workspace => belongs(state, workspace_id, id),
        AudienceView::Participants { participants } => exists|i: int|
            0 <= i < participants.len() && #[trigger] participants[i] == id,
        AudienceView::Role { role } => belongs_as(state, workspace_id, id, role),
        AudienceView::Direct { participant } => participant == id,
    }
}

/// An audience can be served: it means somebody, and only people who belong to the
/// workspace.
pub open spec fn is_served(
    state: StoreState,
    workspace_id: Uuid,
    audience: AudienceView,
) -> bool {
    &&& exists|id: Uuid| #[trigger] is_meant(state, workspace_id, audience, id)
    &&& forall|id: Uuid| #[trigger]
        is_meant(state, workspace_id, audience, id) ==> belongs(state, workspace_id, id)
}

/// A workspace exists.
pub open spec fn exists_workspace(state: StoreState, workspace_id: Uuid) -> bool {
    exists|i: int|
        0 <= i < state.workspaces.len() && (#[trigger] state.workspaces[i]).workspace.id
            == workspace_id
}

/// A workspace exists and counts on from a sequence.
pub open spec fn counts_from(state: StoreState, workspace_id: Uuid, sequence: u64) -> bool {
    exists|i: int|
        0 <= i < state.workspaces.len() && (#[trigger] state.workspaces[i]).workspace.id
            == workspace_id && state.workspaces[i].next_sequence == sequence
}

/// A workspace has a piece of work.
pub open spec fn keeps_work(state: StoreState, workspace_id: Uuid, work_id: Uuid) -> bool {
    exists|i: int|
        0 <= i < state.work_items.len() && (#[trigger] state.work_items[i]).workspace_id
            == workspace_id && state.work_items[i].work_id == work_id
}

/// A claim holds a piece of work.
pub open spec fn is_claimed(
    state: StoreState,
    workspace_id: Uuid,
    work_id: Uuid,
    claim_id: Uuid,
) -> bool {
    exists|i: int|
        0 <= i < state.claims.len() && (#[trigger] state.claims[i]).workspace_id == workspace_id
            && state.claims[i].work_id == work_id && state.claims[i].claim_id == claim_id
}

/// Nobody has claimed a piece of work.
pub open spec fn is_unclaimed(state: StoreState, workspace_id: Uuid, work_id: Uuid) -> bool {
    forall|i: int|
        0 <= i < state.claims.len() ==> !((#[trigger] state.claims[i]).workspace_id == workspace_id
            && state.claims[i].work_id == work_id)
}

/// A workspace has a thread.
pub open spec fn keeps_thread(state: StoreState, workspace_id: Uuid, thread_id: Uuid) -> bool {
    exists|i: int|
        0 <= i < state.threads.len() && (#[trigger] state.threads[i]).workspace_id == workspace_id
            && state.threads[i].id == thread_id
}

/// The journal of a workspace holds a message.
pub open spec fn keeps_message(state: StoreState, workspace_id: Uuid, message_id: Uuid) -> bool {
    exists|i: int|
        0 <= i < state.events.len() && (#[trigger] state.events[i]).workspace_id == workspace_id
            && state.events[i].kind is Message && state.events[i].kind->Message_message.id
            == message_id
}

/// An event stands at a position under an author's key.
pub open spec fn stands_under(
    state: StoreState,
    i: int,
    workspace_id: Uuid,
    author_id: Uuid,
    key: Seq<char>,
) -> bool {
    &&& 0 <= i < state.events.len()
    &&& state.events[i].workspace_id == workspace_id
    &&& state.events[i].author_id == author_id
    &&& state.events[i].idempotency_key == key
}

/// An author's key stands for nothing yet.
pub open spec fn is_free(
    state: StoreState,
    workspace_id: Uuid,
    author_id: Uuid,
    key: Seq<char>,
) -> bool {
    forall|i: int| !(#[trigger] stands_under(state, i, workspace_id, author_id, key))
}

/// An event was delivered to somebody.
pub open spec fn was_sent(
    state: StoreState,
    workspace_id: Uuid,
    sequence: u64,
    recipient_id: Uuid,
) -> bool {
    exists|i: int|
        0 <= i < state.deliveries.len() && (#[trigger] state.deliveries[i]).delivery.workspace_id
            == workspace_id && state.deliveries[i].delivery.sequence == sequence
            && state.deliveries[i].delivery.recipient_id == recipient_id
}

/// How urgent a kind of event says that it is.
pub open spec fn urgency(kind: WorkspaceEventKindView) -> DeliveryMode {
    match kind {
        WorkspaceEventKindView::Message { message, mode } => mode,
        WorkspaceEventKindView::SessionEvent { session_id, session_event_id, session_sequence, mode } =>
            mode,
        WorkspaceEventKindView::WorkCreated { work, mode } => mode,
        WorkspaceEventKindView::ArtifactPublished { artifact, mode } => mode,
        WorkspaceEventKindView::DecisionRecorded { decision, mode } => mode,
        WorkspaceEventKindView::WorkClaimed { claim, mode } => mode,
        WorkspaceEventKindView::DependencyDeclared { dependency, mode } => mode,
        WorkspaceEventKindView::ReviewRequested { request, mode } => mode,
        WorkspaceEventKindView::ReviewRecorded { review, mode } => mode,
        WorkspaceEventKindView::ReferenceAdded { reference, mode } => mode,
        WorkspaceEventKindView::ProvenanceRecorded { provenance, mode } => mode,
    }
}

/// Whom a kind of event is for: a message says so itself, anything else is for
/// everyone.
pub open spec fn meant_audience(kind: WorkspaceEventKindView) -> AudienceView {
    if kind is Message {
        kind->Message_message.audience
    } else {
        AudienceView::Workspace
    }
}

/// Two events say the same: everything but the identities, the sequence and the
/// times, which a retry has its own of.
pub open spec fn says_the_same(left: WorkspaceEventView, right: WorkspaceEventView) -> bool {
    &&& left.workspace_id == right.workspace_id
    &&& left.author_id == right.author_id
    &&& left.idempotency_key == right.idempotency_key
    &&& if left.kind is Message && right.kind is Message {
        let a = left.kind->Message_message;
        let b = right.kind->Message_message;
        &&& left.kind->Message_mode == right.kind->Message_mode
        &&& a.workspace_id == b.workspace_id
        &&& a.thread_id == b.thread_id
        &&& a.reply_to_message_id == b.reply_to_message_id
        &&& a.author_id == b.author_id
        &&& a.body.text == b.body.text
        &&& a.body.mentions == b.body.mentions
        &&& a.body.attachments == b.body.attachments
        &&& a.audience == b.audience
    } else {
        left.kind == right.kind
    }
}

/// What is looked for is found exactly where some row is it.
pub proof fn lemma_found<T>(items: Seq<T>, selected: spec_fn(T) -> bool)
    ensures
        some_item(items, selected) <==> exists|i: int|
            0 <= i < items.len() && selected(#[trigger] items[i]),
{
    lemma_position(items, selected);
}

/// Belonging to a workspace is being listed among its members.
pub proof fn lemma_belongs(state: StoreState, workspace_id: Uuid, id: Uuid)
    ensures
        is_listed(roles_in(state.members, workspace_id), id) <==> belongs(state, workspace_id, id),
        state.has_member(workspace_id, id) <==> belongs(state, workspace_id, id),
{
    let here = member_in(workspace_id);
    let kept = state.members.filter(here);
    let roles = roles_in(state.members, workspace_id);
    lemma_found(state.members, member_is(workspace_id, id));
    if is_listed(roles, id) {
        let k = choose|k: int| 0 <= k < roles.len() && (#[trigger] roles[k]).0 == id;
        assert(kept.contains(kept[k]));
        lemma_filter_contains(state.members, here, kept[k]);
        let i = choose|i: int| 0 <= i < state.members.len() && state.members[i] == kept[k];
        assert(state.members[i].participant_id == id);
    }
    if belongs(state, workspace_id, id) {
        let i = choose|i: int|
            0 <= i < state.members.len() && (#[trigger] state.members[i]).workspace_id
                == workspace_id && state.members[i].participant_id == id;
        assert(member_is(workspace_id, id)(state.members[i]));
        assert(state.members.contains(state.members[i]));
        lemma_filter_contains(state.members, here, state.members[i]);
        let k = choose|k: int| 0 <= k < kept.len() && kept[k] == state.members[i];
        assert(roles[k].0 == id);
    }
}

/// Belonging in a role is being listed with it.
proof fn lemma_belongs_as(state: StoreState, workspace_id: Uuid, id: Uuid, role: WorkspaceRole)
    ensures
        (exists|k: int|
            0 <= k < roles_in(state.members, workspace_id).len() && #[trigger] roles_in(
                state.members,
                workspace_id,
            )[k] == (id, role)) <==> belongs_as(state, workspace_id, id, role),
{
    let here = member_in(workspace_id);
    let kept = state.members.filter(here);
    let roles = roles_in(state.members, workspace_id);
    if exists|k: int| 0 <= k < roles.len() && #[trigger] roles[k] == (id, role) {
        let k = choose|k: int| 0 <= k < roles.len() && #[trigger] roles[k] == (id, role);
        assert(kept.contains(kept[k]));
        lemma_filter_contains(state.members, here, kept[k]);
        let i = choose|i: int| 0 <= i < state.members.len() && state.members[i] == kept[k];
        assert(state.members[i].participant_id == id);
    }
    if belongs_as(state, workspace_id, id, role) {
        let i = choose|i: int|
            0 <= i < state.members.len() && (#[trigger] state.members[i]).workspace_id
                == workspace_id && state.members[i].participant_id == id && state.members[i].role
                == role;
        assert(state.members.contains(state.members[i]));
        lemma_filter_contains(state.members, here, state.members[i]);
        let k = choose|k: int| 0 <= k < kept.len() && kept[k] == state.members[i];
        assert(roles[k] == (id, role));
    }
}

/// An audience addresses whom it means.
pub proof fn lemma_meant(state: StoreState, workspace_id: Uuid, audience: AudienceView, id: Uuid)
    ensures
        addresses(audience, roles_in(state.members, workspace_id), id) <==> is_meant(
            state,
            workspace_id,
            audience,
            id,
        ),
{
    lemma_belongs(state, workspace_id, id);
    match audience {
        AudienceView::Participants { participants } => {
            if participants.contains(id) {
                let i = choose|i: int| 0 <= i < participants.len() && participants[i] == id;
                assert(participants[i] == id);
            }
        },
        AudienceView::Role { role } => {
            lemma_belongs_as(state, workspace_id, id, role);
        },
        _ => {},
    }
}

/// A key is free exactly where nothing is found under it.
pub proof fn lemma_free(state: StoreState, workspace_id: Uuid, author_id: Uuid, key: Seq<char>)
    ensures
        position(state.events, event_keyed(workspace_id, author_id, key)) is None <==> is_free(
            state,
            workspace_id,
            author_id,
            key,
        ),
        state.wf() ==> forall|i: int| #[trigger]
            stands_under(state, i, workspace_id, author_id, key) ==> position(
                state.events,
                event_keyed(workspace_id, author_id, key),
            ) == Some(i),
{
    let keyed = event_keyed(workspace_id, author_id, key);
    lemma_position(state.events, keyed);
    if position(state.events, keyed) is Some {
        let at = position(state.events, keyed)->Some_0;
        assert(stands_under(state, at, workspace_id, author_id, key));
    }
    assert forall|i: int| #[trigger]
        stands_under(state, i, workspace_id, author_id, key) implies position(
        state.events,
        keyed,
    ) is Some && (state.wf() ==> position(state.events, keyed) == Some(i)) by {
        assert(keyed(state.events[i]));
        let at = position(state.events, keyed)->Some_0;
        if state.wf() && at != i {
            assert(at < i);
            assert(keyed(state.events[at]));
            assert(!(state.events[at].workspace_id == state.events[i].workspace_id
                && state.events[at].author_id == state.events[i].author_id
                && state.events[at].idempotency_key == state.events[i].idempotency_key));
        }
    }
}

/// What a search for a delivery, a piece of work, a thread, a message or a workspace
/// finds.
pub proof fn lemma_rows(state: StoreState, workspace_id: Uuid, id: Uuid)
    ensures
        state.has_work(workspace_id, id) <==> keeps_work(state, workspace_id, id),
        some_item(state.threads, thread_in(workspace_id, id)) <==> keeps_thread(
            state,
            workspace_id,
            id,
        ),
        some_item(state.events, message_in(workspace_id, id)) <==> keeps_message(
            state,
            workspace_id,
            id,
        ),
        some_item(state.participants, participant_is(id)) <==> is_known(state, id),
        some_item(state.workspaces, workspace_is(id)) <==> exists_workspace(state, id),
{
    lemma_found(state.work_items, work_is(workspace_id, id));
    lemma_found(state.threads, thread_in(workspace_id, id));
    lemma_found(state.events, message_in(workspace_id, id));
    lemma_found(state.participants, participant_is(id));
    lemma_found(state.workspaces, workspace_is(id));
    if keeps_work(state, workspace_id, id) {
        let i = choose|i: int|
            0 <= i < state.work_items.len() && (#[trigger] state.work_items[i]).workspace_id
                == workspace_id && state.work_items[i].work_id == id;
        assert(work_is(workspace_id, id)(state.work_items[i]));
    }
    if keeps_thread(state, workspace_id, id) {
        let i = choose|i: int|
            0 <= i < state.threads.len() && (#[trigger] state.threads[i]).workspace_id
                == workspace_id && state.threads[i].id == id;
        assert(thread_in(workspace_id, id)(state.threads[i]));
    }
    if keeps_message(state, workspace_id, id) {
        let i = choose|i: int|
            0 <= i < state.events.len() && (#[trigger] state.events[i]).workspace_id
                == workspace_id && state.events[i].kind is Message
                && state.events[i].kind->Message_message.id == id;
        assert(message_in(workspace_id, id)(state.events[i]));
    }
    if is_known(state, id) {
        let i = choose|i: int|
            0 <= i < state.participants.len() && (#[trigger] state.participants[i]).id == id;
        assert(participant_is(id)(state.participants[i]));
    }
    if exists_workspace(state, id) {
        let i = choose|i: int|
            0 <= i < state.workspaces.len() && (#[trigger] state.workspaces[i]).workspace.id == id;
        assert(workspace_is(id)(state.workspaces[i]));
    }
}

/// What a search for a delivery finds.
pub proof fn lemma_sent(state: StoreState, workspace_id: Uuid, sequence: u64, id: Uuid)
    ensures
        some_item(state.deliveries, delivery_is(workspace_id, sequence, id)) <==> was_sent(
            state,
            workspace_id,
            sequence,
            id,
        ),
{
    lemma_found(state.deliveries, delivery_is(workspace_id, sequence, id));
    if was_sent(state, workspace_id, sequence, id) {
        let i = choose|i: int|
            0 <= i < state.deliveries.len() && (
            #[trigger] state.deliveries[i]).delivery.workspace_id == workspace_id
                && state.deliveries[i].delivery.sequence == sequence
                && state.deliveries[i].delivery.recipient_id == id;
        assert(delivery_is(workspace_id, sequence, id)(state.deliveries[i]));
    }
}

/// What a search for a claim finds.
pub proof fn lemma_claimed(state: StoreState, workspace_id: Uuid, work_id: Uuid)
    requires
        state.wf(),
    ensures
        match position(state.claims, claim_is(workspace_id, work_id)) {
            Some(at) => forall|claim_id: Uuid| #[trigger]
                is_claimed(state, workspace_id, work_id, claim_id) <==> state.claims[at].claim_id
                    == claim_id,
            None => is_unclaimed(state, workspace_id, work_id),
        },
        position(state.claims, claim_is(workspace_id, work_id)) is Some ==> !is_unclaimed(
            state,
            workspace_id,
            work_id,
        ),
{
    let selected = claim_is(workspace_id, work_id);
    lemma_position(state.claims, selected);
    match position(state.claims, selected) {
        Some(at) => {
            assert(selected(state.claims[at]));
            assert forall|claim_id: Uuid| #[trigger]
                is_claimed(state, workspace_id, work_id, claim_id) <==> state.claims[at].claim_id
                    == claim_id by {
                if is_claimed(state, workspace_id, work_id, claim_id) {
                    let i = choose|i: int|
                        0 <= i < state.claims.len() && (#[trigger] state.claims[i]).workspace_id
                            == workspace_id && state.claims[i].work_id == work_id
                            && state.claims[i].claim_id == claim_id;
                    assert(selected(state.claims[i]));
                    if at < i {
                        assert(!(state.claims[at].workspace_id == state.claims[i].workspace_id
                            && state.claims[at].work_id == state.claims[i].work_id));
                    }
                }
            }
        },
        None => {
            assert forall|i: int| 0 <= i < state.claims.len() implies !((
            #[trigger] state.claims[i]).workspace_id == workspace_id && state.claims[i].work_id
                == work_id) by {
                assert(!selected(state.claims[i]));
            }
        },
    }
}

} // verus!
