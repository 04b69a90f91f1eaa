//! Admitting events into a workspace journal.

use crate::audience::{
    audience_ids, audience_refusal, increasing, is_listed, lists, resolve_recipients,
};
use crate::error::WorkspaceError;
use crate::event::{audience_of, canonical, canonical_event, mode_of, routing};
use crate::model::{
    find, lemma_filter_contains, lemma_filter_pairwise, lemma_filter_push, lemma_filter_step,
    lemma_position, lemma_position_push, lemma_position_update, lemma_views_push, lemma_views_update, pairwise,
    position, select, some_item, views,
};
use crate::store::{
    all_numbered, claim_is, claims_ok, deliveries_ok, delivery_ok, dependencies_ok, edge_is,
    event_at, event_in, event_keyed, events_ok, is_message, member_in, next_sequence, numbered,
    roles_in, work_is, work_items_ok,
    workspace_is, workspaces_ok, DeliveryRow, DeliveryRowView, StoreState, WorkClaim, WorkEdge,
    WorkItem, WorkspaceRow, WorkspaceRowView, WorkspaceTables, MAX_COLUMN,
};
use crate::validate::content_refusal;
use crate::workspace::{
    DeliveryMode, DeliveryState, RecipientDelivery, RecipientDeliveryView, Uuid, WorkspaceEvent,
    WorkspaceEventKind, WorkspaceEventKindView, WorkspaceEventView, WorkspaceMembership,
    WorkspaceRole,
};
use vstd::prelude::*;

verus! {

/// The content of a result.
pub open spec fn result_view<T: View>(res: Result<T, WorkspaceError>) -> Result<
    T::V,
    WorkspaceError,
> {
    match res {
        Ok(value) => Ok(value@),
        Err(error) => Err(error),
    }
}

/// Selects everyone but the author.
pub open spec fn other_than(author_id: Uuid) -> spec_fn(Uuid) -> bool {
    |id: Uuid| id != author_id
}

/// The position of the event that already stands under an event's key.
pub open spec fn key_holder(state: StoreState, event: WorkspaceEventView) -> Option<int> {
    position(
        state.events,
        event_keyed(event.workspace_id, event.author_id, event.idempotency_key),
    )
}

/// Why a workspace refuses an event, if it does.
pub open spec fn append_refusal(
    state: StoreState,
    event: WorkspaceEventView,
    validate_references: bool,
) -> Option<WorkspaceError> {
    let members = roles_in(state.members, event.workspace_id);
    if event.idempotency_key.len() == 0 {
        Some(WorkspaceError::EmptyIdempotencyKey)
    } else if key_holder(state, event) is Some {
        // Same key, different payload is a bug in the caller, not a retry.
        if canonical(state.events[key_holder(state, event)->Some_0]) == canonical(event) {
            None
        } else {
            Some(WorkspaceError::IdempotencyConflict)
        }
    } else if !is_listed(members, event.author_id) {
        Some(WorkspaceError::AuthorNotMember)
    } else if content_refusal(state, event, members, validate_references) is Some {
        content_refusal(state, event, members, validate_references)
    } else if audience_refusal(audience_of(event.kind), members) is Some {
        audience_refusal(audience_of(event.kind), members)
    } else {
        sequence_refusal(state.workspaces, event.workspace_id)
    }
}

/// Why a workspace has no sequence to hand out, if it has none.
pub open spec fn sequence_refusal(
    workspaces: Seq<WorkspaceRowView>,
    workspace_id: Uuid,
) -> Option<WorkspaceError> {
    match next_sequence(workspaces, workspace_id) {
        None => Some(WorkspaceError::WorkspaceUnknown { workspace_id }),
        Some(sequence) => if sequence >= MAX_COLUMN {
            Some(WorkspaceError::SequenceExhausted)
        } else {
            None
        },
    }
}

/// Whom an accepted event is delivered to. The author is a member but no
/// recipient of their own event.
pub open spec fn recipients_of(state: StoreState, event: WorkspaceEventView) -> Seq<Uuid> {
    audience_ids(
        audience_of(event.kind),
        roles_in(state.members, event.workspace_id),
    ).filter(other_than(event.author_id))
}

/// The workspaces once one of them has handed out a sequence.
pub open spec fn advanced(workspaces: Seq<WorkspaceRowView>, workspace_id: Uuid) -> Seq<
    WorkspaceRowView,
> {
    match position(workspaces, workspace_is(workspace_id)) {
        Some(index) => workspaces.update(
            index,
            WorkspaceRowView {
                next_sequence: (workspaces[index].next_sequence + 1) as u64,
                ..workspaces[index]
            },
        ),
        None => workspaces,
    }
}

/// The event as the journal holds it.
pub open spec fn sequenced(state: StoreState, event: WorkspaceEventView) -> WorkspaceEventView {
    WorkspaceEventView {
        sequence: next_sequence(state.workspaces, event.workspace_id)->Some_0,
        ..event
    }
}

/// The deliveries that an event starts with.
pub open spec fn fanned(
    workspace_id: Uuid,
    sequence: u64,
    recipients: Seq<Uuid>,
    mode: DeliveryMode,
    is_message: bool,
) -> Seq<DeliveryRowView> {
    recipients.map_values(
        |recipient_id: Uuid|
            DeliveryRowView {
                delivery: RecipientDeliveryView {
                    workspace_id,
                    sequence,
                    recipient_id,
                    mode,
                    state: DeliveryState::Pending,
                    attempts: 0,
                    last_attempt: None,
                },
                is_message,
            },
    )
}

/// The work items once an event is recorded.
pub open spec fn work_items_after(items: Seq<WorkItem>, event: WorkspaceEventView) -> Seq<WorkItem> {
    match event.kind {
        WorkspaceEventKindView::WorkCreated { work, .. } => items.push(
            WorkItem {
                workspace_id: event.workspace_id,
                work_id: work.id,
                created_sequence: event.sequence,
            },
        ),
        _ => items,
    }
}

/// The claims once an event is recorded: a claim replaces the one before it.
pub open spec fn claims_after(claims: Seq<WorkClaim>, event: WorkspaceEventView) -> Seq<WorkClaim> {
    match event.kind {
        WorkspaceEventKindView::WorkClaimed { claim, .. } => {
            let row = WorkClaim {
                workspace_id: event.workspace_id,
                work_id: claim.work_id,
                claim_id: event.id,
                claimant_id: claim.claimant_id,
                sequence: event.sequence,
            };
            match position(claims, claim_is(event.workspace_id, claim.work_id)) {
                Some(index) => claims.update(index, row),
                None => claims.push(row),
            }
        },
        _ => claims,
    }
}

/// The dependencies once an event is recorded: the first declaration stays.
pub open spec fn dependencies_after(edges: Seq<WorkEdge>, event: WorkspaceEventView) -> Seq<
    WorkEdge,
> {
    match event.kind {
        WorkspaceEventKindView::DependencyDeclared { dependency, .. } => {
            if some_item(
                edges,
                edge_is(event.workspace_id, dependency.work_id, dependency.depends_on_work_id),
            ) {
                edges
            } else {
                edges.push(
                    WorkEdge {
                        workspace_id: event.workspace_id,
                        work_id: dependency.work_id,
                        depends_on_work_id: dependency.depends_on_work_id,
                        sequence: event.sequence,
                    },
                )
            }
        },
        _ => edges,
    }
}

/// The tables once an event is admitted: it gets the next sequence of its
/// workspace, work tables record what it says, and its recipients get pending
/// deliveries.
pub open spec fn recorded(
    state: StoreState,
    event: WorkspaceEventView,
    recipients: Seq<Uuid>,
) -> StoreState {
    let stored = sequenced(state, event);
    StoreState {
        workspaces: advanced(state.workspaces, event.workspace_id),
        events: state.events.push(stored),
        deliveries: state.deliveries + fanned(
            stored.workspace_id,
            stored.sequence,
            recipients,
            mode_of(stored.kind),
            is_message(stored.kind),
        ),
        work_items: work_items_after(state.work_items, stored),
        claims: claims_after(state.claims, stored),
        dependencies: dependencies_after(state.dependencies, stored),
        ..state
    }
}

/// What appending an event returns, and the tables after it. A retry of an
/// admitted event returns what was admitted and changes nothing.
pub open spec fn append_outcome(
    state: StoreState,
    event: WorkspaceEventView,
    validate_references: bool,
) -> (Result<WorkspaceEventView, WorkspaceError>, StoreState) {
    match append_refusal(state, event, validate_references) {
        Some(error) => (Err(error), state),
        None => match key_holder(state, event) {
            Some(index) => (Ok(state.events[index]), state),
            None => (
                Ok(sequenced(state, event)),
                recorded(state, event, recipients_of(state, event)),
            ),
        },
    }
}

/// Handing out a sequence makes room for one more event.
pub proof fn lemma_sequence_step(state: StoreState, event: WorkspaceEventView)
    requires
        state.wf(),
        sequence_refusal(state.workspaces, event.workspace_id) is None,
        key_holder(state, event) is None,
    ensures
        workspaces_ok(advanced(state.workspaces, event.workspace_id)),
        events_ok(
            state.events.push(sequenced(state, event)),
            advanced(state.workspaces, event.workspace_id),
        ),
        position(
            state.events,
            event_at(event.workspace_id, sequenced(state, event).sequence),
        ) is None,
        next_sequence(advanced(state.workspaces, event.workspace_id), event.workspace_id) == Some(
            (sequenced(state, event).sequence + 1) as u64,
        ),
        forall|other: Uuid|
            other != event.workspace_id ==> #[trigger] next_sequence(
                advanced(state.workspaces, event.workspace_id),
                other,
            ) == next_sequence(state.workspaces, other),
{
    let id = event.workspace_id;
    let rows = state.workspaces;
    let stored = sequenced(state, event);
    lemma_position(rows, workspace_is(id));
    let index = position(rows, workspace_is(id))->Some_0;
    let row = WorkspaceRowView {
        next_sequence: (rows[index].next_sequence + 1) as u64,
        ..rows[index]
    };
    let after = advanced(rows, id);
    assert(after == rows.update(index, row));
    assert(rows[index].workspace.id == id);
    assert forall|other: Uuid| #[trigger] next_sequence(after, other) == if other == id {
        Some(row.next_sequence)
    } else {
        next_sequence(rows, other)
    } by {
        assert(workspace_is(other)(row) == workspace_is(other)(rows[index]));
        lemma_position_update(rows, index, row, workspace_is(other));
        lemma_position(rows, workspace_is(other));
    }
    assert(workspaces_ok(after)) by {
        assert forall|i: int, j: int| 0 <= i < j < after.len() implies (
        #[trigger] after[i]).workspace.id != (#[trigger] after[j]).workspace.id by {
            assert(rows[i].workspace.id != rows[j].workspace.id);
        }
        assert forall|i: int| 0 <= i < after.len() implies 1 <= (#[trigger] after[i]).next_sequence
            <= MAX_COLUMN by {
            assert(1 <= rows[i].next_sequence <= MAX_COLUMN);
        }
    }
    let selected = event_at(id, stored.sequence);
    lemma_position(state.events, selected);
    match position(state.events, selected) {
        Some(at) => {
            assert(state.events[at].sequence < next_sequence(rows, id)->Some_0);
        },
        None => {},
    }
    lemma_position(state.events, event_keyed(id, event.author_id, event.idempotency_key));
    let events = state.events.push(stored);
    assert(all_numbered(events, after)) by {
        assert forall|i: int| 0 <= i < after.len() implies numbered(
            events.filter(event_in((#[trigger] after[i]).workspace.id)),
            after[i].next_sequence,
        ) by {
            let here = event_in(after[i].workspace.id);
            let before = state.events.filter(here);
            assert(numbered(
                state.events.filter(event_in(rows[i].workspace.id)),
                rows[i].next_sequence,
            ));
            lemma_filter_push(state.events, stored, here);
            if i == index {
                assert(events.filter(here) == before.push(stored));
            } else {
                if i < index {
                    assert(rows[i].workspace.id != rows[index].workspace.id);
                } else {
                    assert(rows[index].workspace.id != rows[i].workspace.id);
                }
                assert(events.filter(here) == before);
            }
        }
    }
    assert(events_ok(events, after)) by {
        assert forall|i: int| 0 <= i < events.len() implies 1 <= (#[trigger] events[i]).sequence
            && next_sequence(after, events[i].workspace_id) is Some && events[i].sequence
            < next_sequence(after, events[i].workspace_id)->Some_0 by {
            if i < state.events.len() {
                assert(events[i] == state.events[i]);
            }
        }
        assert forall|i: int, j: int|
            0 <= i < j < events.len() && (#[trigger] events[i]).workspace_id == (
            #[trigger] events[j]).workspace_id implies events[i].sequence < events[j].sequence by {
            assert(events[i] == state.events[i]);
            if j < state.events.len() {
                assert(events[j] == state.events[j]);
            }
        }
        assert forall|i: int, j: int| 0 <= i < j < events.len() implies !((
        #[trigger] events[i]).workspace_id == (#[trigger] events[j]).workspace_id
            && events[i].author_id == events[j].author_id && events[i].idempotency_key
            == events[j].idempotency_key) by {
            assert(events[i] == state.events[i]);
            if j < state.events.len() {
                assert(events[j] == state.events[j]);
            } else {
                assert(!event_keyed(id, event.author_id, event.idempotency_key)(state.events[i]));
            }
        }
    }
}

/// Fanning out a new event to people other than its author keeps deliveries in
/// order.
pub proof fn lemma_fan_out(
    deliveries: Seq<DeliveryRowView>,
    events: Seq<WorkspaceEventView>,
    stored: WorkspaceEventView,
    recipients: Seq<Uuid>,
)
    requires
        deliveries_ok(deliveries, events),
        position(events, event_at(stored.workspace_id, stored.sequence)) is None,
        forall|i: int|
            0 <= i < events.len() && (#[trigger] events[i]).workspace_id == stored.workspace_id
                ==> events[i].sequence < stored.sequence,
        recipients.no_duplicates(),
        !recipients.contains(stored.author_id),
    ensures
        deliveries_ok(
            deliveries + fanned(
                stored.workspace_id,
                stored.sequence,
                recipients,
                mode_of(stored.kind),
                is_message(stored.kind),
            ),
            events.push(stored),
        ),
{
    let added = fanned(
        stored.workspace_id,
        stored.sequence,
        recipients,
        mode_of(stored.kind),
        is_message(stored.kind),
    );
    let rows = deliveries + added;
    let all = events.push(stored);
    let n = deliveries.len() as int;
    assert forall|i: int| 0 <= i < n implies #[trigger] rows[i] == deliveries[i] by {}
    assert forall|i: int| n <= i < rows.len() implies #[trigger] rows[i] == added[i - n]
        && rows[i].delivery.recipient_id == recipients[i - n] && rows[i].delivery.workspace_id
        == stored.workspace_id && rows[i].delivery.sequence == stored.sequence by {}
    assert forall|i: int|
        0 <= i < n && (#[trigger] deliveries[i]).delivery.workspace_id
            == stored.workspace_id implies deliveries[i].delivery.sequence < stored.sequence by {
        let row = deliveries[i];
        assert(delivery_ok(row, events));
        let selected = event_at(row.delivery.workspace_id, row.delivery.sequence);
        lemma_position(events, selected);
        let at = position(events, selected)->Some_0;
        assert(selected(events[at]));
    }
    assert forall|i: int| 0 <= i < rows.len() implies delivery_ok(#[trigger] rows[i], all) by {
        let row = rows[i];
        let selected = event_at(row.delivery.workspace_id, row.delivery.sequence);
        lemma_position_push(events, stored, selected);
        if i < n {
            assert(delivery_ok(deliveries[i], events));
            lemma_position(events, selected);
            let at = position(events, selected)->Some_0;
            assert(all[at] == events[at]);
        } else {
            assert(selected(stored));
            assert(all[events.len() as int] == stored);
            assert(recipients.contains(recipients[i - n]));
        }
    }
    assert forall|i: int, j: int|
        0 <= i < j < rows.len() && (#[trigger] rows[i]).delivery.workspace_id == (
        #[trigger] rows[j]).delivery.workspace_id implies rows[i].delivery.sequence
        <= rows[j].delivery.sequence by {
        if j < n {
            assert(rows[i] == deliveries[i] && rows[j] == deliveries[j]);
        } else if i < n {
            assert(deliveries[i].delivery.sequence < stored.sequence);
        }
    }
    assert forall|i: int, j: int| 0 <= i < j < rows.len() implies !((
    #[trigger] rows[i]).delivery.workspace_id == (#[trigger] rows[j]).delivery.workspace_id
        && rows[i].delivery.sequence == rows[j].delivery.sequence && rows[i].delivery.recipient_id
        == rows[j].delivery.recipient_id) by {
        if j < n {
            assert(rows[i] == deliveries[i] && rows[j] == deliveries[j]);
        } else if i < n {
            assert(deliveries[i].delivery.workspace_id == stored.workspace_id
                ==> deliveries[i].delivery.sequence < stored.sequence);
        } else {
            assert(recipients[i - n] != recipients[j - n]);
        }
    }
}

/// Recording an event that a workspace accepts keeps the tables' invariant.
pub proof fn lemma_recorded_wf(
    state: StoreState,
    event: WorkspaceEventView,
    recipients: Seq<Uuid>,
    validate_references: bool,
)
    requires
        state.wf(),
        key_holder(state, event) is None,
        content_refusal(
            state,
            event,
            roles_in(state.members, event.workspace_id),
            validate_references,
        ) is None,
        sequence_refusal(state.workspaces, event.workspace_id) is None,
        recipients.no_duplicates(),
        !recipients.contains(event.author_id),
    ensures
        recorded(state, event, recipients).wf(),
{
    let stored = sequenced(state, event);
    lemma_sequence_step(state, event);
    assert forall|i: int|
        0 <= i < state.events.len() && (#[trigger] state.events[i]).workspace_id
            == stored.workspace_id implies state.events[i].sequence < stored.sequence by {}
    lemma_fan_out(state.deliveries, state.events, stored, recipients);
    match stored.kind {
        WorkspaceEventKindView::WorkCreated { work, .. } => {
            lemma_position(state.work_items, work_is(event.workspace_id, work.id));
            let rows = work_items_after(state.work_items, stored);
            assert forall|i: int, j: int| 0 <= i < j < rows.len() implies !((
            #[trigger] rows[i]).workspace_id == (#[trigger] rows[j]).workspace_id
                && rows[i].work_id == rows[j].work_id) by {
                assert(rows[i] == state.work_items[i]);
                if j < state.work_items.len() {
                    assert(rows[j] == state.work_items[j]);
                } else {
                    assert(!work_is(event.workspace_id, work.id)(state.work_items[i]));
                }
            }
            assert(work_items_ok(rows));
        },
        WorkspaceEventKindView::WorkClaimed { claim, .. } => {
            let selected = claim_is(event.workspace_id, claim.work_id);
            lemma_position(state.claims, selected);
            let rows = claims_after(state.claims, stored);
            assert forall|i: int, j: int| 0 <= i < j < rows.len() implies !((
            #[trigger] rows[i]).workspace_id == (#[trigger] rows[j]).workspace_id
                && rows[i].work_id == rows[j].work_id) by {
                match position(state.claims, selected) {
                    Some(index) => {
                        assert(selected(state.claims[index]));
                        assert(!(state.claims[i].workspace_id == state.claims[j].workspace_id
                            && state.claims[i].work_id == state.claims[j].work_id));
                    },
                    None => {
                        assert(rows[i] == state.claims[i]);
                        if j < state.claims.len() {
                            assert(rows[j] == state.claims[j]);
                        } else {
                            assert(!selected(state.claims[i]));
                        }
                    },
                }
            }
            assert(claims_ok(rows));
        },
        WorkspaceEventKindView::DependencyDeclared { dependency, .. } => {
            let selected = edge_is(
                event.workspace_id,
                dependency.work_id,
                dependency.depends_on_work_id,
            );
            lemma_position(state.dependencies, selected);
            let rows = dependencies_after(state.dependencies, stored);
            assert forall|i: int, j: int| 0 <= i < j < rows.len() implies !((
            #[trigger] rows[i]).workspace_id == (#[trigger] rows[j]).workspace_id
                && rows[i].work_id == rows[j].work_id && rows[i].depends_on_work_id
                == rows[j].depends_on_work_id) by {
                assert(rows[i] == state.dependencies[i]);
                if j < state.dependencies.len() {
                    assert(rows[j] == state.dependencies[j]);
                } else {
                    assert(!selected(state.dependencies[i]));
                }
            }
            assert(dependencies_ok(rows));
        },
        _ => {},
    }
}

/// The people other than the author of an increasing audience are still
/// increasing, and the author is not among them.
pub proof fn lemma_others(ids: Seq<Uuid>, author_id: Uuid)
    requires
        ids.no_duplicates(),
    ensures
        ids.filter(other_than(author_id)).no_duplicates(),
        !ids.filter(other_than(author_id)).contains(author_id),
        forall|id: Uuid| #[trigger]
            ids.filter(other_than(author_id)).contains(id) <==> ids.contains(id) && id != author_id,
        increasing(ids) ==> increasing(ids.filter(other_than(author_id))),
{
    let kept = ids.filter(other_than(author_id));
    let distinct = |a: Uuid, b: Uuid| a != b;
    assert(pairwise(ids, distinct));
    lemma_filter_pairwise(ids, other_than(author_id), distinct);
    assert forall|i: int, j: int| 0 <= i < kept.len() && 0 <= j < kept.len() && i != j implies kept[i]
        != kept[j] by {
        if i < j {
            assert(distinct(kept[i], kept[j]));
        } else {
            assert(distinct(kept[j], kept[i]));
        }
    }
    assert forall|id: Uuid| #[trigger] kept.contains(id) <==> ids.contains(id) && id
        != author_id by {
        lemma_filter_contains(ids, other_than(author_id), id);
    }
    if increasing(ids) {
        let below = |a: Uuid, b: Uuid| a < b;
        assert(pairwise(ids, below));
        lemma_filter_pairwise(ids, other_than(author_id), below);
        assert forall|i: int, j: int| 0 <= i < j < kept.len() implies kept[i] < kept[j] by {
            assert(below(kept[i], kept[j]));
        }
    }
}

/// Everyone but the author.
pub(crate) fn others(ids: &Vec<Uuid>, author_id: Uuid) -> (res: Vec<Uuid>)
    ensures
        res@ == ids@.filter(other_than(author_id)),
{
    let mut res: Vec<Uuid> = Vec::new();
    let mut index: usize = 0;
    proof {
        reveal(Seq::filter);
        assert(ids@.take(0) =~= Seq::<Uuid>::empty());
        assert(res@ =~= Seq::<Uuid>::empty());
    }
    while index < ids.len()
        invariant
            index <= ids.len(),
            res@ == ids@.take(index as int).filter(other_than(author_id)),
        decreases ids.len() - index,
    {
        proof {
            lemma_filter_step(ids@, index as int, other_than(author_id));
        }
        if ids[index] != author_id {
            res.push(ids[index]);
        }
        index = index + 1;
    }
    assert(ids@.take(index as int) =~= ids@);
    res
}

/// What is to be done with an event.
enum Admission {
    /// It was admitted before, and stands at this position.
    Known { index: usize },
    /// It gets the next sequence of the workspace at this position.
    Fresh { row: usize, recipients: Vec<Uuid>, mode: DeliveryMode },
}

impl WorkspaceTables {
    /// The members of a workspace and their roles, in table order.
    pub fn members_of(&self, workspace_id: Uuid) -> (res: Vec<(Uuid, WorkspaceRole)>)
        ensures
            res@ == roles_in(self@.members, workspace_id),
    {
        let test = |row: &WorkspaceMembership| -> (answer: bool)
            ensures
                answer == member_in(workspace_id)(row@),
        { row.workspace_id == workspace_id };
        let rows = select(&self.members, self.members.len(), test, Ghost(member_in(workspace_id)));
        proof {
            self@.members.lemma_filter_len(member_in(workspace_id));
        }
        let mut res: Vec<(Uuid, WorkspaceRole)> = Vec::new();
        let mut index: usize = 0;
        while index < rows.len()
            invariant
                index <= rows.len(),
                res.len() == index,
                forall|i: int|
                    0 <= i < index ==> #[trigger] res@[i] == (rows@[i].participant_id, rows@[i].role),
            decreases rows.len() - index,
        {
            res.push((rows[index].participant_id, rows[index].role));
            index = index + 1;
        }
        proof {
            let kept = self@.members.filter(member_in(workspace_id));
            assert(views(rows@) == kept);
            assert forall|i: int| 0 <= i < rows@.len() implies #[trigger] rows@[i] == kept[i] by {
                assert(views(rows@)[i] == rows@[i]@);
            }
            assert(res@ =~= roles_in(self@.members, workspace_id));
        }
        res
    }

    /// The position of a workspace.
    pub(crate) fn workspace_row(&self, workspace_id: Uuid) -> (res: Option<usize>)
        ensures
            match res {
                Some(index) => position(self@.workspaces, workspace_is(workspace_id)) == Some(
                    index as int,
                ) && index < self.workspaces.len(),
                None => position(self@.workspaces, workspace_is(workspace_id)) is None,
            },
    {
        let test = |row: &WorkspaceRow| -> (answer: bool)
            ensures
                answer == workspace_is(workspace_id)(row@),
        { row.workspace.id == workspace_id };
        find(&self.workspaces, test, Ghost(workspace_is(workspace_id)))
    }

    /// The position of the event that an author admitted under a key.
    pub(crate) fn keyed_row(&self, workspace_id: Uuid, author_id: Uuid, key: &String) -> (res: Option<
        usize,
    >)
        ensures
            match res {
                Some(index) => position(
                    self@.events,
                    event_keyed(workspace_id, author_id, key@),
                ) == Some(index as int) && index < self.events.len(),
                None => position(self@.events, event_keyed(workspace_id, author_id, key@)) is None,
            },
    {
        let test = |row: &WorkspaceEvent| -> (answer: bool)
            ensures
                answer == event_keyed(workspace_id, author_id, key@)(row@),
        {
            row.workspace_id == workspace_id && row.author_id == author_id
                && row.idempotency_key == *key
        };
        find(&self.events, test, Ghost(event_keyed(workspace_id, author_id, key@)))
    }

    /// The position of the event that already stands under an event's key, or
    /// a conflict where it says something else.
    pub(crate) fn existing_event(&self, event: &WorkspaceEvent) -> (res: Result<Option<usize>, WorkspaceError>)
        ensures
            match res {
                Ok(Some(index)) => key_holder(self@, event@) == Some(index as int) && index
                    < self.events.len() && canonical(self@.events[index as int]) == canonical(
                    event@,
                ),
                Ok(None) => key_holder(self@, event@) is None,
                Err(error) => error == WorkspaceError::IdempotencyConflict && key_holder(
                    self@,
                    event@,
                ) is Some && canonical(self@.events[key_holder(self@, event@)->Some_0])
                    != canonical(event@),
            },
    {
        match self.keyed_row(event.workspace_id, event.author_id, &event.idempotency_key) {
            None => Ok(None),
            Some(index) => {
                let stored = canonical_event(self.events[index].clone());
                let offered = canonical_event(event.clone());
                assert(self@.events[index as int] == self.events@[index as int]@);
                if stored == offered {
                    Ok(Some(index))
                } else {
                    Err(WorkspaceError::IdempotencyConflict)
                }
            },
        }
    }

    /// Decides what is to be done with an event.
    fn admission(&self, event: &WorkspaceEvent, validate_references: bool) -> (res: Result<
        Admission,
        WorkspaceError,
    >)
        requires
            self@.wf(),
        ensures
            match res {
                Err(error) => append_refusal(self@, event@, validate_references) == Some(error),
                Ok(Admission::Known { index }) => append_refusal(
                    self@,
                    event@,
                    validate_references,
                ) is None && key_holder(self@, event@) == Some(index as int) && index
                    < self.events.len(),
                Ok(Admission::Fresh { row, recipients, mode }) => {
                    &&& append_refusal(self@, event@, validate_references) is None
                    &&& content_refusal(
                        self@,
                        event@,
                        roles_in(self@.members, event.workspace_id),
                        validate_references,
                    ) is None
                    &&& sequence_refusal(self@.workspaces, event.workspace_id) is None
                    &&& key_holder(self@, event@) is None
                    &&& position(self@.workspaces, workspace_is(event.workspace_id)) == Some(
                        row as int,
                    )
                    &&& row < self.workspaces.len()
                    &&& recipients@ == recipients_of(self@, event@)
                    &&& recipients@.no_duplicates()
                    &&& !recipients@.contains(event.author_id)
                    &&& mode == mode_of(event@.kind)
                },
            },
    {
        if event.idempotency_key.as_str().is_empty() {
            return Err(WorkspaceError::EmptyIdempotencyKey);
        }
        match self.existing_event(event) {
            Err(error) => return Err(error),
            Ok(Some(index)) => return Ok(Admission::Known { index }),
            Ok(None) => {},
        }
        let members = self.members_of(event.workspace_id);
        if !lists(&members, event.author_id) {
            return Err(WorkspaceError::AuthorNotMember);
        }
        match self.validate(event, &members, validate_references) {
            Err(error) => return Err(error),
            Ok(()) => {},
        }
        let (mode, audience) = routing(&event.kind);
        let addressed = match resolve_recipients(&audience, &members) {
            Err(error) => return Err(error),
            Ok(addressed) => addressed,
        };
        match self.workspace_row(event.workspace_id) {
            None => Err(WorkspaceError::WorkspaceUnknown { workspace_id: event.workspace_id }),
            Some(row) => {
                assert(self@.workspaces[row as int] == self.workspaces@[row as int]@);
                if self.workspaces[row].next_sequence >= MAX_COLUMN {
                    return Err(WorkspaceError::SequenceExhausted);
                }
                let recipients = others(&addressed, event.author_id);
                proof {
                    lemma_others(addressed@, event.author_id);
                }
                Ok(Admission::Fresh { row, recipients, mode })
            },
        }
    }

    /// Hands out the next sequence of the workspace at a position.
    fn take_sequence(&mut self, row: usize) -> (res: u64)
        requires
            row < old(self).workspaces.len(),
            position(
                old(self)@.workspaces,
                workspace_is(old(self).workspaces@[row as int].workspace.id),
            ) == Some(row as int),
            old(self).workspaces@[row as int].next_sequence < MAX_COLUMN,
        ensures
            res == old(self).workspaces@[row as int].next_sequence,
            final(self)@ == (StoreState {
                workspaces: advanced(
                    old(self)@.workspaces,
                    old(self).workspaces@[row as int].workspace.id,
                ),
                ..old(self)@
            }),
    {
        let sequence: u64 = self.workspaces[row].next_sequence;
        let workspace = self.workspaces[row].workspace.clone();
        let advanced_row = WorkspaceRow { workspace, next_sequence: sequence + 1 };
        let ghost before = self.workspaces@;
        proof {
            lemma_views_update(before, row as int, advanced_row);
            assert(views(before)[row as int] == before[row as int]@);
        }
        self.workspaces.set(row, advanced_row);
        sequence
    }

    /// Records what an event says about work.
    fn apply_side_effects(&mut self, event: &WorkspaceEvent)
        ensures
            final(self)@ == (StoreState {
                work_items: work_items_after(old(self)@.work_items, event@),
                claims: claims_after(old(self)@.claims, event@),
                dependencies: dependencies_after(old(self)@.dependencies, event@),
                ..old(self)@
            }),
    {
        match &event.kind {
            WorkspaceEventKind::WorkCreated { work, .. } => {
                let row = WorkItem {
                    workspace_id: event.workspace_id,
                    work_id: work.id,
                    created_sequence: event.sequence,
                };
                proof {
                    lemma_views_push(self.work_items@, row);
                }
                self.work_items.push(row);
            },
            WorkspaceEventKind::WorkClaimed { claim, .. } => {
                let workspace_id: Uuid = event.workspace_id;
                let work_id: Uuid = claim.work_id;
                let row = WorkClaim {
                    workspace_id,
                    work_id,
                    claim_id: event.id,
                    claimant_id: claim.claimant_id,
                    sequence: event.sequence,
                };
                let test = |other: &WorkClaim| -> (answer: bool)
                    ensures
                        answer == claim_is(workspace_id, work_id)(other@),
                { other.workspace_id == workspace_id && other.work_id == work_id };
                match find(&self.claims, test, Ghost(claim_is(workspace_id, work_id))) {
                    Some(index) => {
                        proof {
                            lemma_views_update(self.claims@, index as int, row);
                        }
                        self.claims.set(index, row);
                    },
                    None => {
                        proof {
                            lemma_views_push(self.claims@, row);
                        }
                        self.claims.push(row);
                    },
                }
            },
            WorkspaceEventKind::DependencyDeclared { dependency, .. } => {
                let workspace_id: Uuid = event.workspace_id;
                let work_id: Uuid = dependency.work_id;
                let depends_on_work_id: Uuid = dependency.depends_on_work_id;
                let test = |other: &WorkEdge| -> (answer: bool)
                    ensures
                        answer == edge_is(workspace_id, work_id, depends_on_work_id)(other@),
                {
                    other.workspace_id == workspace_id && other.work_id == work_id
                        && other.depends_on_work_id == depends_on_work_id
                };
                if find(
                    &self.dependencies,
                    test,
                    Ghost(edge_is(workspace_id, work_id, depends_on_work_id)),
                ).is_none() {
                    let row = WorkEdge {
                        workspace_id,
                        work_id,
                        depends_on_work_id,
                        sequence: event.sequence,
                    };
                    proof {
                        lemma_views_push(self.dependencies@, row);
                    }
                    self.dependencies.push(row);
                }
            },
            _ => {},
        }
    }

    /// Gives every recipient a pending delivery.
    fn fan_out(
        &mut self,
        workspace_id: Uuid,
        sequence: u64,
        recipients: &Vec<Uuid>,
        mode: DeliveryMode,
        is_message: bool,
    )
        ensures
            final(self)@ == (StoreState {
                deliveries: old(self)@.deliveries + fanned(
                    workspace_id,
                    sequence,
                    recipients@,
                    mode,
                    is_message,
                ),
                ..old(self)@
            }),
    {
        let ghost before = self@;
        let ghost added = fanned(workspace_id, sequence, recipients@, mode, is_message);
        let mut index: usize = 0;
        assert(before.deliveries + added.take(0) =~= before.deliveries);
        while index < recipients.len()
            invariant
                index <= recipients.len(),
                added == fanned(workspace_id, sequence, recipients@, mode, is_message),
                self@ == (StoreState {
                    deliveries: before.deliveries + added.take(index as int),
                    ..before
                }),
            decreases recipients.len() - index,
        {
            let row = DeliveryRow {
                delivery: RecipientDelivery {
                    workspace_id,
                    sequence,
                    recipient_id: recipients[index],
                    mode,
                    state: DeliveryState::Pending,
                    attempts: 0,
                    last_attempt: None,
                },
                is_message,
            };
            proof {
                lemma_views_push(self.deliveries@, row);
                assert(added[index as int] == row@);
                assert(before.deliveries + added.take(index + 1) =~= (before.deliveries
                    + added.take(index as int)).push(row@));
            }
            self.deliveries.push(row);
            index = index + 1;
        }
        assert(added.take(index as int) =~= added);
    }

    /// Gives an event the next sequence of the workspace at a position, and
    /// delivers it.
    pub(crate) fn record(&mut self, row: usize, event: WorkspaceEvent, recipients: &Vec<Uuid>, mode: DeliveryMode)
        -> (res: WorkspaceEvent)
        requires
            position(old(self)@.workspaces, workspace_is(event.workspace_id)) == Some(row as int),
            row < old(self).workspaces.len(),
            sequence_refusal(old(self)@.workspaces, event.workspace_id) is None,
            mode == mode_of(event@.kind),
        ensures
            res@ == sequenced(old(self)@, event@),
            final(self)@ == recorded(old(self)@, event@, recipients@),
    {
        let ghost before = self@;
        proof {
            lemma_position(before.workspaces, workspace_is(event.workspace_id));
            assert(before.workspaces[row as int] == self.workspaces@[row as int]@);
        }
        let sequence: u64 = self.take_sequence(row);
        let stored = WorkspaceEvent {
            id: event.id,
            workspace_id: event.workspace_id,
            sequence,
            author_id: event.author_id,
            idempotency_key: event.idempotency_key,
            created_at: event.created_at,
            kind: event.kind,
        };
        let copy = stored.clone();
        proof {
            lemma_views_push(self.events@, copy);
        }
        self.events.push(copy);
        self.apply_side_effects(&stored);
        let message = match &stored.kind {
            WorkspaceEventKind::Message { .. } => true,
            _ => false,
        };
        self.fan_out(stored.workspace_id, sequence, recipients, mode, message);
        assert(self@ =~= recorded(before, event@, recipients@));
        stored
    }

    /// Appends one event, looking up the references of a message only where
    /// that is asked for.
    ///
    /// References are not looked up for relay imports alone: a thread or reply
    /// that only exists elsewhere must not keep out mail that the relay has
    /// already accepted.
    pub fn append_event(&mut self, event: WorkspaceEvent, validate_references: bool) -> (res: Result<
        WorkspaceEvent,
        WorkspaceError,
    >)
        requires
            old(self)@.wf(),
        ensures
            result_view(res) == append_outcome(old(self)@, event@, validate_references).0,
            final(self)@ == append_outcome(old(self)@, event@, validate_references).1,
            final(self)@.wf(),
    {
        match self.admission(&event, validate_references) {
            Err(error) => Err(error),
            Ok(Admission::Known { index }) => {
                assert(self@.events[index as int] == self.events@[index as int]@);
                Ok(self.events[index].clone())
            },
            Ok(Admission::Fresh { row, recipients, mode }) => {
                proof {
                    lemma_recorded_wf(self@, event@, recipients@, validate_references);
                }
                Ok(self.record(row, event, &recipients, mode))
            },
        }
    }

    /// Appends one event of this installation.
    pub fn append(&mut self, event: WorkspaceEvent) -> (res: Result<WorkspaceEvent, WorkspaceError>)
        requires
            old(self)@.wf(),
        ensures
            result_view(res) == append_outcome(old(self)@, event@, true).0,
            final(self)@ == append_outcome(old(self)@, event@, true).1,
            final(self)@.wf(),
    {
        self.append_event(event, true)
    }
}

} // verus!
