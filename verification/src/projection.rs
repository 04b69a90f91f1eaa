//! Projecting the events of a session journal into a workspace.
//!
//! The rows of a batch describe events that the session journal has already
//! accepted, so a batch is projected whole or not at all: half of it would
//! describe a history that never happened.

use crate::append::{
    advanced, key_holder, lemma_others, lemma_recorded_wf, other_than, others, recorded,
    sequence_refusal,
};
use crate::audience::{is_listed, lists};
use crate::error::WorkspaceError;
use crate::event::{canonical, mode_of};
use crate::model::{
    lemma_filter_pairwise, lemma_position, lemma_position_update, lemma_views_update, pairwise,
    position, views,
};
use crate::store::{
    member_in, members_ok, next_sequence, roles_in, workspace_is, StoreState, WorkspaceRow,
    WorkspaceTables, MAX_COLUMN,
};
use crate::workspace::{
    DeliveryMode, Uuid, WorkspaceEvent, WorkspaceEventKind, WorkspaceEventView, WorkspaceMembership,
    WorkspaceRole,
};
use vstd::prelude::*;

verus! {

/// The identities in a list of members.
pub open spec fn ids_of(members: Seq<(Uuid, WorkspaceRole)>) -> Seq<Uuid> {
    members.map_values(|member: (Uuid, WorkspaceRole)| member.0)
}

/// Everyone in the workspace of a session event but its author.
pub open spec fn projection_recipients(state: StoreState, event: WorkspaceEventView) -> Seq<Uuid> {
    ids_of(roles_in(state.members, event.workspace_id)).filter(other_than(event.author_id))
}

/// Whether events can be projected together.
pub open spec fn compatible(events: Seq<WorkspaceEventView>) -> bool {
    forall|i: int|
        0 <= i < events.len() ==> (#[trigger] events[i]).workspace_id == events[0].workspace_id
            && events[i].kind is SessionEvent
}

/// The tables once one session event is projected, or why it is refused. An
/// event that was projected before is passed over.
pub open spec fn project_one(state: StoreState, event: WorkspaceEventView) -> Result<
    StoreState,
    WorkspaceError,
> {
    if !is_listed(roles_in(state.members, event.workspace_id), event.author_id) {
        Err(WorkspaceError::AuthorNotMember)
    } else {
        match key_holder(state, event) {
            Some(index) => if canonical(state.events[index]) == canonical(event) {
                Ok(state)
            } else {
                Err(WorkspaceError::IdempotencyConflict)
            },
            None => match sequence_refusal(state.workspaces, event.workspace_id) {
                Some(error) => Err(error),
                None => Ok(recorded(state, event, projection_recipients(state, event))),
            },
        }
    }
}

/// The tables once the first `count` session events are projected in turn, or
/// why the first of them that is refused is refused.
pub open spec fn project_first(
    state: StoreState,
    events: Seq<WorkspaceEventView>,
    count: nat,
) -> Result<StoreState, WorkspaceError>
    decreases count,
{
    if count == 0 {
        Ok(state)
    } else {
        match project_first(state, events, (count - 1) as nat) {
            Err(error) => Err(error),
            Ok(before) => project_one(before, events[count - 1]),
        }
    }
}

/// The tables once a batch is projected, or why it is refused.
pub open spec fn project_batch(state: StoreState, events: Seq<WorkspaceEventView>) -> Result<
    StoreState,
    WorkspaceError,
> {
    if !compatible(events) {
        Err(WorkspaceError::IncompatibleBatch)
    } else {
        project_first(state, events, events.len())
    }
}

/// A refusal stays a refusal whatever follows.
proof fn lemma_project_refused(
    state: StoreState,
    events: Seq<WorkspaceEventView>,
    count: nat,
    total: nat,
)
    requires
        count <= total,
        project_first(state, events, count) is Err,
    ensures
        project_first(state, events, total) == project_first(state, events, count),
    decreases total - count,
{
    if count < total {
        lemma_project_refused(state, events, count + 1, total);
    }
}

/// Nobody is listed twice among the members of one workspace.
pub proof fn lemma_ids_distinct(members: Seq<WorkspaceMembership>, workspace_id: Uuid)
    requires
        members_ok(members),
    ensures
        ids_of(roles_in(members, workspace_id)).no_duplicates(),
{
    let kept = members.filter(member_in(workspace_id));
    let distinct = |a: WorkspaceMembership, b: WorkspaceMembership|
        !(a.workspace_id == b.workspace_id && a.participant_id == b.participant_id);
    assert(pairwise(members, distinct));
    lemma_filter_pairwise(members, member_in(workspace_id), distinct);
    let ids = ids_of(roles_in(members, workspace_id));
    assert forall|i: int| 0 <= i < kept.len() implies (#[trigger] kept[i]).workspace_id
        == workspace_id by {
        members.lemma_filter_pred(member_in(workspace_id), i);
    }
    assert forall|i: int, j: int| 0 <= i < ids.len() && 0 <= j < ids.len() && i != j implies ids[i]
        != ids[j] by {
        assert(ids[i] == kept[i].participant_id && ids[j] == kept[j].participant_id);
        if i < j {
            assert(distinct(kept[i], kept[j]));
        } else {
            assert(distinct(kept[j], kept[i]));
        }
    }
}

/// What a projection changes: rows are added to the events and deliveries, and
/// one workspace counts on.
spec fn grown(before: StoreState, after: StoreState, row: int) -> bool {
    &&& 0 <= row < before.workspaces.len()
    &&& after.workspaces.len() == before.workspaces.len()
    &&& after.workspaces[row].workspace == before.workspaces[row].workspace
    &&& after.workspaces.update(row, before.workspaces[row]) == before.workspaces
    &&& before.events.is_prefix_of(after.events)
    &&& before.deliveries.is_prefix_of(after.deliveries)
    &&& after == (StoreState {
        workspaces: after.workspaces,
        events: after.events,
        deliveries: after.deliveries,
        ..before
    })
}

/// Projecting one more event only adds.
proof fn lemma_grown(before: StoreState, middle: StoreState, event: WorkspaceEventView, row: int)
    requires
        grown(before, middle, row),
        event.kind is SessionEvent,
        position(middle.workspaces, workspace_is(event.workspace_id)) == Some(row),
    ensures
        grown(before, recorded(middle, event, projection_recipients(middle, event)), row),
{
    let after = recorded(middle, event, projection_recipients(middle, event));
    assert(after.workspaces.update(row, before.workspaces[row]) =~= middle.workspaces.update(
        row,
        before.workspaces[row],
    ));
    assert(before.events.is_prefix_of(after.events)) by {
        assert(after.events.take(before.events.len() as int) =~= middle.events.take(
            before.events.len() as int,
        ));
    }
    assert(before.deliveries.is_prefix_of(after.deliveries)) by {
        assert(after.deliveries.take(before.deliveries.len() as int) =~= middle.deliveries.take(
            before.deliveries.len() as int,
        ));
    }
    assert(after =~= (StoreState {
        workspaces: after.workspaces,
        events: after.events,
        deliveries: after.deliveries,
        ..before
    }));
}

/// The identities in a list of members.
fn member_ids(members: &Vec<(Uuid, WorkspaceRole)>) -> (res: Vec<Uuid>)
    ensures
        res@ == ids_of(members@),
{
    let mut res: Vec<Uuid> = Vec::new();
    let mut index: usize = 0;
    while index < members.len()
        invariant
            index <= members.len(),
            res.len() == index,
            forall|i: int| 0 <= i < index ==> #[trigger] res@[i] == members@[i].0,
        decreases members.len() - index,
    {
        res.push(members[index].0);
        index = index + 1;
    }
    assert(res@ =~= ids_of(members@));
    res
}

/// The mode of a session event, or nothing for another kind.
fn session_mode(kind: &WorkspaceEventKind) -> (res: Option<DeliveryMode>)
    ensures
        match res {
            Some(mode) => kind@ is SessionEvent && mode == mode_of(kind@),
            None => !(kind@ is SessionEvent),
        },
{
    match kind {
        WorkspaceEventKind::SessionEvent { mode, .. } => Some(*mode),
        _ => None,
    }
}

/// Whether events can be projected together.
fn is_compatible(events: &[WorkspaceEvent]) -> (res: bool)
    requires
        events@.len() > 0,
    ensures
        res == compatible(views(events@)),
{
    let workspace_id: Uuid = events[0].workspace_id;
    assert(views(events@)[0] == events@[0]@);
    let mut index: usize = 0;
    while index < events.len()
        invariant
            index <= events.len(),
            events@.len() > 0,
            workspace_id == views(events@)[0].workspace_id,
            forall|i: int|
                0 <= i < index ==> (#[trigger] views(events@)[i]).workspace_id == workspace_id
                    && views(events@)[i].kind is SessionEvent,
        decreases events.len() - index,
    {
        assert(views(events@)[index as int] == events@[index as int]@);
        if events[index].workspace_id != workspace_id || session_mode(&events[index].kind).is_none() {
            return false;
        }
        index = index + 1;
    }
    true
}

impl WorkspaceTables {
    /// Takes back what a projection added.
    fn take_back(&mut self, row: Option<(usize, u64)>, events: usize, deliveries: usize, before: Ghost<StoreState>)
        requires
            match row {
                Some((row, next_sequence)) => grown(before@, old(self)@, row as int)
                    && next_sequence == before@.workspaces[row as int].next_sequence,
                None => old(self)@ == before@,
            },
            events == before@.events.len(),
            deliveries == before@.deliveries.len(),
        ensures
            final(self)@ == before@,
    {
        match row {
            None => {},
            Some((row, next_sequence)) => {
                let workspace = self.workspaces[row].workspace.clone();
                let restored = WorkspaceRow { workspace, next_sequence };
                proof {
                    lemma_views_update(self.workspaces@, row as int, restored);
                    assert(views(self.workspaces@)[row as int] == self.workspaces@[row as int]@);
                    assert(restored@ == before@.workspaces[row as int]);
                }
                self.workspaces.set(row, restored);
                let ghost event_rows = self.events@;
                let ghost delivery_rows = self.deliveries@;
                self.events.truncate(events);
                self.deliveries.truncate(deliveries);
                proof {
                    assert(views(self.events@) =~= before@.events) by {
                        assert forall|i: int| 0 <= i < before@.events.len() implies views(
                            self.events@,
                        )[i] == #[trigger] before@.events[i] by {
                            assert(views(event_rows)[i] == event_rows[i]@);
                        }
                    }
                    assert(views(self.deliveries@) =~= before@.deliveries) by {
                        assert forall|i: int| 0 <= i < before@.deliveries.len() implies views(
                            self.deliveries@,
                        )[i] == #[trigger] before@.deliveries[i] by {
                            assert(views(delivery_rows)[i] == delivery_rows[i]@);
                        }
                    }
                    assert(self@ =~= before@);
                }
            },
        }
    }

    /// Projects one session event for members that are given.
    fn project(&mut self, source: &WorkspaceEvent, mode: DeliveryMode, members: &Vec<(Uuid, WorkspaceRole)>, ids: &Vec<Uuid>, row: Option<usize>) -> (res: Result<(), WorkspaceError>)
        requires
            old(self)@.wf(),
            source@.kind is SessionEvent,
            mode == mode_of(source@.kind),
            members@ == roles_in(old(self)@.members, source.workspace_id),
            ids@ == ids_of(members@),
            match row {
                Some(row) => position(old(self)@.workspaces, workspace_is(source.workspace_id))
                    == Some(row as int) && row < old(self).workspaces.len(),
                None => position(old(self)@.workspaces, workspace_is(source.workspace_id)) is None,
            },
        ensures
            match res {
                Ok(()) => project_one(old(self)@, source@) == Ok::<StoreState, WorkspaceError>(
                    final(self)@,
                ) && final(self)@.wf(),
                Err(error) => project_one(old(self)@, source@) == Err::<StoreState, WorkspaceError>(
                    error,
                ) && final(self)@ == old(self)@,
            },
    {
        if !lists(members, source.author_id) {
            return Err(WorkspaceError::AuthorNotMember);
        }
        match self.existing_event(source) {
            Err(error) => return Err(error),
            Ok(Some(_)) => return Ok(()),
            Ok(None) => {},
        }
        match row {
            None => Err(WorkspaceError::WorkspaceUnknown { workspace_id: source.workspace_id }),
            Some(row) => {
                assert(self@.workspaces[row as int] == self.workspaces@[row as int]@);
                if self.workspaces[row].next_sequence >= MAX_COLUMN {
                    return Err(WorkspaceError::SequenceExhausted);
                }
                let recipients = others(ids, source.author_id);
                proof {
                    lemma_ids_distinct(self@.members, source.workspace_id);
                    lemma_others(ids@, source.author_id);
                    lemma_recorded_wf(self@, source@, recipients@, true);
                }
                let _ = self.record(row, source.clone(), &recipients, mode);
                Ok(())
            },
        }
    }

    /// Projects a batch of session events of one workspace, whole or not at all.
    pub fn append_session_event_batch(&mut self, events: &[WorkspaceEvent]) -> (res: Result<
        (),
        WorkspaceError,
    >)
        requires
            old(self)@.wf(),
        ensures
            match res {
                Ok(()) => project_batch(old(self)@, views(events@)) == Ok::<
                    StoreState,
                    WorkspaceError,
                >(final(self)@),
                Err(error) => project_batch(old(self)@, views(events@)) == Err::<
                    StoreState,
                    WorkspaceError,
                >(error) && final(self)@ == old(self)@,
            },
            final(self)@.wf(),
    {
        let ghost batch = views(events@);
        if events.len() == 0 {
            return Ok(());
        }
        if !is_compatible(events) {
            return Err(WorkspaceError::IncompatibleBatch);
        }
        assert(batch[0] == events@[0]@);
        let workspace_id: Uuid = events[0].workspace_id;
        let members = self.members_of(workspace_id);
        let ids = member_ids(&members);
        let row = self.workspace_row(workspace_id);
        let first = match row {
            Some(row) => Some((row, self.workspaces[row].next_sequence)),
            None => None,
        };
        let event_count: usize = self.events.len();
        let delivery_count: usize = self.deliveries.len();
        let ghost before = self@;
        proof {
            if let Some(row) = row {
                assert(before.workspaces[row as int] == self.workspaces@[row as int]@);
                assert(before.workspaces.update(row as int, before.workspaces[row as int])
                    =~= before.workspaces);
                assert(before =~= (StoreState {
                    workspaces: before.workspaces,
                    events: before.events,
                    deliveries: before.deliveries,
                    ..before
                }));
                assert(grown(before, before, row as int));
            }
        }
        let mut index: usize = 0;
        while index < events.len()
            invariant
                index <= events.len(),
                batch == views(events@),
                compatible(batch),
                events@.len() > 0,
                workspace_id == batch[0].workspace_id,
                before == old(self)@,
                before.wf(),
                self@.wf(),
                project_first(before, batch, index as nat) == Ok::<StoreState, WorkspaceError>(
                    self@,
                ),
                self@.members == before.members,
                members@ == roles_in(before.members, workspace_id),
                ids@ == ids_of(members@),
                event_count == before.events.len(),
                delivery_count == before.deliveries.len(),
                match (row, first) {
                    (Some(row), Some((same, next))) => row == same && grown(
                        before,
                        self@,
                        row as int,
                    ) && next == before.workspaces[row as int].next_sequence && position(
                        self@.workspaces,
                        workspace_is(workspace_id),
                    ) == Some(row as int),
                    (None, None) => self@ == before && position(
                        self@.workspaces,
                        workspace_is(workspace_id),
                    ) is None,
                    _ => false,
                },
            decreases events.len() - index,
        {
            let source = &events[index];
            assert(batch[index as int] == source@);
            let ghost middle = self@;
            match session_mode(&source.kind) {
                None => {
                    assert(false);
                },
                Some(mode) => {
                    match self.project(source, mode, &members, &ids, row) {
                        Ok(()) => {
                            proof {
                                if key_holder(middle, source@) is None {
                                    let at = row->Some_0 as int;
                                    lemma_grown(before, middle, source@, at);
                                    let changed = advanced(middle.workspaces, workspace_id)[at];
                                    lemma_position(middle.workspaces, workspace_is(workspace_id));
                                    lemma_position_update(
                                        middle.workspaces,
                                        at,
                                        changed,
                                        workspace_is(workspace_id),
                                    );
                                }
                            }
                        },
                        Err(error) => {
                            proof {
                                assert(project_first(before, batch, (index + 1) as nat) == Err::<
                                    StoreState,
                                    WorkspaceError,
                                >(error));
                                lemma_project_refused(
                                    before,
                                    batch,
                                    (index + 1) as nat,
                                    batch.len(),
                                );
                            }
                            self.take_back(first, event_count, delivery_count, Ghost(before));
                            return Err(error);
                        },
                    }
                },
            }
            index = index + 1;
        }
        Ok(())
    }
}

} // verus!
