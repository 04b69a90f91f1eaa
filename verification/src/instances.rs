//! Which agent instances this installation knows of.
//!
//! An instance that has exited is tombstoned, never deleted: events and
//! deliveries refer to its participant.

use crate::directory::{with_participant, Renewal};
use crate::error::WorkspaceError;
use crate::model::{
    arrange, arranged, find, lemma_filter_step, lemma_position, lemma_position_push,
    lemma_position_update, lemma_views_push,
    lemma_views_update, option_view, position, select, views, Ranked, Row,
};
use crate::store::{
    instance_is, instances_ok, InstanceRow, InstanceRowView, StoreState, WorkspaceTables,
};
use crate::time::Timestamp;
use crate::workspace::{
    AgentInstance, AgentInstanceView, Participant, ParticipantKind, ParticipantView, Uuid,
};
use vstd::prelude::*;

verus! {

/// An instance of which nothing is known but its participant.
pub open spec fn unknown_instance(participant_id: Uuid) -> InstanceRowView {
    InstanceRowView {
        participant_id,
        host_id: None,
        workspace_id: None,
        seen_at: None,
        cwd: None,
        status: None,
        pid: None,
        exited_at: None,
    }
}

/// What is known of a participant's process.
pub open spec fn known_instance(rows: Seq<InstanceRowView>, participant_id: Uuid) -> InstanceRowView {
    match position(rows, instance_is(participant_id)) {
        Some(index) => rows[index],
        None => unknown_instance(participant_id),
    }
}

/// The rows once what is known of a participant's process is replaced.
pub open spec fn with_instance(rows: Seq<InstanceRowView>, row: InstanceRowView) -> Seq<
    InstanceRowView,
> {
    match position(rows, instance_is(row.participant_id)) {
        Some(index) => rows.update(index, row),
        None => rows.push(row),
    }
}

/// An agent together with what is known of its process.
pub open spec fn instance_view(participant: ParticipantView, row: InstanceRowView) -> AgentInstanceView {
    AgentInstanceView {
        participant,
        host_id: row.host_id,
        workspace_id: row.workspace_id,
        seen_at: row.seen_at,
        cwd: row.cwd,
        status: row.status,
        pid: row.pid,
        exited_at: row.exited_at,
    }
}

/// Selects the agents that a listing shows.
pub open spec fn listed(instances: Seq<InstanceRowView>, include_exited: bool) -> spec_fn(
    ParticipantView,
) -> bool {
    |row: ParticipantView|
        row.kind == ParticipantKind::Agent && (include_exited || known_instance(
            instances,
            row.id,
        ).exited_at is None)
}

/// What a listing shows, in table order.
pub open spec fn listing(state: StoreState, include_exited: bool) -> Seq<AgentInstanceView> {
    state.participants.filter(listed(state.instances, include_exited)).map_values(
        |row: ParticipantView| instance_view(row, known_instance(state.instances, row.id)),
    )
}

/// The first of two optional values that is there.
pub open spec fn either<T>(first: Option<T>, second: Option<T>) -> Option<T> {
    if first is Some {
        first
    } else {
        second
    }
}

/// Selects the instances that a sweep tombstones.
pub open spec fn reaped(ids: Seq<Uuid>) -> spec_fn(InstanceRowView) -> bool {
    |row: InstanceRowView| ids.contains(row.participant_id) && row.exited_at is None
}

/// An instance after a sweep. The first time it was found gone stays.
pub open spec fn after_reaping(row: InstanceRowView, ids: Seq<Uuid>, now: Timestamp) -> InstanceRowView {
    if reaped(ids)(row) {
        InstanceRowView { exited_at: Some(now), ..row }
    } else {
        row
    }
}

/// When an instance was found gone, once its host has reported a status. A
/// stopped instance is tombstoned on sight, any other status clears the
/// tombstone, and no status says nothing.
pub open spec fn exit_after_report(
    known: Option<Timestamp>,
    status: Option<Seq<char>>,
    now: Timestamp,
) -> Option<Timestamp> {
    match status {
        None => known,
        Some(status) => if status == "stopped"@ {
            either(known, Some(now))
        } else {
            None
        },
    }
}

/// What is known of an instance once a directory sync has reported it. What the
/// directory leaves empty never erases what is known.
pub open spec fn after_report(
    known: InstanceRowView,
    host_id: Option<Uuid>,
    workspace_id: Option<Uuid>,
    cwd: Option<Seq<char>>,
    status: Option<Seq<char>>,
    now: Timestamp,
) -> InstanceRowView {
    InstanceRowView {
        participant_id: known.participant_id,
        host_id: either(host_id, known.host_id),
        workspace_id: either(workspace_id, known.workspace_id),
        seen_at: Some(now),
        cwd: either(cwd, known.cwd),
        status: either(status, known.status),
        pid: known.pid,
        exited_at: exit_after_report(known.exited_at, status, now),
    }
}

/// What a directory sync leaves empty never erases what is known, and what it
/// says replaces it. The process identity is not its to say.
pub proof fn law_reports_erase_nothing(
    known: InstanceRowView,
    host_id: Option<Uuid>,
    workspace_id: Option<Uuid>,
    cwd: Option<Seq<char>>,
    status: Option<Seq<char>>,
    now: Timestamp,
)
    ensures
        ({
            let after = after_report(known, host_id, workspace_id, cwd, status, now);
            &&& after.host_id == if host_id is Some { host_id } else { known.host_id }
            &&& after.workspace_id == if workspace_id is Some {
                workspace_id
            } else {
                known.workspace_id
            }
            &&& after.cwd == if cwd is Some { cwd } else { known.cwd }
            &&& after.status == if status is Some { status } else { known.status }
            &&& after.pid == known.pid
            &&& status is None ==> after.exited_at == known.exited_at
        }),
{
}

/// An instance that its host reports as stopped is no longer listed among the live
/// ones but stays listed among all, and any other report lists it again.
pub proof fn law_reports_decide_listing(
    rows: Seq<InstanceRowView>,
    agent: ParticipantView,
    host_id: Option<Uuid>,
    workspace_id: Option<Uuid>,
    cwd: Option<Seq<char>>,
    status: Seq<char>,
    now: Timestamp,
)
    requires
        agent.kind == ParticipantKind::Agent,
    ensures
        ({
            let known = known_instance(rows, agent.id);
            let after = with_instance(
                rows,
                after_report(known, host_id, workspace_id, cwd, Some(status), now),
            );
            &&& listed(after, false)(agent) <==> status != "stopped"@
            &&& listed(after, true)(agent)
        }),
{
    let selected = instance_is(agent.id);
    let known = known_instance(rows, agent.id);
    let row = after_report(known, host_id, workspace_id, cwd, Some(status), now);
    lemma_position(rows, selected);
    assert(row.participant_id == agent.id);
    match position(rows, selected) {
        Some(index) => {
            lemma_position_update(rows, index, row, selected);
        },
        None => {
            lemma_position_push(rows, row, selected);
        },
    }
    assert(known_instance(with_instance(rows, row), agent.id) == row);
}

/// Replacing what is known of one process keeps processes apart.
pub proof fn lemma_with_instance_ok(rows: Seq<InstanceRowView>, row: InstanceRowView)
    requires
        instances_ok(rows),
    ensures
        instances_ok(with_instance(rows, row)),
{
    let after = with_instance(rows, row);
    let selected = instance_is(row.participant_id);
    lemma_position(rows, selected);
    assert forall|i: int, j: int| 0 <= i < j < after.len() implies (
    #[trigger] after[i]).participant_id != (#[trigger] after[j]).participant_id by {
        match position(rows, selected) {
            Some(index) => {
                assert(selected(rows[index]));
                assert(rows[i].participant_id != rows[j].participant_id);
            },
            None => {
                assert(after[i] == rows[i]);
                if j < rows.len() {
                    assert(after[j] == rows[j]);
                } else {
                    assert(!selected(rows[i]));
                }
            },
        }
    }
}

impl Row for AgentInstance {
    fn duplicate(&self) -> (res: Self) {
        self.clone()
    }
}

impl Ranked for AgentInstance {
    open spec fn rank(value: AgentInstanceView) -> (Timestamp, u128) {
        (value.participant.created_at, value.participant.id)
    }

    fn rank_of(&self) -> (res: (Timestamp, u128)) {
        (self.participant.created_at, self.participant.id)
    }
}

/// Whether an identity is in a list.
fn contains_id(ids: &[Uuid], id: Uuid) -> (res: bool)
    ensures
        res == ids@.contains(id),
{
    let mut index: usize = 0;
    while index < ids.len()
        invariant
            index <= ids.len(),
            forall|i: int| 0 <= i < index ==> ids@[i] != id,
        decreases ids.len() - index,
    {
        if ids[index] == id {
            assert(ids@[index as int] == id);
            return true;
        }
        index = index + 1;
    }
    false
}

/// An optional text.
fn owned(text: Option<&str>) -> (res: Option<String>)
    ensures
        option_view(res) == match text {
            Some(text) => Some(text@),
            None => None,
        },
{
    match text {
        Some(text) => Some(text.to_owned()),
        None => None,
    }
}

impl WorkspaceTables {
    /// The position of what is known of a participant's process.
    fn instance_row(&self, participant_id: Uuid) -> (res: Option<usize>)
        ensures
            match res {
                Some(index) => position(self@.instances, instance_is(participant_id)) == Some(
                    index as int,
                ) && index < self.instances.len(),
                None => position(self@.instances, instance_is(participant_id)) is None,
            },
    {
        let test = |row: &InstanceRow| -> (answer: bool)
            ensures
                answer == instance_is(participant_id)(row@),
        { row.participant_id == participant_id };
        find(&self.instances, test, Ghost(instance_is(participant_id)))
    }

    /// What is known of a participant's process.
    fn instance(&self, participant_id: Uuid) -> (res: InstanceRow)
        ensures
            res@ == known_instance(self@.instances, participant_id),
    {
        match self.instance_row(participant_id) {
            Some(index) => {
                assert(self@.instances[index as int] == self.instances@[index as int]@);
                self.instances[index].clone()
            },
            None => InstanceRow {
                participant_id,
                host_id: None,
                workspace_id: None,
                seen_at: None,
                cwd: None,
                status: None,
                pid: None,
                exited_at: None,
            },
        }
    }

    /// Replaces what is known of a participant's process.
    fn put_instance(&mut self, row: InstanceRow)
        requires
            old(self)@.wf(),
        ensures
            final(self)@ == (StoreState {
                instances: with_instance(old(self)@.instances, row@),
                ..old(self)@
            }),
            final(self)@.wf(),
    {
        proof {
            lemma_with_instance_ok(self@.instances, row@);
        }
        match self.instance_row(row.participant_id) {
            Some(index) => {
                proof {
                    lemma_views_update(self.instances@, index as int, row);
                }
                self.instances.set(index, row);
            },
            None => {
                proof {
                    lemma_views_push(self.instances@, row);
                }
                self.instances.push(row);
            },
        }
    }

    /// Agent instances known to this installation, by age. Exited instances are
    /// left out unless they are asked for.
    pub fn list_instances(&self, include_exited: bool) -> (res: Vec<AgentInstance>)
        ensures
            arranged::<AgentInstance>(views(res@), listing(self@, include_exited)),
    {
        let test = |row: &Participant| -> (answer: bool)
            ensures
                answer == listed(self@.instances, include_exited)(row@),
        {
            row.kind == ParticipantKind::Agent && (include_exited || self.instance(
                row.id,
            ).exited_at.is_none())
        };
        let rows = select(
            &self.participants,
            self.participants.len(),
            test,
            Ghost(listed(self@.instances, include_exited)),
        );
        let ghost kept = self@.participants.filter(listed(self@.instances, include_exited));
        proof {
            self@.participants.lemma_filter_len(listed(self@.instances, include_exited));
            assert(views(rows@) == kept);
            assert(views(rows@).len() == rows@.len());
        }
        let mut found: Vec<AgentInstance> = Vec::new();
        let mut index: usize = 0;
        while index < rows.len()
            invariant
                index <= rows.len(),
                found.len() == index,
                views(rows@) == kept,
                kept.len() == rows@.len(),
                forall|i: int|
                    0 <= i < index ==> (#[trigger] found@[i])@ == instance_view(
                        kept[i],
                        known_instance(self@.instances, kept[i].id),
                    ),
            decreases rows.len() - index,
        {
            let participant = rows[index].clone();
            assert(views(rows@)[index as int] == participant@);
            let row = self.instance(participant.id);
            found.push(
                AgentInstance {
                    participant,
                    host_id: row.host_id,
                    workspace_id: row.workspace_id,
                    seen_at: row.seen_at,
                    cwd: row.cwd,
                    status: row.status,
                    pid: row.pid,
                    exited_at: row.exited_at,
                },
            );
            index = index + 1;
        }
        assert(views(found@) =~= listing(self@, include_exited));
        arrange(&found)
    }

    /// Records a process as a live instance, clearing any exit tombstone. A
    /// workspace that is known stays where the launch does not name one.
    pub fn register_local_instance(
        &mut self,
        participant_id: Uuid,
        workspace_id: Option<Uuid>,
        cwd: &str,
        pid: u32,
        now: Timestamp,
    )
        requires
            old(self)@.wf(),
        ensures
            final(self)@ == (StoreState {
                instances: with_instance(
                    old(self)@.instances,
                    InstanceRowView {
                        workspace_id: either(
                            workspace_id,
                            known_instance(old(self)@.instances, participant_id).workspace_id,
                        ),
                        seen_at: Some(now),
                        cwd: Some(cwd@),
                        pid: Some(pid as i64),
                        exited_at: None,
                        ..known_instance(old(self)@.instances, participant_id)
                    },
                ),
                ..old(self)@
            }),
            final(self)@.wf(),
    {
        proof {
            lemma_position(self@.instances, instance_is(participant_id));
        }
        let mut row = self.instance(participant_id);
        if workspace_id.is_some() {
            row.workspace_id = workspace_id;
        }
        row.seen_at = Some(now);
        row.cwd = Some(cwd.to_owned());
        row.pid = Some(pid as i64);
        row.exited_at = None;
        self.put_instance(row);
    }

    /// Tombstones instances whose owner is gone, and says how many moved.
    pub fn mark_local_instances_exited(&mut self, participant_ids: &[Uuid], now: Timestamp) -> (res:
        u64)
        requires
            old(self)@.wf(),
        ensures
            res == old(self)@.instances.filter(reaped(participant_ids@)).len(),
            final(self)@ == (StoreState {
                instances: old(self)@.instances.map_values(
                    |row: InstanceRowView| after_reaping(row, participant_ids@, now),
                ),
                ..old(self)@
            }),
            final(self)@.wf(),
    {
        let ghost before = self@;
        let mut moved: u64 = 0;
        let mut index: usize = 0;
        proof {
            reveal(Seq::filter);
            assert(before.instances.take(0) =~= Seq::<InstanceRowView>::empty());
        }
        while index < self.instances.len()
            invariant
                index <= self.instances.len(),
                self.instances.len() == before.instances.len(),
                self@ == (StoreState { instances: self@.instances, ..before }),
                forall|i: int|
                    0 <= i < before.instances.len() ==> #[trigger] self@.instances[i] == if i
                        < index {
                        after_reaping(before.instances[i], participant_ids@, now)
                    } else {
                        before.instances[i]
                    },
                moved == before.instances.take(index as int).filter(reaped(participant_ids@)).len(),
                moved <= index,
            decreases self.instances.len() - index,
        {
            let mut row = self.instances[index].clone();
            proof {
                assert(self@.instances[index as int] == row@);
                lemma_filter_step(before.instances, index as int, reaped(participant_ids@));
            }
            if contains_id(participant_ids, row.participant_id) && row.exited_at.is_none() {
                row.exited_at = Some(now);
                proof {
                    lemma_views_update(self.instances@, index as int, row);
                }
                self.instances.set(index, row);
                moved = moved + 1;
            }
            index = index + 1;
        }
        proof {
            assert(before.instances.take(index as int) =~= before.instances);
            let after = before.instances.map_values(
                |row: InstanceRowView| after_reaping(row, participant_ids@, now),
            );
            assert(self@.instances =~= after);
            assert forall|i: int, j: int| 0 <= i < j < after.len() implies (
            #[trigger] after[i]).participant_id != (#[trigger] after[j]).participant_id by {
                assert(before.instances[i].participant_id != before.instances[j].participant_id);
            }
        }
        moved
    }

    /// Caches authenticated instance discovery without granting membership.
    pub fn upsert_instance(
        &mut self,
        participant: Participant,
        host_id: Option<Uuid>,
        workspace_id: Option<Uuid>,
        now: Timestamp,
    ) -> (res: Result<(), WorkspaceError>)
        requires
            old(self)@.wf(),
        ensures
            if participant.kind != ParticipantKind::Agent {
                res == Err::<(), WorkspaceError>(WorkspaceError::NotAnAgent) && final(self)@
                    == old(self)@
            } else {
                res == Ok::<(), WorkspaceError>(()) && final(self)@ == (StoreState {
                    participants: with_participant(
                        old(self)@.participants,
                        participant@,
                        Renewal::Refresh,
                    ),
                    instances: with_instance(
                        old(self)@.instances,
                        InstanceRowView {
                            host_id,
                            workspace_id,
                            seen_at: Some(now),
                            ..known_instance(old(self)@.instances, participant.id)
                        },
                    ),
                    ..old(self)@
                })
            },
            final(self)@.wf(),
    {
        if participant.kind != ParticipantKind::Agent {
            return Err(WorkspaceError::NotAnAgent);
        }
        let participant_id: Uuid = participant.id;
        proof {
            lemma_position(self@.instances, instance_is(participant_id));
        }
        self.keep_participant(participant, Renewal::Refresh);
        let mut row = self.instance(participant_id);
        row.host_id = host_id;
        row.workspace_id = workspace_id;
        row.seen_at = Some(now);
        self.put_instance(row);
        Ok(())
    }

    /// Caches one entry of an authenticated directory sync.
    pub fn upsert_directory_instance(
        &mut self,
        participant: Participant,
        host_id: Option<Uuid>,
        workspace_id: Option<Uuid>,
        cwd: Option<&str>,
        status: Option<&str>,
        now: Timestamp,
    ) -> (res: Result<(), WorkspaceError>)
        requires
            old(self)@.wf(),
        ensures
            if participant.kind != ParticipantKind::Agent {
                res == Err::<(), WorkspaceError>(WorkspaceError::NotAnAgent) && final(self)@
                    == old(self)@
            } else {
                res == Ok::<(), WorkspaceError>(()) && final(self)@ == (StoreState {
                    participants: with_participant(
                        old(self)@.participants,
                        participant@,
                        Renewal::Refresh,
                    ),
                    instances: with_instance(
                        old(self)@.instances,
                        after_report(
                            known_instance(old(self)@.instances, participant.id),
                            host_id,
                            workspace_id,
                            text_view(cwd),
                            text_view(status),
                            now,
                        ),
                    ),
                    ..old(self)@
                })
            },
            final(self)@.wf(),
    {
        if participant.kind != ParticipantKind::Agent {
            return Err(WorkspaceError::NotAnAgent);
        }
        let participant_id: Uuid = participant.id;
        proof {
            lemma_position(self@.instances, instance_is(participant_id));
        }
        self.keep_participant(participant, Renewal::Refresh);
        let mut row = self.instance(participant_id);
        if host_id.is_some() {
            row.host_id = host_id;
        }
        if workspace_id.is_some() {
            row.workspace_id = workspace_id;
        }
        row.seen_at = Some(now);
        if cwd.is_some() {
            row.cwd = owned(cwd);
        }
        if let Some(status) = status {
            let reported = status.to_owned();
            if reported == "stopped".to_owned() {
                if row.exited_at.is_none() {
                    row.exited_at = Some(now);
                }
            } else {
                row.exited_at = None;
            }
            row.status = Some(reported);
        }
        self.put_instance(row);
        Ok(())
    }
}

/// The characters of an optional text.
pub open spec fn text_view(text: Option<&str>) -> Option<Seq<char>> {
    match text {
        Some(text) => Some(text@),
        None => None,
    }
}

} // verus!
