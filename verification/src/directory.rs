//! Participants, workspaces, threads and membership.

use crate::error::WorkspaceError;
use crate::model::{
    arrange, arranged, find, lemma_position, lemma_position_push, lemma_views_push,
    lemma_views_update, option_view, position, select, some_item, views, Ranked, Row,
};
use crate::outside::{new_v5, uuid_string, uuid_text, uuid_v5, NAMESPACE_URL};
use crate::store::{
    all_numbered, event_in, events_ok, member_is, members_ok, next_sequence, numbered,
    participant_is, participants_ok, thread_is,
    threads_ok, workspace_is, workspaces_ok, StoreState, WorkspaceRow, WorkspaceRowView,
    WorkspaceTables, MAX_COLUMN,
};
use crate::text::{trim, trimmed};
use crate::time::Timestamp;
use crate::workspace::{
    Participant, ParticipantKind, ParticipantView, Thread, Uuid, Workspace, WorkspaceEventKind,
    WorkspaceEventKindView, WorkspaceEventView, WorkspaceMembership, WorkspaceRole,
    WorkspaceRosterEntry, WorkspaceRosterEntryView, WorkspaceView,
};
use vstd::prelude::*;
use vstd::string::StringExecFns;
use vstd::utf8::encode_utf8;

verus! {

/// The identity of a local human.
pub open spec fn local_human_id(display_name: Seq<char>) -> Uuid {
    uuid_v5(NAMESPACE_URL, encode_utf8("borg://local-human/"@ + trimmed(display_name)))
}

/// Stable identity for the local OS user across all personal workspaces in one
/// installation.
pub fn local_human_participant_id(display_name: &str) -> (res: Uuid)
    ensures
        res == local_human_id(display_name@),
{
    let mut name = "borg://local-human/".to_owned();
    name.append(trim(display_name));
    new_v5(NAMESPACE_URL, name.as_str().as_bytes())
}

/// The identity of the workspace that two participants share. It is derived
/// from the sorted pair, so that both directions name the same workspace.
pub open spec fn direct_workspace_id(left: Uuid, right: Uuid) -> Uuid {
    let first = if left <= right {
        left
    } else {
        right
    };
    let second = if left <= right {
        right
    } else {
        left
    };
    uuid_v5(
        NAMESPACE_URL,
        encode_utf8("borg://local-direct/"@ + uuid_text(first) + "/"@ + uuid_text(second)),
    )
}

/// Names the workspace of a sorted pair.
fn direct_workspace(first: Uuid, second: Uuid) -> (res: Uuid)
    requires
        first <= second,
    ensures
        res == direct_workspace_id(first, second),
{
    let mut name = "borg://local-direct/".to_owned();
    name.append(uuid_string(first).as_str());
    name.append("/");
    name.append(uuid_string(second).as_str());
    new_v5(NAMESPACE_URL, name.as_str().as_bytes())
}

/// The workspaces once one of them is sure to exist. An existing workspace is
/// never overwritten.
pub open spec fn with_workspace(
    rows: Seq<WorkspaceRowView>,
    id: Uuid,
    name: Seq<char>,
    created_at: Timestamp,
) -> Seq<WorkspaceRowView> {
    if some_item(rows, workspace_is(id)) {
        rows
    } else {
        rows.push(
            WorkspaceRowView {
                workspace: WorkspaceView { id, name, created_at },
                next_sequence: 1,
            },
        )
    }
}

/// What happens to a participant who is already known.
pub enum Renewal {
    /// Nothing.
    Keep,
    /// The display name is refreshed.
    Rename,
    /// The display name and the kind are refreshed.
    Refresh,
}

/// A known participant after a renewal.
pub open spec fn renewed(
    known: ParticipantView,
    offered: ParticipantView,
    renewal: Renewal,
) -> ParticipantView {
    match renewal {
        Renewal::Keep => known,
        Renewal::Rename => ParticipantView { display_name: offered.display_name, ..known },
        Renewal::Refresh => ParticipantView {
            display_name: offered.display_name,
            kind: offered.kind,
            ..known
        },
    }
}

/// The participants once one of them is sure to be known.
pub open spec fn with_participant(
    rows: Seq<ParticipantView>,
    offered: ParticipantView,
    renewal: Renewal,
) -> Seq<ParticipantView> {
    match position(rows, participant_is(offered.id)) {
        Some(index) => rows.update(index, renewed(rows[index], offered, renewal)),
        None => rows.push(offered),
    }
}

/// The members once a participant is sure to belong to a workspace. Who belongs
/// to it already keeps the time they joined, and their role unless it is
/// refreshed.
pub open spec fn with_member(
    rows: Seq<WorkspaceMembership>,
    offered: WorkspaceMembership,
    refresh_role: bool,
) -> Seq<WorkspaceMembership> {
    match position(rows, member_is(offered.workspace_id, offered.participant_id)) {
        Some(index) => if refresh_role {
            rows.update(index, WorkspaceMembership { role: offered.role, ..rows[index] })
        } else {
            rows
        },
        None => rows.push(offered),
    }
}

/// The tables once the workspace that one execution session runs in is sure to
/// exist, with its human as owner and its agent as editor.
pub open spec fn with_execution_workspace(
    state: StoreState,
    workspace_id: Uuid,
    workspace_name: Seq<char>,
    human_id: Uuid,
    human_name: Seq<char>,
    agent_id: Uuid,
    agent_name: Seq<char>,
    now: Timestamp,
) -> StoreState {
    let human = ParticipantView {
        id: human_id,
        display_name: human_name,
        kind: ParticipantKind::Human,
        created_at: now,
    };
    let agent = ParticipantView {
        id: agent_id,
        display_name: agent_name,
        kind: ParticipantKind::Agent,
        created_at: now,
    };
    let owner = WorkspaceMembership {
        workspace_id,
        participant_id: human_id,
        role: WorkspaceRole::Owner,
        joined_at: now,
    };
    let editor = WorkspaceMembership {
        workspace_id,
        participant_id: agent_id,
        role: WorkspaceRole::Editor,
        joined_at: now,
    };
    StoreState {
        workspaces: with_workspace(state.workspaces, workspace_id, workspace_name, now),
        participants: with_participant(
            with_participant(state.participants, human, Renewal::Rename),
            agent,
            Renewal::Rename,
        ),
        members: with_member(with_member(state.members, owner, true), editor, true),
        ..state
    }
}

/// Why two participants get no direct workspace, if they get none.
pub open spec fn direct_refusal(state: StoreState, left: Uuid, right: Uuid) -> Option<
    WorkspaceError,
> {
    let first = if left <= right {
        left
    } else {
        right
    };
    let second = if left <= right {
        right
    } else {
        left
    };
    if left == right {
        Some(WorkspaceError::DirectToSelf)
    } else if !some_item(state.participants, participant_is(first)) {
        Some(WorkspaceError::DirectParticipantUnknown { participant_id: first })
    } else if !some_item(state.participants, participant_is(second)) {
        Some(WorkspaceError::DirectParticipantUnknown { participant_id: second })
    } else {
        None
    }
}

/// The tables once the direct workspace of two participants is sure to exist.
pub open spec fn with_direct_workspace(
    state: StoreState,
    left: Uuid,
    right: Uuid,
    now: Timestamp,
) -> StoreState {
    let first = if left <= right {
        left
    } else {
        right
    };
    let second = if left <= right {
        right
    } else {
        left
    };
    let id = direct_workspace_id(left, right);
    let of = |participant_id: Uuid|
        WorkspaceMembership {
            workspace_id: id,
            participant_id,
            role: WorkspaceRole::Editor,
            joined_at: now,
        };
    StoreState {
        workspaces: with_workspace(state.workspaces, id, "Borg direct message"@, now),
        members: with_member(with_member(state.members, of(first), false), of(second), false),
        ..state
    }
}

/// The tables once a participant is sure to be on the roster of a workspace in a
/// role.
pub open spec fn with_roster_entry(
    state: StoreState,
    workspace_id: Uuid,
    participant: ParticipantView,
    role: WorkspaceRole,
    now: Timestamp,
) -> StoreState {
    StoreState {
        participants: with_participant(state.participants, participant, Renewal::Refresh),
        members: with_member(
            state.members,
            WorkspaceMembership {
                workspace_id,
                participant_id: participant.id,
                role,
                joined_at: now,
            },
            true,
        ),
        ..state
    }
}

/// Selects the members that a roster can list.
pub open spec fn on_roster(participants: Seq<ParticipantView>, workspace_id: Uuid) -> spec_fn(
    WorkspaceMembership,
) -> bool {
    |row: WorkspaceMembership|
        row.workspace_id == workspace_id && some_item(
            participants,
            participant_is(row.participant_id),
        )
}

/// A member as a roster lists it.
pub open spec fn roster_entry(
    participants: Seq<ParticipantView>,
    row: WorkspaceMembership,
) -> WorkspaceRosterEntryView {
    WorkspaceRosterEntryView {
        participant: participants[position(
            participants,
            participant_is(row.participant_id),
        )->Some_0],
        role: row.role,
        joined_at: row.joined_at,
    }
}

/// The members of a workspace as a roster lists them, in table order.
pub open spec fn roster_entries(state: StoreState, workspace_id: Uuid) -> Seq<
    WorkspaceRosterEntryView,
> {
    state.members.filter(on_roster(state.participants, workspace_id)).map_values(
        |row: WorkspaceMembership| roster_entry(state.participants, row),
    )
}

/// Selects the workspaces that a participant belongs to.
pub open spec fn joined_by(members: Seq<WorkspaceMembership>, participant_id: Uuid) -> spec_fn(
    WorkspaceRowView,
) -> bool {
    |row: WorkspaceRowView| some_item(members, member_is(row.workspace.id, participant_id))
}

/// Selects the projections of a session into a workspace.
pub open spec fn projects(workspace_id: Uuid, session_id: Uuid) -> spec_fn(
    WorkspaceEventView,
) -> bool {
    |row: WorkspaceEventView|
        row.workspace_id == workspace_id && (row.kind matches WorkspaceEventKindView::SessionEvent {
            session_id: other,
            ..
        } && other == session_id)
}

/// The sequence that an event has in its session journal.
pub open spec fn session_sequence(event: WorkspaceEventView) -> u64 {
    match event.kind {
        WorkspaceEventKindView::SessionEvent { session_sequence, .. } => session_sequence,
        _ => 0,
    }
}

/// Whether some projection of a session carries a sequence.
pub open spec fn projected_at(
    events: Seq<WorkspaceEventView>,
    workspace_id: Uuid,
    session_id: Uuid,
    sequence: u64,
) -> bool {
    exists|i: int|
        0 <= i < events.len() && projects(workspace_id, session_id)(#[trigger] events[i])
            && session_sequence(events[i]) == sequence
}

/// A workspace that is added has no events yet.
pub proof fn lemma_with_workspace_ok(
    state: StoreState,
    id: Uuid,
    name: Seq<char>,
    created_at: Timestamp,
)
    requires
        state.wf(),
    ensures
        workspaces_ok(with_workspace(state.workspaces, id, name, created_at)),
        events_ok(state.events, with_workspace(state.workspaces, id, name, created_at)),
        some_item(with_workspace(state.workspaces, id, name, created_at), workspace_is(id)),
        forall|other: Uuid|
            next_sequence(state.workspaces, other) is Some ==> #[trigger] next_sequence(
                with_workspace(state.workspaces, id, name, created_at),
                other,
            ) == next_sequence(state.workspaces, other),
        next_sequence(state.workspaces, id) is None ==> next_sequence(
            with_workspace(state.workspaces, id, name, created_at),
            id,
        ) == Some(1u64),
{
    let rows = state.workspaces;
    let after = with_workspace(rows, id, name, created_at);
    lemma_position(rows, workspace_is(id));
    lemma_position(after, workspace_is(id));
    if !some_item(rows, workspace_is(id)) {
        let row = after.last();
        assert(after == rows.push(row));
        lemma_position_push(rows, row, workspace_is(id));
        assert forall|other: Uuid| next_sequence(rows, other) is Some implies #[trigger]
            next_sequence(after, other) == next_sequence(rows, other) by {
            lemma_position_push(rows, row, workspace_is(other));
            lemma_position(rows, workspace_is(other));
        }
        assert forall|i: int, j: int| 0 <= i < j < after.len() implies (
        #[trigger] after[i]).workspace.id != (#[trigger] after[j]).workspace.id by {
            assert(after[i] == rows[i]);
            if j < rows.len() {
                assert(after[j] == rows[j]);
            } else {
                assert(!workspace_is(id)(rows[i]));
            }
        }
        assert forall|i: int| 0 <= i < after.len() implies 1 <= (
        #[trigger] after[i]).next_sequence <= MAX_COLUMN by {
            if i < rows.len() {
                assert(after[i] == rows[i]);
            }
        }
        assert forall|i: int| 0 <= i < after.len() implies numbered(
            state.events.filter(event_in((#[trigger] after[i]).workspace.id)),
            after[i].next_sequence,
        ) by {
            if i < rows.len() {
                assert(after[i] == rows[i]);
            } else {
                assert forall|k: int| 0 <= k < state.events.len() implies !event_in(id)(
                    #[trigger] state.events[k],
                ) by {
                    assert(next_sequence(rows, state.events[k].workspace_id) is Some);
                }
                state.events.lemma_all_neg_filter_empty(event_in(id));
            }
        }
        assert(all_numbered(state.events, after));
        assert forall|i: int| 0 <= i < state.events.len() implies 1 <= (
        #[trigger] state.events[i]).sequence && next_sequence(
            after,
            state.events[i].workspace_id,
        ) is Some && state.events[i].sequence < next_sequence(
            after,
            state.events[i].workspace_id,
        )->Some_0 by {}
    }
}

/// Renewing a participant keeps identities apart.
pub proof fn lemma_with_participant_ok(
    rows: Seq<ParticipantView>,
    offered: ParticipantView,
    renewal: Renewal,
)
    requires
        participants_ok(rows),
    ensures
        participants_ok(with_participant(rows, offered, renewal)),
{
    let after = with_participant(rows, offered, renewal);
    let selected = participant_is(offered.id);
    lemma_position(rows, selected);
    assert forall|i: int, j: int| 0 <= i < j < after.len() implies (#[trigger] after[i]).id != (
    #[trigger] after[j]).id by {
        if position(rows, selected) is Some {
            assert(rows[i].id != rows[j].id);
        } else {
            assert(after[i] == rows[i]);
            if j < rows.len() {
                assert(after[j] == rows[j]);
            } else {
                assert(!selected(rows[i]));
            }
        }
    }
}

/// Adding a member keeps memberships apart.
pub proof fn lemma_with_member_ok(
    rows: Seq<WorkspaceMembership>,
    offered: WorkspaceMembership,
    refresh_role: bool,
)
    requires
        members_ok(rows),
    ensures
        members_ok(with_member(rows, offered, refresh_role)),
{
    let after = with_member(rows, offered, refresh_role);
    let selected = member_is(offered.workspace_id, offered.participant_id);
    lemma_position(rows, selected);
    assert forall|i: int, j: int| 0 <= i < j < after.len() implies !((
    #[trigger] after[i]).workspace_id == (#[trigger] after[j]).workspace_id
        && after[i].participant_id == after[j].participant_id) by {
        if position(rows, selected) is Some {
            assert(!(rows[i].workspace_id == rows[j].workspace_id && rows[i].participant_id
                == rows[j].participant_id));
        } else {
            assert(after[i] == rows[i]);
            if j < rows.len() {
                assert(after[j] == rows[j]);
            } else {
                assert(!selected(rows[i]));
            }
        }
    }
}

impl Row for WorkspaceRosterEntry {
    fn duplicate(&self) -> (res: Self) {
        self.clone()
    }
}

impl Ranked for WorkspaceRosterEntry {
    open spec fn rank(value: WorkspaceRosterEntryView) -> (Timestamp, u128) {
        (value.joined_at, value.participant.id)
    }

    fn rank_of(&self) -> (res: (Timestamp, u128)) {
        (self.joined_at, self.participant.id)
    }
}

impl Row for Workspace {
    fn duplicate(&self) -> (res: Self) {
        self.clone()
    }
}

impl Ranked for Workspace {
    open spec fn rank(value: WorkspaceView) -> (Timestamp, u128) {
        (value.created_at, value.id)
    }

    fn rank_of(&self) -> (res: (Timestamp, u128)) {
        (self.created_at, self.id)
    }
}

impl WorkspaceTables {
    /// The position of a participant.
    pub(crate) fn participant_row(&self, id: Uuid) -> (res: Option<usize>)
        ensures
            match res {
                Some(index) => position(self@.participants, participant_is(id)) == Some(
                    index as int,
                ) && index < self.participants.len(),
                None => position(self@.participants, participant_is(id)) is None,
            },
    {
        let test = |row: &Participant| -> (answer: bool)
            ensures
                answer == participant_is(id)(row@),
        { row.id == id };
        find(&self.participants, test, Ghost(participant_is(id)))
    }

    /// The position of a membership.
    fn member_row(&self, workspace_id: Uuid, participant_id: Uuid) -> (res: Option<usize>)
        ensures
            match res {
                Some(index) => position(
                    self@.members,
                    member_is(workspace_id, participant_id),
                ) == Some(index as int) && index < self.members.len(),
                None => position(self@.members, member_is(workspace_id, participant_id)) is None,
            },
    {
        let test = |row: &WorkspaceMembership| -> (answer: bool)
            ensures
                answer == member_is(workspace_id, participant_id)(row@),
        { row.workspace_id == workspace_id && row.participant_id == participant_id };
        find(&self.members, test, Ghost(member_is(workspace_id, participant_id)))
    }

    /// Adds a participant whose identity is new.
    pub fn create_participant(&mut self, participant: Participant) -> (res: Result<
        (),
        WorkspaceError,
    >)
        requires
            old(self)@.wf(),
        ensures
            if some_item(old(self)@.participants, participant_is(participant.id)) {
                res == Err::<(), WorkspaceError>(WorkspaceError::DuplicateKey) && final(self)@
                    == old(self)@
            } else {
                res == Ok::<(), WorkspaceError>(()) && final(self)@ == (StoreState {
                    participants: old(self)@.participants.push(participant@),
                    ..old(self)@
                })
            },
            final(self)@.wf(),
    {
        if self.participant_row(participant.id).is_some() {
            return Err(WorkspaceError::DuplicateKey);
        }
        proof {
            lemma_views_push(self.participants@, participant);
            lemma_with_participant_ok(self@.participants, participant@, Renewal::Keep);
        }
        self.participants.push(participant);
        Ok(())
    }

    /// Adds a workspace whose identity is new.
    pub fn create_workspace(&mut self, workspace: Workspace) -> (res: Result<(), WorkspaceError>)
        requires
            old(self)@.wf(),
        ensures
            if some_item(old(self)@.workspaces, workspace_is(workspace.id)) {
                res == Err::<(), WorkspaceError>(WorkspaceError::DuplicateKey) && final(self)@
                    == old(self)@
            } else {
                res == Ok::<(), WorkspaceError>(()) && final(self)@ == (StoreState {
                    workspaces: old(self)@.workspaces.push(
                        WorkspaceRowView { workspace: workspace@, next_sequence: 1 },
                    ),
                    ..old(self)@
                })
            },
            final(self)@.wf(),
    {
        if self.workspace_row(workspace.id).is_some() {
            return Err(WorkspaceError::DuplicateKey);
        }
        let row = WorkspaceRow { workspace, next_sequence: 1 };
        proof {
            lemma_views_push(self.workspaces@, row);
            lemma_with_workspace_ok(
                self@,
                row.workspace.id,
                row.workspace.name@,
                row.workspace.created_at,
            );
            assert(row@.workspace == (WorkspaceView {
                id: row.workspace.id,
                name: row.workspace.name@,
                created_at: row.workspace.created_at,
            }));
        }
        self.workspaces.push(row);
        Ok(())
    }

    /// Adds a member who is not one yet.
    pub fn add_member(&mut self, membership: WorkspaceMembership) -> (res: Result<
        (),
        WorkspaceError,
    >)
        requires
            old(self)@.wf(),
        ensures
            if old(self)@.has_member(membership.workspace_id, membership.participant_id) {
                res == Err::<(), WorkspaceError>(WorkspaceError::DuplicateKey) && final(self)@
                    == old(self)@
            } else {
                res == Ok::<(), WorkspaceError>(()) && final(self)@ == (StoreState {
                    members: old(self)@.members.push(membership),
                    ..old(self)@
                })
            },
            final(self)@.wf(),
    {
        if self.member_row(membership.workspace_id, membership.participant_id).is_some() {
            return Err(WorkspaceError::DuplicateKey);
        }
        proof {
            lemma_views_push(self.members@, membership);
            lemma_with_member_ok(self@.members, membership, false);
        }
        self.members.push(membership);
        Ok(())
    }

    /// Adds a thread whose identity is new.
    pub fn create_thread(&mut self, thread: Thread) -> (res: Result<(), WorkspaceError>)
        requires
            old(self)@.wf(),
        ensures
            if some_item(old(self)@.threads, thread_is(thread.id)) {
                res == Err::<(), WorkspaceError>(WorkspaceError::DuplicateKey) && final(self)@
                    == old(self)@
            } else {
                res == Ok::<(), WorkspaceError>(()) && final(self)@ == (StoreState {
                    threads: old(self)@.threads.push(thread@),
                    ..old(self)@
                })
            },
            final(self)@.wf(),
    {
        let id: Uuid = thread.id;
        let test = |row: &Thread| -> (answer: bool)
            ensures
                answer == thread_is(id)(row@),
        { row.id == id };
        if find(&self.threads, test, Ghost(thread_is(id))).is_some() {
            return Err(WorkspaceError::DuplicateKey);
        }
        proof {
            lemma_views_push(self.threads@, thread);
            let rows = self@.threads;
            let after = rows.push(thread@);
            lemma_position(rows, thread_is(id));
            assert forall|i: int, j: int| 0 <= i < j < after.len() implies (
            #[trigger] after[i]).id != (#[trigger] after[j]).id by {
                assert(after[i] == rows[i]);
                if j < rows.len() {
                    assert(after[j] == rows[j]);
                } else {
                    assert(!thread_is(id)(rows[i]));
                }
            }
            assert(threads_ok(after));
        }
        self.threads.push(thread);
        Ok(())
    }

    /// Makes sure that a workspace exists.
    pub(crate) fn keep_workspace(&mut self, id: Uuid, name: &str, created_at: Timestamp)
        requires
            old(self)@.wf(),
        ensures
            final(self)@ == (StoreState {
                workspaces: with_workspace(old(self)@.workspaces, id, name@, created_at),
                ..old(self)@
            }),
            final(self)@.wf(),
    {
        proof {
            lemma_with_workspace_ok(self@, id, name@, created_at);
        }
        if self.workspace_row(id).is_none() {
            let row = WorkspaceRow {
                workspace: Workspace { id, name: name.to_owned(), created_at },
                next_sequence: 1,
            };
            proof {
                lemma_views_push(self.workspaces@, row);
            }
            self.workspaces.push(row);
        }
    }

    /// Makes sure that a participant is known.
    pub(crate) fn keep_participant(&mut self, offered: Participant, renewal: Renewal)
        requires
            old(self)@.wf(),
        ensures
            final(self)@ == (StoreState {
                participants: with_participant(old(self)@.participants, offered@, renewal),
                ..old(self)@
            }),
            final(self)@.wf(),
    {
        proof {
            lemma_with_participant_ok(self@.participants, offered@, renewal);
        }
        match self.participant_row(offered.id) {
            Some(index) => {
                let known = self.participants[index].clone();
                assert(self@.participants[index as int] == self.participants@[index as int]@);
                let row = match renewal {
                    Renewal::Keep => known,
                    Renewal::Rename => Participant {
                        id: known.id,
                        display_name: offered.display_name,
                        kind: known.kind,
                        created_at: known.created_at,
                    },
                    Renewal::Refresh => Participant {
                        id: known.id,
                        display_name: offered.display_name,
                        kind: offered.kind,
                        created_at: known.created_at,
                    },
                };
                proof {
                    lemma_views_update(self.participants@, index as int, row);
                }
                self.participants.set(index, row);
            },
            None => {
                proof {
                    lemma_views_push(self.participants@, offered);
                }
                self.participants.push(offered);
            },
        }
    }

    /// Makes sure that a participant belongs to a workspace.
    pub(crate) fn keep_member(&mut self, offered: WorkspaceMembership, refresh_role: bool)
        requires
            old(self)@.wf(),
        ensures
            final(self)@ == (StoreState {
                members: with_member(old(self)@.members, offered, refresh_role),
                ..old(self)@
            }),
            final(self)@.wf(),
    {
        proof {
            lemma_with_member_ok(self@.members, offered, refresh_role);
        }
        match self.member_row(offered.workspace_id, offered.participant_id) {
            Some(index) => {
                if refresh_role {
                    let mut row = self.members[index];
                    assert(self@.members[index as int] == row);
                    row.role = offered.role;
                    proof {
                        lemma_views_update(self.members@, index as int, row);
                    }
                    self.members.set(index, row);
                }
            },
            None => {
                proof {
                    lemma_views_push(self.members@, offered);
                }
                self.members.push(offered);
            },
        }
    }

    /// Creates or refreshes the workspace that one execution session runs in.
    /// Relaunching a session refreshes display names and roles without
    /// duplicating anything.
    pub fn ensure_execution_workspace(
        &mut self,
        workspace_id: Uuid,
        workspace_name: &str,
        human_participant_id: Uuid,
        human_display_name: &str,
        agent_participant_id: Uuid,
        agent_display_name: &str,
        now: Timestamp,
    )
        requires
            old(self)@.wf(),
        ensures
            final(self)@ == with_execution_workspace(
                old(self)@,
                workspace_id,
                workspace_name@,
                human_participant_id,
                human_display_name@,
                agent_participant_id,
                agent_display_name@,
                now,
            ),
            final(self)@.wf(),
    {
        self.keep_workspace(workspace_id, workspace_name, now);
        self.keep_participant(
            Participant {
                id: human_participant_id,
                display_name: human_display_name.to_owned(),
                kind: ParticipantKind::Human,
                created_at: now,
            },
            Renewal::Rename,
        );
        self.keep_participant(
            Participant {
                id: agent_participant_id,
                display_name: agent_display_name.to_owned(),
                kind: ParticipantKind::Agent,
                created_at: now,
            },
            Renewal::Rename,
        );
        self.keep_member(
            WorkspaceMembership {
                workspace_id,
                participant_id: human_participant_id,
                role: WorkspaceRole::Owner,
                joined_at: now,
            },
            true,
        );
        self.keep_member(
            WorkspaceMembership {
                workspace_id,
                participant_id: agent_participant_id,
                role: WorkspaceRole::Editor,
                joined_at: now,
            },
            true,
        );
    }

    /// The deterministic two-party workspace for a direct message.
    pub fn ensure_direct_workspace(
        &mut self,
        left_participant_id: Uuid,
        right_participant_id: Uuid,
        now: Timestamp,
    ) -> (res: Result<Uuid, WorkspaceError>)
        requires
            old(self)@.wf(),
        ensures
            match direct_refusal(old(self)@, left_participant_id, right_participant_id) {
                Some(error) => res == Err::<Uuid, WorkspaceError>(error) && final(self)@ == old(self)@,
                None => res == Ok::<Uuid, WorkspaceError>(
                    direct_workspace_id(left_participant_id, right_participant_id),
                ) && final(self)@ == with_direct_workspace(
                    old(self)@,
                    left_participant_id,
                    right_participant_id,
                    now,
                ),
            },
            final(self)@.wf(),
    {
        if left_participant_id == right_participant_id {
            return Err(WorkspaceError::DirectToSelf);
        }
        let (first, second) = if left_participant_id <= right_participant_id {
            (left_participant_id, right_participant_id)
        } else {
            (right_participant_id, left_participant_id)
        };
        if self.participant_row(first).is_none() {
            return Err(WorkspaceError::DirectParticipantUnknown { participant_id: first });
        }
        if self.participant_row(second).is_none() {
            return Err(WorkspaceError::DirectParticipantUnknown { participant_id: second });
        }
        let id = direct_workspace(first, second);
        self.keep_workspace(id, "Borg direct message", now);
        self.keep_member(
            WorkspaceMembership {
                workspace_id: id,
                participant_id: first,
                role: WorkspaceRole::Editor,
                joined_at: now,
            },
            false,
        );
        self.keep_member(
            WorkspaceMembership {
                workspace_id: id,
                participant_id: second,
                role: WorkspaceRole::Editor,
                joined_at: now,
            },
            false,
        );
        Ok(id)
    }

    /// Applies one authenticated relay roster projection. It caches membership
    /// that is held elsewhere, so the workspace must already exist here.
    pub fn upsert_relay_roster_entry(
        &mut self,
        workspace_id: Uuid,
        participant: Participant,
        role: WorkspaceRole,
        now: Timestamp,
    ) -> (res: Result<(), WorkspaceError>)
        requires
            old(self)@.wf(),
        ensures
            if !some_item(old(self)@.workspaces, workspace_is(workspace_id)) {
                res == Err::<(), WorkspaceError>(WorkspaceError::RelayWorkspaceMissing)
                    && final(self)@ == old(self)@
            } else {
                res == Ok::<(), WorkspaceError>(()) && final(self)@ == with_roster_entry(
                    old(self)@,
                    workspace_id,
                    participant@,
                    role,
                    now,
                )
            },
            final(self)@.wf(),
    {
        if self.workspace_row(workspace_id).is_none() {
            return Err(WorkspaceError::RelayWorkspaceMissing);
        }
        let participant_id: Uuid = participant.id;
        self.keep_participant(participant, Renewal::Refresh);
        self.keep_member(
            WorkspaceMembership { workspace_id, participant_id, role, joined_at: now },
            true,
        );
        Ok(())
    }

    /// A participant by identity.
    pub fn participant(&self, participant_id: Uuid) -> (res: Option<Participant>)
        ensures
            match position(self@.participants, participant_is(participant_id)) {
                Some(index) => option_view(res) == Some(self@.participants[index]),
                None => res is None,
            },
    {
        match self.participant_row(participant_id) {
            Some(index) => {
                assert(self@.participants[index as int] == self.participants@[index as int]@);
                Some(self.participants[index].clone())
            },
            None => None,
        }
    }

    /// The name of a workspace.
    pub fn workspace_name(&self, workspace_id: Uuid) -> (res: Option<String>)
        ensures
            match position(self@.workspaces, workspace_is(workspace_id)) {
                Some(index) => option_view(res) == Some(self@.workspaces[index].workspace.name),
                None => res is None,
            },
    {
        match self.workspace_row(workspace_id) {
            Some(index) => {
                assert(self@.workspaces[index as int] == self.workspaces@[index as int]@);
                Some(self.workspaces[index].workspace.name.clone())
            },
            None => None,
        }
    }

    /// The members of a workspace, by the time they joined. A roster is
    /// membership information, so only a member may read it.
    pub fn workspace_roster(&self, workspace_id: Uuid, viewer_id: Uuid) -> (res: Result<
        Vec<WorkspaceRosterEntry>,
        WorkspaceError,
    >)
        ensures
            match res {
                Ok(entries) => self@.has_member(workspace_id, viewer_id) && arranged::<
                    WorkspaceRosterEntry,
                >(views(entries@), roster_entries(self@, workspace_id)),
                Err(error) => error == WorkspaceError::ViewerNotMember && !self@.has_member(
                    workspace_id,
                    viewer_id,
                ),
            },
    {
        match self.require_member(workspace_id, viewer_id) {
            Err(error) => return Err(error),
            Ok(()) => {},
        }
        let test = |row: &WorkspaceMembership| -> (answer: bool)
            ensures
                answer == on_roster(self@.participants, workspace_id)(row@),
        {
            row.workspace_id == workspace_id && self.participant_row(row.participant_id).is_some()
        };
        let rows = select(
            &self.members,
            self.members.len(),
            test,
            Ghost(on_roster(self@.participants, workspace_id)),
        );
        let ghost kept = self@.members.filter(on_roster(self@.participants, workspace_id));
        proof {
            self@.members.lemma_filter_len(on_roster(self@.participants, workspace_id));
            assert(views(rows@) == kept);
            assert(views(rows@).len() == rows@.len());
        }
        let mut entries: Vec<WorkspaceRosterEntry> = Vec::new();
        let mut index: usize = 0;
        while index < rows.len()
            invariant
                index <= rows.len(),
                entries.len() == index,
                kept == self@.members.filter(on_roster(self@.participants, workspace_id)),
                views(rows@) == kept,
                kept.len() == rows@.len(),
                forall|i: int|
                    0 <= i < index ==> (#[trigger] entries@[i])@ == roster_entry(
                        self@.participants,
                        kept[i],
                    ),
            decreases rows.len() - index,
        {
            let row = rows[index];
            proof {
                assert(views(rows@)[index as int] == row);
                self@.members.lemma_filter_pred(
                    on_roster(self@.participants, workspace_id),
                    index as int,
                );
            }
            match self.participant_row(row.participant_id) {
                Some(at) => {
                    assert(self@.participants[at as int] == self.participants@[at as int]@);
                    entries.push(
                        WorkspaceRosterEntry {
                            participant: self.participants[at].clone(),
                            role: row.role,
                            joined_at: row.joined_at,
                        },
                    );
                },
                None => {
                    assert(false);
                },
            }
            index = index + 1;
        }
        assert(views(entries@) =~= roster_entries(self@, workspace_id));
        Ok(arrange(&entries))
    }

    /// The workspaces that a participant belongs to, by age.
    pub fn list_workspaces_for_participant(&self, participant_id: Uuid) -> (res: Vec<Workspace>)
        ensures
            arranged::<Workspace>(
                views(res@),
                self@.workspaces.filter(joined_by(self@.members, participant_id)).map_values(
                    |row: WorkspaceRowView| row.workspace,
                ),
            ),
    {
        let test = |row: &WorkspaceRow| -> (answer: bool)
            ensures
                answer == joined_by(self@.members, participant_id)(row@),
        { self.is_member(row.workspace.id, participant_id) };
        let rows = select(
            &self.workspaces,
            self.workspaces.len(),
            test,
            Ghost(joined_by(self@.members, participant_id)),
        );
        proof {
            self@.workspaces.lemma_filter_len(joined_by(self@.members, participant_id));
        }
        let mut found: Vec<Workspace> = Vec::new();
        let mut index: usize = 0;
        while index < rows.len()
            invariant
                index <= rows.len(),
                found.len() == index,
                forall|i: int| 0 <= i < index ==> (#[trigger] found@[i])@ == rows@[i]@.workspace,
            decreases rows.len() - index,
        {
            found.push(rows[index].workspace.clone());
            index = index + 1;
        }
        proof {
            let expected = self@.workspaces.filter(
                joined_by(self@.members, participant_id),
            ).map_values(|row: WorkspaceRowView| row.workspace);
            assert(views(rows@) == self@.workspaces.filter(
                joined_by(self@.members, participant_id),
            ));
            assert(views(found@) =~= expected) by {
                assert forall|i: int| 0 <= i < rows@.len() implies views(found@)[i]
                    == #[trigger] expected[i] by {
                    assert(views(rows@)[i] == rows@[i]@);
                }
            }
        }
        arrange(&found)
    }

    /// Highest session sequence already projected into this workspace, so that
    /// a restart replays only above the watermark.
    pub fn latest_projected_session_sequence(&self, workspace_id: Uuid, session_id: Uuid) -> (res:
        Result<u64, WorkspaceError>)
        ensures
            match res {
                Ok(latest) => {
                    &&& latest == 0 || projected_at(self@.events, workspace_id, session_id, latest)
                    &&& forall|sequence: u64|
                        projected_at(self@.events, workspace_id, session_id, sequence) ==> sequence
                            <= latest && sequence <= MAX_COLUMN
                },
                Err(error) => error == WorkspaceError::OutOfRange && exists|sequence: u64|
                    projected_at(self@.events, workspace_id, session_id, sequence) && sequence
                        > MAX_COLUMN,
            },
    {
        let mut latest: u64 = 0;
        let mut index: usize = 0;
        while index < self.events.len()
            invariant
                index <= self.events.len(),
                latest == 0 || projected_at(self@.events, workspace_id, session_id, latest),
                forall|i: int|
                    0 <= i < index && projects(workspace_id, session_id)(#[trigger] self@.events[i])
                        ==> session_sequence(self@.events[i]) <= latest && session_sequence(
                        self@.events[i],
                    ) <= MAX_COLUMN,
            decreases self.events.len() - index,
        {
            let event = &self.events[index];
            assert(self@.events[index as int] == event@);
            if event.workspace_id == workspace_id {
                if let WorkspaceEventKind::SessionEvent {
                    session_id: other,
                    session_sequence: sequence,
                    ..
                } = &event.kind {
                    if *other == session_id {
                        proof {
                            assert(projects(workspace_id, session_id)(self@.events[index as int]));
                            assert(projected_at(
                                self@.events,
                                workspace_id,
                                session_id,
                                *sequence,
                            ));
                        }
                        if *sequence > MAX_COLUMN {
                            return Err(WorkspaceError::OutOfRange);
                        }
                        if *sequence > latest {
                            latest = *sequence;
                        }
                    }
                }
            }
            index = index + 1;
        }
        Ok(latest)
    }
}

} // verus!
