//! What the directory of people and workspaces holds after it was told something,
//! told row by row.

use crate::directory::{
    direct_refusal, direct_workspace_id, joined_by, lemma_with_member_ok,
    lemma_with_participant_ok, local_human_id, on_roster, projected_at, projects, roster_entries,
    roster_entry, with_direct_workspace, with_execution_workspace, with_member, with_participant,
    with_roster_entry, with_workspace, Renewal,
};
use crate::error::WorkspaceError;
use crate::facts::{belongs, exists_workspace, is_known, lemma_belongs, lemma_rows};
use crate::model::{arranged, lemma_filter_contains, lemma_position, position, rank_le, Ranked};
use crate::outside::{uuid_text, uuid_v5};
use crate::store::{
    member_is, members_ok, participant_is, participants_ok, StoreState, WorkspaceRowView,
};
use crate::text::trimmed;
use crate::time::Timestamp;
use crate::workspace::{
    AgentInstance, AgentInstanceView, ParticipantKind, ParticipantView, RecipientDelivery,
    RecipientDeliveryView, Uuid, Workspace, WorkspaceEventView, WorkspaceMembership, WorkspaceRole,
    WorkspaceRosterEntry, WorkspaceRosterEntryView, WorkspaceView,
};
use vstd::prelude::*;
use vstd::utf8::encode_utf8;

verus! {

/// A row says what is known of somebody once they were named. Who was known before
/// keeps the time they became known, and their name and kind unless these are
/// refreshed.
pub open spec fn is_participant_now(
    before: Seq<ParticipantView>,
    row: ParticipantView,
    offered: ParticipantView,
    renames: bool,
    retypes: bool,
) -> bool {
    &&& row.id == offered.id
    &&& if exists|k: int| 0 <= k < before.len() && (#[trigger] before[k]).id == offered.id {
        exists|k: int|
            0 <= k < before.len() && (#[trigger] before[k]).id == offered.id && row.created_at
                == before[k].created_at && row.display_name == (if renames {
                offered.display_name
            } else {
                before[k].display_name
            }) && row.kind == (if retypes {
                offered.kind
            } else {
                before[k].kind
            })
    } else {
        row.display_name == offered.display_name && row.kind == offered.kind && row.created_at
            == offered.created_at
    }
}

/// A row says how somebody belongs to a workspace once they were added. Who belonged
/// to it before keeps the time they joined, and their role unless it is refreshed.
pub open spec fn is_member_now(
    before: Seq<WorkspaceMembership>,
    row: WorkspaceMembership,
    offered: WorkspaceMembership,
    refreshes: bool,
) -> bool {
    &&& row.workspace_id == offered.workspace_id
    &&& row.participant_id == offered.participant_id
    &&& if exists|k: int|
        0 <= k < before.len() && (#[trigger] before[k]).workspace_id == offered.workspace_id
            && before[k].participant_id == offered.participant_id {
        exists|k: int|
            0 <= k < before.len() && (#[trigger] before[k]).workspace_id == offered.workspace_id
                && before[k].participant_id == offered.participant_id && row.joined_at
                == before[k].joined_at && row.role == (if refreshes {
                offered.role
            } else {
                before[k].role
            })
    } else {
        row.role == offered.role && row.joined_at == offered.joined_at
    }
}

/// Naming somebody decides what is known of them, and of nobody else.
pub proof fn lemma_participant_rows(
    rows: Seq<ParticipantView>,
    offered: ParticipantView,
    renewal: Renewal,
    row: ParticipantView,
)
    requires
        participants_ok(rows),
    ensures
        with_participant(rows, offered, renewal).contains(row) <==> if row.id == offered.id {
            is_participant_now(rows, row, offered, !(renewal is Keep), renewal is Refresh)
        } else {
            rows.contains(row)
        },
{
    let after = with_participant(rows, offered, renewal);
    let selected = participant_is(offered.id);
    lemma_position(rows, selected);
    let at = match position(rows, selected) {
        Some(at) => at,
        None => rows.len() as int,
    };
    assert(after.contains(after[at]));
    if position(rows, selected) is Some {
        assert(selected(rows[at]));
        assert forall|k: int| 0 <= k < rows.len() && (#[trigger] rows[k]).id
            == offered.id implies k == at by {
            if k < at {
                assert(rows[k].id != rows[at].id);
            } else if at < k {
                assert(rows[at].id != rows[k].id);
            }
        }
    } else {
        assert forall|k: int| 0 <= k < rows.len() implies (#[trigger] rows[k]).id
            != offered.id by {
            assert(!selected(rows[k]));
        }
    }
    if after.contains(row) {
        let i = choose|i: int| 0 <= i < after.len() && after[i] == row;
        if i != at {
            assert(rows[i] == row);
        }
    }
    if rows.contains(row) && row.id != offered.id {
        let i = choose|i: int| 0 <= i < rows.len() && rows[i] == row;
        assert(after[i] == row);
    }
    if is_participant_now(rows, row, offered, !(renewal is Keep), renewal is Refresh) {
        assert(row =~= after[at]);
    }
}

/// Adding somebody to a workspace decides how they belong to it, and nothing else.
pub proof fn lemma_member_rows(
    rows: Seq<WorkspaceMembership>,
    offered: WorkspaceMembership,
    refreshes: bool,
    row: WorkspaceMembership,
)
    requires
        members_ok(rows),
    ensures
        with_member(rows, offered, refreshes).contains(row) <==> if row.workspace_id
            == offered.workspace_id && row.participant_id == offered.participant_id {
            is_member_now(rows, row, offered, refreshes)
        } else {
            rows.contains(row)
        },
{
    let after = with_member(rows, offered, refreshes);
    let selected = member_is(offered.workspace_id, offered.participant_id);
    lemma_position(rows, selected);
    let at = match position(rows, selected) {
        Some(at) => at,
        None => rows.len() as int,
    };
    assert(after.contains(after[at]));
    if position(rows, selected) is Some {
        assert(selected(rows[at]));
        assert forall|k: int|
            0 <= k < rows.len() && (#[trigger] rows[k]).workspace_id == offered.workspace_id
                && rows[k].participant_id == offered.participant_id implies k == at by {
            if k < at {
                assert(!(rows[k].workspace_id == rows[at].workspace_id && rows[k].participant_id
                    == rows[at].participant_id));
            } else if at < k {
                assert(!(rows[at].workspace_id == rows[k].workspace_id && rows[at].participant_id
                    == rows[k].participant_id));
            }
        }
    } else {
        assert forall|k: int| 0 <= k < rows.len() implies !((#[trigger] rows[k]).workspace_id
            == offered.workspace_id && rows[k].participant_id == offered.participant_id) by {
            assert(!selected(rows[k]));
        }
    }
    if after.contains(row) {
        let i = choose|i: int| 0 <= i < after.len() && after[i] == row;
        if i != at {
            assert(rows[i] == row);
        }
    }
    if rows.contains(row) && !selected(row) {
        let i = choose|i: int| 0 <= i < rows.len() && rows[i] == row;
        assert(after[i] == row);
    }
    if is_member_now(rows, row, offered, refreshes) {
        assert(row == after[at]);
    }
}

/// Making sure of a workspace adds it where it was not there, and changes no other.
pub proof fn lemma_workspace_rows(
    state: StoreState,
    id: Uuid,
    name: Seq<char>,
    at: Timestamp,
)
    ensures
        ({
            let after = with_workspace(state.workspaces, id, name, at);
            if exists_workspace(state, id) {
                after == state.workspaces
            } else {
                &&& after.len() == state.workspaces.len() + 1
                &&& forall|i: int|
                    0 <= i < state.workspaces.len() ==> #[trigger] after[i] == state.workspaces[i]
                &&& after.last().workspace.id == id
                &&& after.last().workspace.name == name
                &&& after.last().workspace.created_at == at
                &&& after.last().next_sequence == 1
            }
        }),
{
    lemma_rows(state, id, id);
}

/// Whether two stores differ in people, workspaces and members at most.
pub open spec fn same_journal(before: StoreState, after: StoreState) -> bool {
    &&& after.threads == before.threads
    &&& after.events == before.events
    &&& after.deliveries == before.deliveries
    &&& after.work_items == before.work_items
    &&& after.claims == before.claims
    &&& after.dependencies == before.dependencies
    &&& after.leases == before.leases
    &&& after.instances == before.instances
}

/// Whether a store holds the workspaces of another, and one that was made sure of.
pub open spec fn has_made_sure_of(
    before: StoreState,
    after: StoreState,
    id: Uuid,
    name: Seq<char>,
    at: Timestamp,
) -> bool {
    if exists_workspace(before, id) {
        after.workspaces == before.workspaces
    } else {
        &&& after.workspaces.len() == before.workspaces.len() + 1
        &&& forall|i: int|
            0 <= i < before.workspaces.len() ==> #[trigger] after.workspaces[i]
                == before.workspaces[i]
        &&& after.workspaces.last().workspace.id == id
        &&& after.workspaces.last().workspace.name == name
        &&& after.workspaces.last().workspace.created_at == at
        &&& after.workspaces.last().next_sequence == 1
    }
}

/// Provisioning a session makes sure of its workspace, knows its human and its agent
/// by their current names, makes the human its owner and the agent its editor, and
/// changes nothing else. Who was known stays what they were and keeps their times.
pub proof fn law_provisioning_sets_a_session_up(
    state: StoreState,
    workspace_id: Uuid,
    workspace_name: Seq<char>,
    human_id: Uuid,
    human_name: Seq<char>,
    agent_id: Uuid,
    agent_name: Seq<char>,
    now: Timestamp,
)
    requires
        state.wf(),
        human_id != agent_id,
    ensures
        ({
            let after = with_execution_workspace(
                state,
                workspace_id,
                workspace_name,
                human_id,
                human_name,
                agent_id,
                agent_name,
                now,
            );
            &&& same_journal(state, after)
            &&& has_made_sure_of(state, after, workspace_id, workspace_name, now)
            &&& forall|row: ParticipantView| #[trigger]
                after.participants.contains(row) <==> if row.id == human_id {
                    is_participant_now(
                        state.participants,
                        row,
                        ParticipantView {
                            id: human_id,
                            display_name: human_name,
                            kind: ParticipantKind::Human,
                            created_at: now,
                        },
                        true,
                        false,
                    )
                } else if row.id == agent_id {
                    is_participant_now(
                        state.participants,
                        row,
                        ParticipantView {
                            id: agent_id,
                            display_name: agent_name,
                            kind: ParticipantKind::Agent,
                            created_at: now,
                        },
                        true,
                        false,
                    )
                } else {
                    state.participants.contains(row)
                }
            &&& forall|row: WorkspaceMembership| #[trigger]
                after.members.contains(row) <==> if row.workspace_id == workspace_id
                    && row.participant_id == human_id {
                    is_member_now(
                        state.members,
                        row,
                        WorkspaceMembership {
                            workspace_id,
                            participant_id: human_id,
                            role: WorkspaceRole::Owner,
                            joined_at: now,
                        },
                        true,
                    )
                } else if row.workspace_id == workspace_id && row.participant_id == agent_id {
                    is_member_now(
                        state.members,
                        row,
                        WorkspaceMembership {
                            workspace_id,
                            participant_id: agent_id,
                            role: WorkspaceRole::Editor,
                            joined_at: now,
                        },
                        true,
                    )
                } else {
                    state.members.contains(row)
                }
        }),
{
    lemma_workspace_rows(state, workspace_id, workspace_name, now);
    let human = ParticipantView {
        id: human_id,
        display_name: human_name,
        kind: ParticipantKind::Human,
        created_at: now,
    };
    let agent = ParticipantView {
        id: agent_id,
        display_name: agent_name,
        kind: ParticipantKind::Agent,
        created_at: now,
    };
    let owner = WorkspaceMembership {
        workspace_id,
        participant_id: human_id,
        role: WorkspaceRole::Owner,
        joined_at: now,
    };
    let editor = WorkspaceMembership {
        workspace_id,
        participant_id: agent_id,
        role: WorkspaceRole::Editor,
        joined_at: now,
    };
    let p0 = state.participants;
    let p1 = with_participant(p0, human, Renewal::Rename);
    let p2 = with_participant(p1, agent, Renewal::Rename);
    lemma_with_participant_ok(p0, human, Renewal::Rename);
    assert forall|row: ParticipantView| #[trigger] p2.contains(row) <==> if row.id == human_id {
        is_participant_now(p0, row, human, true, false)
    } else if row.id == agent_id {
        is_participant_now(p0, row, agent, true, false)
    } else {
        p0.contains(row)
    } by {
        lemma_participant_rows(p1, agent, Renewal::Rename, row);
        lemma_participant_rows(p0, human, Renewal::Rename, row);
        lemma_participant_now(p0, p1, human, agent, row);
    }
    let m0 = state.members;
    let m1 = with_member(m0, owner, true);
    let m2 = with_member(m1, editor, true);
    lemma_with_member_ok(m0, owner, true);
    assert forall|row: WorkspaceMembership| #[trigger] m2.contains(row) <==> if row.workspace_id
        == workspace_id && row.participant_id == human_id {
        is_member_now(m0, row, owner, true)
    } else if row.workspace_id == workspace_id && row.participant_id == agent_id {
        is_member_now(m0, row, editor, true)
    } else {
        m0.contains(row)
    } by {
        lemma_member_rows(m1, editor, true, row);
        lemma_member_rows(m0, owner, true, row);
        lemma_member_now(m0, m1, owner, editor, true, row);
    }
}

/// What somebody else is named does not matter for one participant.
proof fn lemma_participant_now(
    before: Seq<ParticipantView>,
    middle: Seq<ParticipantView>,
    first: ParticipantView,
    second: ParticipantView,
    row: ParticipantView,
)
    requires
        participants_ok(before),
        first.id != second.id,
        middle == with_participant(before, first, Renewal::Rename),
    ensures
        is_participant_now(middle, row, second, true, false) <==> is_participant_now(
            before,
            row,
            second,
            true,
            false,
        ),
{
    lemma_position(before, participant_is(first.id));
    let id = second.id;
    assert forall|k: int| 0 <= k < before.len() && (#[trigger] before[k]).id
        == id implies middle[k] == before[k] by {}
    assert forall|k: int| 0 <= k < middle.len() && (#[trigger] middle[k]).id == id implies k
        < before.len() && middle[k] == before[k] by {}
    if exists|k: int| 0 <= k < before.len() && (#[trigger] before[k]).id == id {
        let k = choose|k: int| 0 <= k < before.len() && (#[trigger] before[k]).id == id;
        assert(middle[k].id == id);
    }
    if exists|k: int| 0 <= k < middle.len() && (#[trigger] middle[k]).id == id {
        let k = choose|k: int| 0 <= k < middle.len() && (#[trigger] middle[k]).id == id;
        assert(before[k].id == id);
    }
    if is_participant_now(before, row, second, true, false) && exists|k: int|
        0 <= k < before.len() && (#[trigger] before[k]).id == id {
        let k = choose|k: int|
            0 <= k < before.len() && (#[trigger] before[k]).id == id && row.created_at
                == before[k].created_at && row.display_name == second.display_name && row.kind
                == before[k].kind;
        assert(middle[k].id == id);
    }
    if is_participant_now(middle, row, second, true, false) && exists|k: int|
        0 <= k < middle.len() && (#[trigger] middle[k]).id == id {
        let k = choose|k: int|
            0 <= k < middle.len() && (#[trigger] middle[k]).id == id && row.created_at
                == middle[k].created_at && row.display_name == second.display_name && row.kind
                == middle[k].kind;
        assert(before[k].id == id);
    }
}

/// Who else is added does not matter for one member.
pub proof fn lemma_member_now(
    before: Seq<WorkspaceMembership>,
    middle: Seq<WorkspaceMembership>,
    first: WorkspaceMembership,
    second: WorkspaceMembership,
    refreshes: bool,
    row: WorkspaceMembership,
)
    requires
        members_ok(before),
        first.participant_id != second.participant_id,
        middle == with_member(before, first, refreshes),
    ensures
        is_member_now(middle, row, second, refreshes) <==> is_member_now(
            before,
            row,
            second,
            refreshes,
        ),
{
    lemma_position(before, member_is(first.workspace_id, first.participant_id));
    let home = second.workspace_id;
    let id = second.participant_id;
    assert forall|k: int|
        0 <= k < before.len() && (#[trigger] before[k]).workspace_id == home
            && before[k].participant_id == id implies middle[k] == before[k] by {}
    assert forall|k: int|
        0 <= k < middle.len() && (#[trigger] middle[k]).workspace_id == home
            && middle[k].participant_id == id implies k < before.len() && middle[k]
        == before[k] by {}
    if exists|k: int|
        0 <= k < before.len() && (#[trigger] before[k]).workspace_id == home
            && before[k].participant_id == id {
        let k = choose|k: int|
            0 <= k < before.len() && (#[trigger] before[k]).workspace_id == home
                && before[k].participant_id == id;
        assert(middle[k].participant_id == id);
        if is_member_now(before, row, second, refreshes) {
            let j = choose|j: int|
                0 <= j < before.len() && (#[trigger] before[j]).workspace_id == home
                    && before[j].participant_id == id && row.joined_at == before[j].joined_at
                    && row.role == (if refreshes {
                    second.role
                } else {
                    before[j].role
                });
            assert(middle[j].participant_id == id);
        }
    }
    if exists|k: int|
        0 <= k < middle.len() && (#[trigger] middle[k]).workspace_id == home
            && middle[k].participant_id == id {
        let k = choose|k: int|
            0 <= k < middle.len() && (#[trigger] middle[k]).workspace_id == home
                && middle[k].participant_id == id;
        assert(before[k].participant_id == id);
        if is_member_now(middle, row, second, refreshes) {
            let j = choose|j: int|
                0 <= j < middle.len() && (#[trigger] middle[j]).workspace_id == home
                    && middle[j].participant_id == id && row.joined_at == middle[j].joined_at
                    && row.role == (if refreshes {
                    second.role
                } else {
                    middle[j].role
                });
            assert(before[j].participant_id == id);
        }
    }
}

/// Two people get a direct workspace unless they are one and the same, or one of them
/// is not known; of two who are not known, the smaller identity is told.
pub proof fn law_direct_workspaces_are_for_two_known_people(
    state: StoreState,
    left: Uuid,
    right: Uuid,
    id: Uuid,
)
    ensures
        direct_refusal(state, left, right) is None <==> left != right && is_known(state, left)
            && is_known(state, right),
        direct_refusal(state, left, right) == Some(WorkspaceError::DirectToSelf) <==> left == right,
        direct_refusal(state, left, right) == Some(
            WorkspaceError::DirectParticipantUnknown { participant_id: id },
        ) <==> left != right && (id == left || id == right) && !is_known(state, id) && (!is_known(
            state,
            left,
        ) && !is_known(state, right) ==> id <= left && id <= right),
{
    lemma_rows(state, left, left);
    lemma_rows(state, right, right);
}

/// A direct workspace is the pair's own: both belong to it as editors, unless they
/// belonged to it before, it has the name that such workspaces have, and nothing else
/// changes.
pub proof fn law_direct_workspaces_hold_the_pair(
    state: StoreState,
    left: Uuid,
    right: Uuid,
    now: Timestamp,
)
    requires
        state.wf(),
        left != right,
    ensures
        ({
            let id = direct_workspace_id(left, right);
            let after = with_direct_workspace(state, left, right, now);
            &&& same_journal(state, after)
            &&& after.participants == state.participants
            &&& has_made_sure_of(state, after, id, "Borg direct message"@, now)
            &&& forall|row: WorkspaceMembership| #[trigger]
                after.members.contains(row) <==> if row.workspace_id == id && (row.participant_id
                    == left || row.participant_id == right) {
                    is_member_now(
                        state.members,
                        row,
                        WorkspaceMembership {
                            workspace_id: id,
                            participant_id: row.participant_id,
                            role: WorkspaceRole::Editor,
                            joined_at: now,
                        },
                        false,
                    )
                } else {
                    state.members.contains(row)
                }
        }),
{
    let id = direct_workspace_id(left, right);
    lemma_workspace_rows(state, id, "Borg direct message"@, now);
    let of = |participant_id: Uuid|
        WorkspaceMembership {
            workspace_id: id,
            participant_id,
            role: WorkspaceRole::Editor,
            joined_at: now,
        };
    let first = if left <= right { left } else { right };
    let second = if left <= right { right } else { left };
    let m0 = state.members;
    let m1 = with_member(m0, of(first), false);
    let m2 = with_member(m1, of(second), false);
    assert(with_direct_workspace(state, left, right, now).members == m2);
    lemma_with_member_ok(m0, of(first), false);
    assert forall|row: WorkspaceMembership| #[trigger] m2.contains(row) <==> if row.workspace_id
        == id && (row.participant_id == left || row.participant_id == right) {
        is_member_now(m0, row, of(row.participant_id), false)
    } else {
        m0.contains(row)
    } by {
        lemma_member_rows(m1, of(second), false, row);
        lemma_member_rows(m0, of(first), false, row);
        lemma_member_now(m0, m1, of(first), of(second), false, row);
    }
}

/// The direct workspace of two people is named after both, the smaller identity
/// first, and a local human after their trimmed name.
pub proof fn law_derived_identities_are_named(left: Uuid, right: Uuid, name: Seq<char>)
    ensures
        left <= right ==> direct_workspace_id(left, right) == uuid_v5(
            0x6ba7b811_9dad_11d1_80b4_00c04fd430c8,
            encode_utf8("borg://local-direct/"@ + uuid_text(left) + "/"@ + uuid_text(right)),
        ),
        direct_workspace_id(left, right) == direct_workspace_id(right, left),
        local_human_id(name) == uuid_v5(
            0x6ba7b811_9dad_11d1_80b4_00c04fd430c8,
            encode_utf8("borg://local-human/"@ + trimmed(name)),
        ),
{
}

/// A roster entry that a relay projects is what is known of its participant
/// afterwards, name and kind, and the participant belongs to the workspace in the
/// role that was told. Times stay, and nothing else changes.
pub proof fn law_roster_projections_are_taken_over(
    state: StoreState,
    workspace_id: Uuid,
    participant: ParticipantView,
    role: WorkspaceRole,
    now: Timestamp,
)
    requires
        state.wf(),
    ensures
        ({
            let after = with_roster_entry(state, workspace_id, participant, role, now);
            &&& same_journal(state, after)
            &&& after.workspaces == state.workspaces
            &&& forall|row: ParticipantView| #[trigger]
                after.participants.contains(row) <==> if row.id == participant.id {
                    is_participant_now(state.participants, row, participant, true, true)
                } else {
                    state.participants.contains(row)
                }
            &&& forall|row: WorkspaceMembership| #[trigger]
                after.members.contains(row) <==> if row.workspace_id == workspace_id
                    && row.participant_id == participant.id {
                    is_member_now(
                        state.members,
                        row,
                        WorkspaceMembership {
                            workspace_id,
                            participant_id: participant.id,
                            role,
                            joined_at: now,
                        },
                        true,
                    )
                } else {
                    state.members.contains(row)
                }
        }),
{
    let offered = WorkspaceMembership {
        workspace_id,
        participant_id: participant.id,
        role,
        joined_at: now,
    };
    let after = with_roster_entry(state, workspace_id, participant, role, now);
    assert forall|row: ParticipantView| #[trigger] after.participants.contains(row) <==> if row.id
        == participant.id {
        is_participant_now(state.participants, row, participant, true, true)
    } else {
        state.participants.contains(row)
    } by {
        lemma_participant_rows(state.participants, participant, Renewal::Refresh, row);
    }
    assert forall|row: WorkspaceMembership| #[trigger] after.members.contains(row) <==> if row.workspace_id
        == workspace_id && row.participant_id == participant.id {
        is_member_now(state.members, row, offered, true)
    } else {
        state.members.contains(row)
    } by {
        lemma_member_rows(state.members, offered, true, row);
    }
}

/// One instant is not later than another.
pub open spec fn not_later(left: Timestamp, right: Timestamp) -> bool {
    left.secs < right.secs || left.secs == right.secs && left.nanos <= right.nanos
}

/// A listing holds what it lists, each as often as it is there.
pub proof fn lemma_arranged<T: Ranked>(items: Seq<T::V>, source: Seq<T::V>)
    requires
        arranged::<T>(items, source),
    ensures
        items.len() == source.len(),
        forall|item: T::V| #[trigger] items.contains(item) <==> source.contains(item),
        forall|i: int, j: int|
            0 <= i < j < items.len() ==> {
                let left = T::rank(#[trigger] items[i]);
                let right = T::rank(#[trigger] items[j]);
                not_later(left.0, right.0) && (left.0 == right.0 ==> left.1 <= right.1)
            },
{
    broadcast use vstd::seq_lib::group_to_multiset_ensures;

    assert(items.len() == items.to_multiset().len());
    assert(source.len() == source.to_multiset().len());
    assert forall|item: T::V| #[trigger] items.contains(item) <==> source.contains(item) by {
        assert(items.contains(item) <==> items.to_multiset().count(item) > 0);
        assert(source.contains(item) <==> source.to_multiset().count(item) > 0);
    }
    assert forall|i: int, j: int| 0 <= i < j < items.len() implies {
        let left = T::rank(#[trigger] items[i]);
        let right = T::rank(#[trigger] items[j]);
        not_later(left.0, right.0) && (left.0 == right.0 ==> left.1 <= right.1)
    } by {
        assert(rank_le(T::rank(items[i]), T::rank(items[j])));
    }
}

/// A roster shows exactly who belongs to a workspace and is known: each with what is
/// known of them, their role and the time they joined. Who joined earlier comes
/// first, and of those who joined at once the smaller identity.
pub proof fn law_rosters_show_who_belongs(
    state: StoreState,
    workspace_id: Uuid,
    entries: Seq<WorkspaceRosterEntryView>,
    entry: WorkspaceRosterEntryView,
)
    requires
        state.wf(),
        arranged::<WorkspaceRosterEntry>(entries, roster_entries(state, workspace_id)),
    ensures
        entries.contains(entry) <==> state.participants.contains(entry.participant)
            && state.members.contains(
            WorkspaceMembership {
                workspace_id,
                participant_id: entry.participant.id,
                role: entry.role,
                joined_at: entry.joined_at,
            },
        ),
        forall|i: int, j: int|
            0 <= i < j < entries.len() ==> not_later(
                (#[trigger] entries[i]).joined_at,
                (#[trigger] entries[j]).joined_at,
            ) && (entries[i].joined_at == entries[j].joined_at ==> entries[i].participant.id
                <= entries[j].participant.id),
{
    lemma_arranged::<WorkspaceRosterEntry>(entries, roster_entries(state, workspace_id));
    let people = state.participants;
    let listed = on_roster(people, workspace_id);
    let kept = state.members.filter(listed);
    let source = roster_entries(state, workspace_id);
    let row = WorkspaceMembership {
        workspace_id,
        participant_id: entry.participant.id,
        role: entry.role,
        joined_at: entry.joined_at,
    };
    if source.contains(entry) {
        let i = choose|i: int| 0 <= i < source.len() && source[i] == entry;
        assert(source[i] == roster_entry(people, kept[i]));
        assert(kept.contains(kept[i]));
        lemma_filter_contains(state.members, listed, kept[i]);
        lemma_position(people, participant_is(kept[i].participant_id));
        assert(kept[i] == row);
    }
    if people.contains(entry.participant) && state.members.contains(row) {
        let j = choose|j: int| 0 <= j < people.len() && people[j] == entry.participant;
        let own = participant_is(row.participant_id);
        lemma_position(people, own);
        assert(own(people[j]));
        let at = position(people, own)->Some_0;
        if at < j {
            assert(people[at].id != people[j].id);
        }
        assert(at == j);
        lemma_filter_contains(state.members, listed, row);
        let i = choose|i: int| 0 <= i < kept.len() && kept[i] == row;
        assert(source[i] == roster_entry(people, kept[i]));
        assert(source[i] =~= entry);
    }
}

/// Somebody's workspaces are exactly those that they belong to, the oldest first,
/// and of those made at once the smaller identity.
pub proof fn law_workspaces_are_listed_for_their_members(
    state: StoreState,
    participant_id: Uuid,
    found: Seq<WorkspaceView>,
    workspace: WorkspaceView,
)
    requires
        arranged::<Workspace>(
            found,
            state.workspaces.filter(joined_by(state.members, participant_id)).map_values(
                |row: WorkspaceRowView| row.workspace,
            ),
        ),
    ensures
        found.contains(workspace) <==> belongs(state, workspace.id, participant_id) && exists|
            i: int,
        |
            0 <= i < state.workspaces.len() && (#[trigger] state.workspaces[i]).workspace
                == workspace,
        forall|i: int, j: int|
            0 <= i < j < found.len() ==> not_later(
                (#[trigger] found[i]).created_at,
                (#[trigger] found[j]).created_at,
            ) && (found[i].created_at == found[j].created_at ==> found[i].id <= found[j].id),
{
    let joined = joined_by(state.members, participant_id);
    let kept = state.workspaces.filter(joined);
    let source = kept.map_values(|row: WorkspaceRowView| row.workspace);
    lemma_arranged::<Workspace>(found, source);
    lemma_belongs(state, workspace.id, participant_id);
    if source.contains(workspace) {
        let i = choose|i: int| 0 <= i < source.len() && source[i] == workspace;
        assert(kept[i].workspace == workspace);
        assert(kept.contains(kept[i]));
        lemma_filter_contains(state.workspaces, joined, kept[i]);
        let k = choose|k: int| 0 <= k < state.workspaces.len() && state.workspaces[k] == kept[i];
        assert(state.workspaces[k].workspace == workspace);
    }
    if belongs(state, workspace.id, participant_id) && exists|i: int|
        0 <= i < state.workspaces.len() && (#[trigger] state.workspaces[i]).workspace == workspace {
        let k = choose|k: int|
            0 <= k < state.workspaces.len() && (#[trigger] state.workspaces[k]).workspace
                == workspace;
        assert(state.workspaces.contains(state.workspaces[k]));
        lemma_filter_contains(state.workspaces, joined, state.workspaces[k]);
        let i = choose|i: int| 0 <= i < kept.len() && kept[i] == state.workspaces[k];
        assert(source[i] == workspace);
    }
}

/// Instances are listed by the age of their participants, and the deliveries of a
/// message by recipient.
pub proof fn law_listings_are_in_order(
    instances: Seq<AgentInstanceView>,
    agents: Seq<AgentInstanceView>,
    deliveries: Seq<RecipientDeliveryView>,
    sent: Seq<RecipientDeliveryView>,
    i: int,
    j: int,
)
    requires
        arranged::<AgentInstance>(instances, agents),
        arranged::<RecipientDelivery>(deliveries, sent),
        0 <= i < j,
    ensures
        j < instances.len() ==> not_later(
            instances[i].participant.created_at,
            instances[j].participant.created_at,
        ) && (instances[i].participant.created_at == instances[j].participant.created_at
            ==> instances[i].participant.id <= instances[j].participant.id),
        j < deliveries.len() ==> deliveries[i].recipient_id <= deliveries[j].recipient_id,
        forall|agent: AgentInstanceView| #[trigger]
            instances.contains(agent) <==> agents.contains(agent),
        forall|row: RecipientDeliveryView| #[trigger]
            deliveries.contains(row) <==> sent.contains(row),
        instances.len() == agents.len(),
        deliveries.len() == sent.len(),
{
    lemma_arranged::<AgentInstance>(instances, agents);
    lemma_arranged::<RecipientDelivery>(deliveries, sent);
}

/// A sequence of a session counts as projected exactly where some event of the
/// workspace is that event of the session.
pub proof fn law_watermarks_are_of_projected_events(
    events: Seq<WorkspaceEventView>,
    workspace_id: Uuid,
    session_id: Uuid,
    sequence: u64,
)
    ensures
        projected_at(events, workspace_id, session_id, sequence) <==> exists|i: int|
            0 <= i < events.len() && (#[trigger] events[i]).workspace_id == workspace_id
                && events[i].kind is SessionEvent && events[i].kind->SessionEvent_session_id
                == session_id && events[i].kind->SessionEvent_session_sequence == sequence,
{
    if exists|i: int|
        0 <= i < events.len() && (#[trigger] events[i]).workspace_id == workspace_id
            && events[i].kind is SessionEvent && events[i].kind->SessionEvent_session_id
            == session_id && events[i].kind->SessionEvent_session_sequence == sequence {
        let i = choose|i: int|
            0 <= i < events.len() && (#[trigger] events[i]).workspace_id == workspace_id
                && events[i].kind is SessionEvent && events[i].kind->SessionEvent_session_id
                == session_id && events[i].kind->SessionEvent_session_sequence == sequence;
        assert(projects(workspace_id, session_id)(events[i]));
    }
}

} // verus!
