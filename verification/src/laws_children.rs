//! Which children may be reserved, what they are launched with, and which tools they
//! are offered, said of what goes in and what comes out.

use crate::model::{
    lemma_filter_contains, lemma_filter_push, lemma_position, lemma_position_push, position,
};
use crate::outside::uuid_text;
use crate::parents::{cursor_of, marked_for, reports_for, shown_to};
use crate::session::{LaunchSessionView, SubagentSnapshotView, SubagentStatus, TeamPolicyView};
use crate::subagent::{
    alike, goes_by, lives, named_like, reserve_refusal, reserved, small,
    SubagentError,
};
use crate::time::Timestamp;
use crate::tools::{all_tools, for_children, offered, worker_effort, Tool, ToolSurface};
use crate::wait::{state_mark, TeamInboxMessageView, UnseenView, WaitCursorView};
use crate::workspace::Uuid;
use vstd::prelude::*;

verus! {

/// Whether two characters are one letter, written large or small, or the same.
pub open spec fn one_letter(left: char, right: char) -> bool {
    ||| left as u32 == right as u32
    ||| 65 <= left as u32 <= 90 && right as u32 == left as u32 + 32
    ||| 65 <= right as u32 <= 90 && left as u32 == right as u32 + 32
}

/// Whether two names are the same but for capitals.
pub open spec fn one_name(left: Seq<char>, right: Seq<char>) -> bool {
    left.len() == right.len() && forall|i: int|
        0 <= i < left.len() ==> one_letter(#[trigger] left[i], right[i])
}

/// Whether a child goes by the name of a task.
pub open spec fn carries(agent: SubagentSnapshotView, task: Seq<char>) -> bool {
    one_name(agent.task_name, "/root/"@ + task)
}

proof fn lemma_one_letter(left: char, right: char)
    requires
        one_letter(left, right),
    ensures
        small(left) == small(right),
{
}

proof fn lemma_one_name(left: Seq<char>, right: Seq<char>)
    ensures
        alike(left, right) == one_name(left, right),
{
    if alike(left, right) {
        assert forall|i: int| 0 <= i < left.len() implies one_letter(
            #[trigger] left[i],
            right[i],
        ) by {
            assert(small(left[i]) == small(right[i]));
        }
    }
    if one_name(left, right) {
        assert forall|i: int| 0 <= i < left.len() implies small(#[trigger] left[i]) == small(
            right[i],
        ) by {
            lemma_one_letter(left[i], right[i]);
        }
    }
}

/// A child is refused for its name exactly where another child goes by the name,
/// whatever the capitals of either, and whatever the limit is.
pub proof fn law_names_are_refused_where_they_are_taken(
    entries: Seq<SubagentSnapshotView>,
    max_children: usize,
    task: Seq<char>,
)
    ensures
        reserve_refusal(entries, max_children, task) == Some(SubagentError::NameTaken) <==> exists|
            i: int,
        |
            0 <= i < entries.len() && carries(#[trigger] entries[i], task),
        reserve_refusal(entries, max_children, task) != Some(SubagentError::Unknown),
{
    lemma_position(entries, named_like(task));
    assert forall|i: int| 0 <= i < entries.len() implies carries(#[trigger] entries[i], task)
        == named_like(task)(entries[i]) by {
        lemma_one_name(entries[i].task_name, "/root/"@ + task);
    }
    if exists|i: int| 0 <= i < entries.len() && carries(#[trigger] entries[i], task) {
        let i = choose|i: int| 0 <= i < entries.len() && carries(#[trigger] entries[i], task);
        assert(named_like(task)(entries[i]));
    }
}

/// The first child is reserved wherever one child may live at all.
pub proof fn law_the_first_child_is_reserved(max_children: usize, task: Seq<char>)
    ensures
        reserve_refusal(Seq::empty(), max_children, task) == if max_children == 0 {
            Some(SubagentError::LimitReached)
        } else {
            None
        },
{
    reveal(Seq::filter);
    lemma_position(Seq::<SubagentSnapshotView>::empty(), named_like(task));
}

/// A child with another name takes one place while it starts, runs or waits to be
/// allowed something, and none once it is ready, stopped or failed.
pub proof fn law_living_children_take_a_place(
    entries: Seq<SubagentSnapshotView>,
    agent: SubagentSnapshotView,
    max_children: usize,
    task: Seq<char>,
)
    requires
        !carries(agent, task),
    ensures
        match agent.status {
            SubagentStatus::Starting
            | SubagentStatus::Running
            | SubagentStatus::WaitingForApproval => max_children < usize::MAX ==> reserve_refusal(
                entries.push(agent),
                (max_children + 1) as usize,
                task,
            ) == reserve_refusal(entries, max_children, task),
            SubagentStatus::Ready | SubagentStatus::Stopped | SubagentStatus::Failed =>
                reserve_refusal(entries.push(agent), max_children, task) == reserve_refusal(
                    entries,
                    max_children,
                    task,
                ),
        },
{
    lemma_one_name(agent.task_name, "/root/"@ + task);
    lemma_position_push(entries, agent, named_like(task));
    lemma_filter_push(entries, agent, lives());
}

/// A reserved child starts under the session that it is given, belongs to the root
/// session, goes by its task's full name, is launched as its parent was, and has said
/// nothing yet.
pub proof fn law_reserved_children_are_like_their_parent(
    root: Uuid,
    task: Seq<char>,
    launch: LaunchSessionView,
    session_id: Uuid,
    now: Timestamp,
)
    ensures
        ({
            let child = reserved(root, task, launch, session_id, now);
            &&& child.session_id == session_id
            &&& child.parent_session_id == root
            &&& child.task_name == "/root/"@ + task
            &&& child.status == SubagentStatus::Starting
            &&& child.provider == launch.provider
            &&& child.model == launch.model
            &&& child.effort == launch.effort
            &&& child.cwd == launch.cwd
            &&& child.created_at == now
            &&& child.updated_at == now
            &&& child.detail is None
            &&& child.final_text is None
        }),
{
}

/// Whether a reference names a child: by its task, by its full name, or by its
/// session.
pub open spec fn refers_to(reference: Seq<char>, agent: SubagentSnapshotView) -> bool {
    ||| agent.task_name == "/root/"@ + reference
    ||| agent.task_name == reference
    ||| reference == "session:"@ + uuid_text(agent.session_id)
}

/// A reference names the first child that it refers to, and none where it refers to
/// none.
pub proof fn law_references_name_the_first_child(
    entries: Seq<SubagentSnapshotView>,
    reference: Seq<char>,
)
    ensures
        match position(entries, goes_by(reference)) {
            Some(index) => {
                &&& 0 <= index < entries.len()
                &&& refers_to(reference, entries[index])
                &&& forall|i: int| 0 <= i < index ==> !refers_to(reference, #[trigger] entries[i])
            },
            None => forall|i: int|
                0 <= i < entries.len() ==> !refers_to(reference, #[trigger] entries[i]),
        },
{
    lemma_position(entries, goes_by(reference));
    assert forall|i: int| 0 <= i < entries.len() implies refers_to(reference, #[trigger] entries[i])
        == goes_by(reference)(entries[i]) by {}
}

/// A parent that was never shown anything has been shown nothing.
pub proof fn law_new_parents_have_seen_nothing(
    cursors: Map<Uuid, WaitCursorView>,
    actor: Uuid,
    id: Uuid,
)
    ensures
        !cursors.contains_key(actor) ==> !cursor_of(cursors, actor).settled.contains_key(id)
            && !cursor_of(cursors, actor).messages.contains(id),
        cursors.contains_key(actor) ==> cursor_of(cursors, actor) == cursors[actor],
{
}

/// The root session is told what stands in the root inbox and, behind that, what woke
/// it; another parent is told what woke it and nothing from the root inbox.
pub proof fn law_the_inbox_is_for_the_root_session(
    inbox: Seq<TeamInboxMessageView>,
    woken: Seq<TeamInboxMessageView>,
)
    ensures
        reports_for(inbox, woken, false) == woken,
        reports_for(inbox, woken, true).len() == inbox.len() + woken.len(),
        forall|i: int|
            0 <= i < inbox.len() ==> #[trigger] reports_for(inbox, woken, true)[i] == inbox[i],
        forall|i: int|
            0 <= i < woken.len() ==> reports_for(inbox, woken, true)[inbox.len() + i]
                == #[trigger] woken[i],
{
}

/// Once a parent is shown reports, each of them counts as read by it, and what it
/// knew before it still knows.
pub proof fn law_shown_reports_are_read(
    cursors: Map<Uuid, WaitCursorView>,
    actor: Uuid,
    unseen: UnseenView,
    k: int,
    id: Uuid,
)
    requires
        0 <= k < unseen.messages.len(),
    ensures
        ({
            let after = cursor_of(shown_to(cursors, actor, unseen), actor);
            &&& after.messages.contains(unseen.messages[k].message_id)
            &&& cursor_of(cursors, actor).messages.contains(id) ==> after.messages.contains(id)
        }),
{
    let ids = unseen.messages.map_values(|message: TeamInboxMessageView| message.message_id);
    assert(ids[k] == unseen.messages[k].message_id);
    assert(ids.to_set().contains(unseen.messages[k].message_id));
}

/// A child's state is remembered for a parent where the child rests in it: ready with
/// a text, stopped, failed, or waiting to be allowed something. Of a child that is at
/// work, or that is ready and has said nothing, nothing is remembered.
pub proof fn law_states_at_rest_are_known(
    cursors: Map<Uuid, WaitCursorView>,
    actor: Uuid,
    agent: SubagentSnapshotView,
    id: Uuid,
)
    ensures
        ({
            let after = cursor_of(marked_for(cursors, actor, agent), actor);
            let before = cursor_of(cursors, actor);
            &&& after.messages == before.messages
            &&& id != agent.session_id ==> after.settled.contains_key(id)
                == before.settled.contains_key(id) && (before.settled.contains_key(id)
                ==> after.settled[id] == before.settled[id])
            &&& match agent.status {
                SubagentStatus::Starting | SubagentStatus::Running => after == before,
                SubagentStatus::Ready if agent.final_text is None => after == before,
                _ => after.settled.contains_key(agent.session_id)
                    && after.settled[agent.session_id] == state_mark(agent),
            }
        }),
{
}

/// A worker thinks as hard as was asked for, wherever something was asked for.
/// Otherwise its team's policy decides, and without a policy its parent's effort.
pub proof fn law_efforts_are_inherited(
    launch: LaunchSessionView,
    policy: TeamPolicyView,
    effort: Seq<char>,
)
    ensures
        worker_effort(launch, Some(effort)) == Some(effort),
        worker_effort(LaunchSessionView { team_policy: Some(policy), ..launch }, None) == Some(
            policy.worker_effort,
        ),
        worker_effort(LaunchSessionView { team_policy: None, ..launch }, None) == launch.effort,
{
}

/// A surface with everything on it offers every tool, and each of them once.
pub proof fn law_every_tool_can_be_offered(surface: ToolSurface, tool: Tool, i: int, j: int)
    ensures
        surface.subagents && surface.shared_work && surface.consultation && surface.computer_use
            && surface.settings && surface.watchers && surface.watcher_yield
            ==> all_tools().filter(offered(surface)).contains(tool),
        0 <= i < j < all_tools().len() ==> all_tools()[i] != all_tools()[j],
{
    lemma_filter_contains(all_tools(), offered(surface), tool);
    lemma_every_tool(tool);
    lemma_no_tool_twice(i, j);
}

/// Where a tool stands among all of them.
spec fn place(tool: Tool) -> int {
    match tool {
        Tool::ConsultModel => 0,
        Tool::GetGoal => 1,
        Tool::GetPlan => 2,
        Tool::UpdatePlan => 3,
        Tool::LspDiagnostics => 4,
        Tool::LspWorkspaceDiagnostics => 5,
        Tool::ListPlugins => 6,
        Tool::ReadPlugin => 7,
        Tool::GetAgentSettings => 8,
        Tool::UpdateAgentSettings => 9,
        Tool::CreatePlugin => 10,
        Tool::CreateExtension => 11,
        Tool::ListWorkflows => 12,
        Tool::RunWorkflow => 13,
        Tool::QueryHistory => 14,
        Tool::HistoryIndex => 15,
        Tool::ConsultPeer => 16,
        Tool::RotatePeer => 17,
        Tool::ComputerUse => 18,
        Tool::Watch => 19,
        Tool::ListWatchers => 20,
        Tool::AwaitWatchers => 21,
        Tool::StopWatcher => 22,
        Tool::CreateSharedWork => 23,
        Tool::ClaimSharedWork => 24,
        Tool::RequestWorkReview => 25,
        Tool::ListSharedWork => 26,
        Tool::SpawnAgent => 27,
        Tool::ListAgents => 28,
        Tool::ListWorkspaceParticipants => 29,
        Tool::ListInstances => 30,
        Tool::SendMessage => 31,
        Tool::FollowupTask => 32,
        Tool::BroadcastTeam => 33,
        Tool::ListUnreadTeamMessages => 34,
        Tool::AcknowledgeTeamMessage => 35,
        Tool::GetMessageStatus => 36,
        Tool::InterruptAgent => 37,
        Tool::WaitAgent => 38,
    }
}

proof fn lemma_every_tool(tool: Tool)
    ensures
        all_tools().contains(tool),
{
    assert(all_tools()[place(tool)] == tool);
}

proof fn lemma_no_tool_twice(i: int, j: int)
    ensures
        0 <= i < j < all_tools().len() ==> all_tools()[i] != all_tools()[j],
{
    if 0 <= i < j < all_tools().len() {
        assert(place(all_tools()[i]) == i);
        assert(place(all_tools()[j]) == j);
    }
}

/// What a session is not meant to do it has no tool for: without consultation no model
/// and no peer is asked, without the screen it is not driven, without settings none is
/// changed, without watchers nothing is watched, and without waiting on watchers none
/// is awaited. Without shared work and without children none of the tools for these is
/// there.
pub proof fn law_tools_need_what_they_are_for(surface: ToolSurface)
    ensures
        ({
            let tools = all_tools().filter(offered(surface));
            &&& !surface.consultation ==> !tools.contains(Tool::ConsultModel) && !tools.contains(
                Tool::ConsultPeer,
            ) && !tools.contains(Tool::RotatePeer)
            &&& !surface.computer_use ==> !tools.contains(Tool::ComputerUse)
            &&& !surface.settings ==> !tools.contains(Tool::UpdateAgentSettings)
            &&& !surface.watchers ==> !tools.contains(Tool::Watch) && !tools.contains(
                Tool::ListWatchers,
            ) && !tools.contains(Tool::StopWatcher) && !tools.contains(Tool::AwaitWatchers)
            &&& !surface.watcher_yield ==> !tools.contains(Tool::AwaitWatchers)
            &&& !surface.shared_work ==> !tools.contains(Tool::CreateSharedWork)
                && !tools.contains(Tool::ClaimSharedWork) && !tools.contains(
                Tool::RequestWorkReview,
            ) && !tools.contains(Tool::ListSharedWork)
            &&& !surface.subagents ==> !tools.contains(Tool::SpawnAgent) && !tools.contains(
                Tool::ListAgents,
            ) && !tools.contains(Tool::ListWorkspaceParticipants) && !tools.contains(
                Tool::ListInstances,
            ) && !tools.contains(Tool::SendMessage) && !tools.contains(Tool::FollowupTask)
                && !tools.contains(Tool::BroadcastTeam) && !tools.contains(
                Tool::ListUnreadTeamMessages,
            ) && !tools.contains(Tool::AcknowledgeTeamMessage) && !tools.contains(
                Tool::GetMessageStatus,
            ) && !tools.contains(Tool::InterruptAgent) && !tools.contains(Tool::WaitAgent)
        }),
{
    assert forall|tool: Tool| #[trigger]
        all_tools().filter(offered(surface)).contains(tool) implies offered(surface)(tool) by {
        lemma_filter_contains(all_tools(), offered(surface), tool);
    }
}

/// Two surfaces that agree on what a tool is for both offer it or both do not. So the
/// tools for children hang on whether there may be children and on nothing else, and
/// likewise shared work, consultation, the screen, settings and watchers; and the
/// remaining tools are offered on every surface.
pub proof fn law_tools_need_nothing_else(left: ToolSurface, right: ToolSurface, tool: Tool)
    ensures
        ({
            let one = all_tools().filter(offered(left)).contains(tool);
            let other = all_tools().filter(offered(right)).contains(tool);
            &&& all_tools().filter(for_children()).contains(tool) && left.subagents
                == right.subagents ==> one == other
            &&& (tool == Tool::CreateSharedWork || tool == Tool::ClaimSharedWork || tool
                == Tool::RequestWorkReview || tool == Tool::ListSharedWork) && left.shared_work
                == right.shared_work ==> one == other
            &&& (tool == Tool::ConsultModel || tool == Tool::ConsultPeer || tool
                == Tool::RotatePeer) && left.consultation == right.consultation ==> one == other
            &&& tool == Tool::ComputerUse && left.computer_use == right.computer_use ==> one
                == other
            &&& tool == Tool::UpdateAgentSettings && left.settings == right.settings ==> one
                == other
            &&& (tool == Tool::Watch || tool == Tool::ListWatchers || tool == Tool::StopWatcher)
                && left.watchers == right.watchers ==> one == other
            &&& tool == Tool::AwaitWatchers && left.watchers == right.watchers
                && left.watcher_yield == right.watcher_yield ==> one == other
            &&& (tool == Tool::GetGoal || tool == Tool::GetPlan || tool == Tool::UpdatePlan || tool
                == Tool::LspDiagnostics || tool == Tool::LspWorkspaceDiagnostics || tool
                == Tool::ListPlugins || tool == Tool::ReadPlugin || tool == Tool::GetAgentSettings
                || tool == Tool::CreatePlugin || tool == Tool::CreateExtension || tool
                == Tool::ListWorkflows || tool == Tool::RunWorkflow || tool == Tool::QueryHistory
                || tool == Tool::HistoryIndex) ==> one
        }),
{
    lemma_every_tool(tool);
    lemma_filter_contains(all_tools(), offered(left), tool);
    lemma_filter_contains(all_tools(), offered(right), tool);
    lemma_filter_contains(all_tools(), for_children(), tool);
}

/// The tools for children are those that start, list, address, ask, interrupt and
/// await other agents, and a child keeps every one of them that its director holds,
/// while it is left without what drives, watches or consults.
pub proof fn law_children_keep_the_tools_for_children(surface: ToolSurface, tool: Tool)
    ensures
        all_tools().filter(for_children()).contains(tool) <==> (tool == Tool::SpawnAgent || tool
            == Tool::ListAgents || tool == Tool::ListWorkspaceParticipants || tool
            == Tool::ListInstances || tool == Tool::SendMessage || tool == Tool::FollowupTask
            || tool == Tool::BroadcastTeam || tool == Tool::ListUnreadTeamMessages || tool
            == Tool::AcknowledgeTeamMessage || tool == Tool::GetMessageStatus || tool
            == Tool::InterruptAgent || tool == Tool::WaitAgent),
        all_tools().filter(for_children()).contains(tool) ==> all_tools().filter(
            offered(surface.of_child()),
        ).contains(tool) == all_tools().filter(offered(surface)).contains(tool),
        all_tools().filter(offered(ToolSurface::of_director())).contains(tool) <==> tool
            != Tool::AwaitWatchers,
        !all_tools().filter(offered(surface.of_child())).contains(Tool::Watch),
        !all_tools().filter(offered(surface.of_child())).contains(Tool::ComputerUse),
        !all_tools().filter(offered(surface.of_child())).contains(Tool::ConsultModel),
        !all_tools().filter(offered(surface.of_child())).contains(Tool::UpdateAgentSettings),
{
    lemma_every_tool(tool);
    lemma_filter_contains(all_tools(), for_children(), tool);
    lemma_filter_contains(all_tools(), offered(surface), tool);
    lemma_filter_contains(all_tools(), offered(surface.of_child()), tool);
    lemma_filter_contains(all_tools(), offered(ToolSurface::of_director()), tool);
    law_tools_need_what_they_are_for(surface.of_child());
}

} // verus!
