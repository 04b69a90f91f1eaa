//! Which tools a session is offered.

use crate::model::{lemma_filter_congruent, lemma_filter_step, option_view};
use crate::session::{CodingProvider, LaunchSession, LaunchSessionView, TeamPolicy};
use crate::workspace::Uuid;
use vstd::prelude::*;

verus! {

/// A tool of the control plane.
#[derive(Debug, Clone, Copy, PartialEq, Eq, Structural)]
pub enum Tool {
    ConsultModel,
    GetGoal,
    GetPlan,
    UpdatePlan,
    LspDiagnostics,
    LspWorkspaceDiagnostics,
    ListPlugins,
    ReadPlugin,
    GetAgentSettings,
    UpdateAgentSettings,
    CreatePlugin,
    CreateExtension,
    ListWorkflows,
    RunWorkflow,
    QueryHistory,
    HistoryIndex,
    ConsultPeer,
    RotatePeer,
    ComputerUse,
    Watch,
    ListWatchers,
    AwaitWatchers,
    StopWatcher,
    CreateSharedWork,
    ClaimSharedWork,
    RequestWorkReview,
    ListSharedWork,
    SpawnAgent,
    ListAgents,
    ListWorkspaceParticipants,
    ListInstances,
    SendMessage,
    FollowupTask,
    BroadcastTeam,
    ListUnreadTeamMessages,
    AcknowledgeTeamMessage,
    GetMessageStatus,
    InterruptAgent,
    WaitAgent,
}

/// What a session is offered besides what every session is.
#[derive(Debug, Clone, Copy, PartialEq, Eq, Structural)]
pub struct ToolSurface {
    /// Running and talking to children.
    pub subagents: bool,
    /// Work that a team shares.
    pub shared_work: bool,
    /// Asking other models and peers.
    pub consultation: bool,
    /// Driving the machine's screen.
    pub computer_use: bool,
    /// Changing the settings of agents.
    pub settings: bool,
    /// Watching commands and children.
    pub watchers: bool,
    /// Waiting on watchers.
    pub watcher_yield: bool,
}

impl Tool {
    /// What a tool is called.
    pub open spec fn text(self) -> Seq<char> {
        match self {
            Tool::ConsultModel => "consult_model"@,
            Tool::GetGoal => "get_goal"@,
            Tool::GetPlan => "get_plan"@,
            Tool::UpdatePlan => "update_plan"@,
            Tool::LspDiagnostics => "lsp_diagnostics"@,
            Tool::LspWorkspaceDiagnostics => "lsp_workspace_diagnostics"@,
            Tool::ListPlugins => "list_plugins"@,
            Tool::ReadPlugin => "read_plugin"@,
            Tool::GetAgentSettings => "get_agent_settings"@,
            Tool::UpdateAgentSettings => "update_agent_settings"@,
            Tool::CreatePlugin => "create_plugin"@,
            Tool::CreateExtension => "create_extension"@,
            Tool::ListWorkflows => "list_workflows"@,
            Tool::RunWorkflow => "run_workflow"@,
            Tool::QueryHistory => "query_history"@,
            Tool::HistoryIndex => "history_index"@,
            Tool::ConsultPeer => "consult_peer"@,
            Tool::RotatePeer => "rotate_peer"@,
            Tool::ComputerUse => "computer_use"@,
            Tool::Watch => "watch"@,
            Tool::ListWatchers => "list_watchers"@,
            Tool::AwaitWatchers => "await_watchers"@,
            Tool::StopWatcher => "stop_watcher"@,
            Tool::CreateSharedWork => "create_shared_work"@,
            Tool::ClaimSharedWork => "claim_shared_work"@,
            Tool::RequestWorkReview => "request_work_review"@,
            Tool::ListSharedWork => "list_shared_work"@,
            Tool::SpawnAgent => "spawn_agent"@,
            Tool::ListAgents => "list_agents"@,
            Tool::ListWorkspaceParticipants => "list_workspace_participants"@,
            Tool::ListInstances => "list_instances"@,
            Tool::SendMessage => "send_message"@,
            Tool::FollowupTask => "followup_task"@,
            Tool::BroadcastTeam => "broadcast_team"@,
            Tool::ListUnreadTeamMessages => "list_unread_team_messages"@,
            Tool::AcknowledgeTeamMessage => "acknowledge_team_message"@,
            Tool::GetMessageStatus => "get_message_status"@,
            Tool::InterruptAgent => "interrupt_agent"@,
            Tool::WaitAgent => "wait_agent"@,
        }
    }

    /// What a tool is called.
    pub fn name(&self) -> (res: &'static str)
        ensures
            res@ == self.text(),
    {
        match self {
            Tool::ConsultModel => "consult_model",
            Tool::GetGoal => "get_goal",
            Tool::GetPlan => "get_plan",
            Tool::UpdatePlan => "update_plan",
            Tool::LspDiagnostics => "lsp_diagnostics",
            Tool::LspWorkspaceDiagnostics => "lsp_workspace_diagnostics",
            Tool::ListPlugins => "list_plugins",
            Tool::ReadPlugin => "read_plugin",
            Tool::GetAgentSettings => "get_agent_settings",
            Tool::UpdateAgentSettings => "update_agent_settings",
            Tool::CreatePlugin => "create_plugin",
            Tool::CreateExtension => "create_extension",
            Tool::ListWorkflows => "list_workflows",
            Tool::RunWorkflow => "run_workflow",
            Tool::QueryHistory => "query_history",
            Tool::HistoryIndex => "history_index",
            Tool::ConsultPeer => "consult_peer",
            Tool::RotatePeer => "rotate_peer",
            Tool::ComputerUse => "computer_use",
            Tool::Watch => "watch",
            Tool::ListWatchers => "list_watchers",
            Tool::AwaitWatchers => "await_watchers",
            Tool::StopWatcher => "stop_watcher",
            Tool::CreateSharedWork => "create_shared_work",
            Tool::ClaimSharedWork => "claim_shared_work",
            Tool::RequestWorkReview => "request_work_review",
            Tool::ListSharedWork => "list_shared_work",
            Tool::SpawnAgent => "spawn_agent",
            Tool::ListAgents => "list_agents",
            Tool::ListWorkspaceParticipants => "list_workspace_participants",
            Tool::ListInstances => "list_instances",
            Tool::SendMessage => "send_message",
            Tool::FollowupTask => "followup_task",
            Tool::BroadcastTeam => "broadcast_team",
            Tool::ListUnreadTeamMessages => "list_unread_team_messages",
            Tool::AcknowledgeTeamMessage => "acknowledge_team_message",
            Tool::GetMessageStatus => "get_message_status",
            Tool::InterruptAgent => "interrupt_agent",
            Tool::WaitAgent => "wait_agent",
        }
    }

    /// Whether a tool is for running and talking to children.
    pub open spec fn is_subagent(self) -> bool {
        match self {
            Tool::SpawnAgent
            | Tool::ListAgents
            | Tool::ListWorkspaceParticipants
            | Tool::ListInstances
            | Tool::SendMessage
            | Tool::FollowupTask
            | Tool::BroadcastTeam
            | Tool::ListUnreadTeamMessages
            | Tool::AcknowledgeTeamMessage
            | Tool::GetMessageStatus
            | Tool::InterruptAgent
            | Tool::WaitAgent => true,
            _ => false,
        }
    }

    /// Whether a tool is for work that a team shares.
    pub open spec fn is_shared_work(self) -> bool {
        match self {
            Tool::CreateSharedWork
            | Tool::ClaimSharedWork
            | Tool::RequestWorkReview
            | Tool::ListSharedWork => true,
            _ => false,
        }
    }

    /// Whether only a director holds a tool.
    pub open spec fn is_director_only(self) -> bool {
        match self {
            Tool::ConsultModel
            | Tool::ConsultPeer
            | Tool::RotatePeer
            | Tool::ComputerUse
            | Tool::UpdateAgentSettings
            | Tool::Watch
            | Tool::ListWatchers
            | Tool::AwaitWatchers
            | Tool::StopWatcher => true,
            _ => false,
        }
    }
}

/// Selects the tools that a surface offers.
pub open spec fn offered(surface: ToolSurface) -> spec_fn(Tool) -> bool {
    |tool: Tool|
        match tool {
            Tool::ConsultModel | Tool::ConsultPeer | Tool::RotatePeer => surface.consultation,
            Tool::ComputerUse => surface.computer_use,
            Tool::UpdateAgentSettings => surface.settings,
            Tool::Watch | Tool::ListWatchers | Tool::StopWatcher => surface.watchers,
            Tool::AwaitWatchers => surface.watchers && surface.watcher_yield,
            _ => (tool.is_subagent() ==> surface.subagents) && (tool.is_shared_work()
                ==> surface.shared_work),
        }
}

/// Selects the tools for running and talking to children.
pub open spec fn for_children() -> spec_fn(Tool) -> bool {
    |tool: Tool| tool.is_subagent()
}

/// Every tool, in the order in which they are offered.
pub open spec fn all_tools() -> Seq<Tool> {
    seq![
        Tool::ConsultModel,
        Tool::GetGoal,
        Tool::GetPlan,
        Tool::UpdatePlan,
        Tool::LspDiagnostics,
        Tool::LspWorkspaceDiagnostics,
        Tool::ListPlugins,
        Tool::ReadPlugin,
        Tool::GetAgentSettings,
        Tool::UpdateAgentSettings,
        Tool::CreatePlugin,
        Tool::CreateExtension,
        Tool::ListWorkflows,
        Tool::RunWorkflow,
        Tool::QueryHistory,
        Tool::HistoryIndex,
        Tool::ConsultPeer,
        Tool::RotatePeer,
        Tool::ComputerUse,
        Tool::Watch,
        Tool::ListWatchers,
        Tool::AwaitWatchers,
        Tool::StopWatcher,
        Tool::CreateSharedWork,
        Tool::ClaimSharedWork,
        Tool::RequestWorkReview,
        Tool::ListSharedWork,
        Tool::SpawnAgent,
        Tool::ListAgents,
        Tool::ListWorkspaceParticipants,
        Tool::ListInstances,
        Tool::SendMessage,
        Tool::FollowupTask,
        Tool::BroadcastTeam,
        Tool::ListUnreadTeamMessages,
        Tool::AcknowledgeTeamMessage,
        Tool::GetMessageStatus,
        Tool::InterruptAgent,
        Tool::WaitAgent,
    ]
}

/// Every tool, in the order in which they are offered.
fn catalog() -> (res: Vec<Tool>)
    ensures
        res@ == all_tools(),
{
    let res = vec![
        Tool::ConsultModel,
        Tool::GetGoal,
        Tool::GetPlan,
        Tool::UpdatePlan,
        Tool::LspDiagnostics,
        Tool::LspWorkspaceDiagnostics,
        Tool::ListPlugins,
        Tool::ReadPlugin,
        Tool::GetAgentSettings,
        Tool::UpdateAgentSettings,
        Tool::CreatePlugin,
        Tool::CreateExtension,
        Tool::ListWorkflows,
        Tool::RunWorkflow,
        Tool::QueryHistory,
        Tool::HistoryIndex,
        Tool::ConsultPeer,
        Tool::RotatePeer,
        Tool::ComputerUse,
        Tool::Watch,
        Tool::ListWatchers,
        Tool::AwaitWatchers,
        Tool::StopWatcher,
        Tool::CreateSharedWork,
        Tool::ClaimSharedWork,
        Tool::RequestWorkReview,
        Tool::ListSharedWork,
        Tool::SpawnAgent,
        Tool::ListAgents,
        Tool::ListWorkspaceParticipants,
        Tool::ListInstances,
        Tool::SendMessage,
        Tool::FollowupTask,
        Tool::BroadcastTeam,
        Tool::ListUnreadTeamMessages,
        Tool::AcknowledgeTeamMessage,
        Tool::GetMessageStatus,
        Tool::InterruptAgent,
        Tool::WaitAgent,
    ];
    assert(res@ =~= all_tools());
    res
}

/// Whether a tool is for running and talking to children.
fn is_subagent_tool(tool: Tool) -> (res: bool)
    ensures
        res == for_children()(tool),
{
    match tool {
        Tool::SpawnAgent
        | Tool::ListAgents
        | Tool::ListWorkspaceParticipants
        | Tool::ListInstances
        | Tool::SendMessage
        | Tool::FollowupTask
        | Tool::BroadcastTeam
        | Tool::ListUnreadTeamMessages
        | Tool::AcknowledgeTeamMessage
        | Tool::GetMessageStatus
        | Tool::InterruptAgent
        | Tool::WaitAgent => true,
        _ => false,
    }
}

/// Whether a name is that of a tool for work that a team shares.
pub fn is_shared_work_tool(name: &str) -> (res: bool)
    ensures
        res == exists|tool: Tool| #[trigger] tool.is_shared_work() && tool.text() == name@,
{
    let asked = name.to_owned();
    let res = asked == "create_shared_work".to_owned()
        || asked == "claim_shared_work".to_owned()
        || asked == "request_work_review".to_owned()
        || asked == "list_shared_work".to_owned();
    proof {
        assert(Tool::CreateSharedWork.is_shared_work() && Tool::CreateSharedWork.text() == "create_shared_work"@);
        assert(Tool::ClaimSharedWork.is_shared_work() && Tool::ClaimSharedWork.text() == "claim_shared_work"@);
        assert(Tool::RequestWorkReview.is_shared_work() && Tool::RequestWorkReview.text() == "request_work_review"@);
        assert(Tool::ListSharedWork.is_shared_work() && Tool::ListSharedWork.text() == "list_shared_work"@);
    }
    res
}

impl ToolSurface {
    /// What the session that leads a team is offered.
    pub open spec fn of_director() -> ToolSurface {
        ToolSurface {
            subagents: true,
            shared_work: true,
            consultation: true,
            computer_use: true,
            settings: true,
            watchers: true,
            watcher_yield: false,
        }
    }

    /// What the session that leads a team is offered.
    pub fn director() -> (res: ToolSurface)
        ensures
            res == ToolSurface::of_director(),
    {
        ToolSurface {
            subagents: true,
            shared_work: true,
            consultation: true,
            computer_use: true,
            settings: true,
            watchers: true,
            watcher_yield: false,
        }
    }

    /// What a child of a session is offered.
    pub open spec fn of_child(self) -> ToolSurface {
        ToolSurface {
            consultation: false,
            computer_use: false,
            settings: false,
            watchers: false,
            watcher_yield: false,
            ..self
        }
    }

    /// What a child of a session is offered.
    pub fn for_child(&self) -> (res: ToolSurface)
        ensures
            res == self.of_child(),
    {
        ToolSurface {
            subagents: self.subagents,
            shared_work: self.shared_work,
            consultation: false,
            computer_use: false,
            settings: false,
            watchers: false,
            watcher_yield: false,
        }
    }

    /// Whether a surface offers a tool.
    pub fn offers(&self, tool: Tool) -> (res: bool)
        ensures
            res == offered(*self)(tool),
    {
        match tool {
            Tool::ConsultModel | Tool::ConsultPeer | Tool::RotatePeer => self.consultation,
            Tool::ComputerUse => self.computer_use,
            Tool::UpdateAgentSettings => self.settings,
            Tool::Watch | Tool::ListWatchers | Tool::StopWatcher => self.watchers,
            Tool::AwaitWatchers => self.watchers && self.watcher_yield,
            Tool::CreateSharedWork
            | Tool::ClaimSharedWork
            | Tool::RequestWorkReview
            | Tool::ListSharedWork => self.shared_work,
            _ => !is_subagent_tool(tool) || self.subagents,
        }
    }
}

/// The tools that a surface offers. Every provider's lane is offered the same.
pub fn agent_tool_specs_for_surface(provider: CodingProvider, surface: ToolSurface) -> (res: Vec<
    Tool,
>)
    ensures
        res@ == all_tools().filter(offered(surface)),
{
    let _ = provider;
    let all = catalog();
    let mut res: Vec<Tool> = Vec::new();
    let mut index: usize = 0;
    proof {
        reveal(Seq::filter);
        assert(all@.take(0) =~= Seq::<Tool>::empty());
        assert(res@ =~= all@.take(0).filter(offered(surface)));
    }
    while index < all.len()
        invariant
            index <= all.len(),
            res@ == all@.take(index as int).filter(offered(surface)),
        decreases all.len() - index,
    {
        proof {
            lemma_filter_step(all@, index as int, offered(surface));
        }
        if surface.offers(all[index]) {
            res.push(all[index]);
        }
        index = index + 1;
    }
    assert(all@.take(index as int) =~= all@);
    res
}

/// The tools for running and talking to children.
pub fn subagent_tool_specs(provider: CodingProvider) -> (res: Vec<Tool>)
    ensures
        res@ == all_tools().filter(for_children()),
{
    let _ = provider;
    let all = catalog();
    let mut res: Vec<Tool> = Vec::new();
    let mut index: usize = 0;
    proof {
        reveal(Seq::filter);
        assert(all@.take(0) =~= Seq::<Tool>::empty());
        assert(res@ =~= all@.take(0).filter(for_children()));
    }
    while index < all.len()
        invariant
            index <= all.len(),
            res@ == all@.take(index as int).filter(for_children()),
        decreases all.len() - index,
    {
        proof {
            lemma_filter_step(all@, index as int, for_children());
        }
        if is_subagent_tool(all[index]) {
            res.push(all[index]);
        }
        index = index + 1;
    }
    assert(all@.take(index as int) =~= all@);
    res
}

/// The tools of a session with or without children, shared work, consultation
/// and the screen.
pub fn agent_tool_specs_with_capabilities_and_consultation(
    provider: CodingProvider,
    subagents: bool,
    shared_work: bool,
    consultation: bool,
    computer_use: bool,
) -> (res: Vec<Tool>)
    ensures
        res@ == all_tools().filter(
            offered(
                ToolSurface {
                    subagents,
                    shared_work,
                    consultation,
                    computer_use,
                    ..ToolSurface::of_director()
                },
            ),
        ),
{
    let mut surface = ToolSurface::director();
    surface.subagents = subagents;
    surface.shared_work = shared_work;
    surface.consultation = consultation;
    surface.computer_use = computer_use;
    agent_tool_specs_for_surface(provider, surface)
}

/// The tools of a session with or without children and shared work.
pub fn agent_tool_specs_with_capabilities(
    provider: CodingProvider,
    subagents: bool,
    shared_work: bool,
) -> (res: Vec<Tool>)
    ensures
        res@ == all_tools().filter(
            offered(ToolSurface { subagents, shared_work, ..ToolSurface::of_director() }),
        ),
{
    agent_tool_specs_with_capabilities_and_consultation(
        provider,
        subagents,
        shared_work,
        true,
        true,
    )
}

/// The tools of a session with or without children.
pub fn agent_tool_specs_with_subagents(provider: CodingProvider, subagents: bool) -> (res: Vec<
    Tool,
>)
    ensures
        res@ == all_tools().filter(
            offered(ToolSurface { subagents, ..ToolSurface::of_director() }),
        ),
{
    agent_tool_specs_with_capabilities(provider, subagents, true)
}

/// Filtering twice keeps what both filters select.
proof fn lemma_filter_filter(
    tools: Seq<Tool>,
    first: spec_fn(Tool) -> bool,
    second: spec_fn(Tool) -> bool,
)
    ensures
        tools.filter(first).filter(second) == tools.filter(|tool: Tool| first(tool) && second(tool)),
    decreases tools.len(),
{
    reveal(Seq::filter);
    let both = |tool: Tool| first(tool) && second(tool);
    if tools.len() > 0 {
        let front = tools.drop_last();
        lemma_filter_filter(front, first, second);
        if first(tools.last()) {
            let kept = front.filter(first);
            assert(kept.push(tools.last()).drop_last() =~= kept);
        }
    } else {
        assert(tools.filter(first) =~= tools);
        assert(tools.filter(both) =~= tools);
    }
}

/// A child's surface is the surface of its director minus what only a director
/// holds, tool by tool and in the same order.
pub proof fn law_child_surface_is_director_surface(surface: ToolSurface)
    ensures
        all_tools().filter(offered(surface.of_child())) == all_tools().filter(
            offered(surface),
        ).filter(|tool: Tool| !tool.is_director_only()),
{
    let kept = |tool: Tool| !tool.is_director_only();
    lemma_filter_filter(all_tools(), offered(surface), kept);
    lemma_filter_congruent(
        all_tools(),
        offered(surface.of_child()),
        |tool: Tool| offered(surface)(tool) && kept(tool),
    );
}

/// How a team is composed.
#[derive(Debug, Clone, Copy, PartialEq, Eq, Structural)]
pub enum TeamPreset {
    /// A director that thinks hard and workers that think little.
    XhighDirectorLowWorkers,
}

impl TeamPreset {
    /// The policy of a team that is composed this way.
    pub fn policy(&self, team_id: Uuid, director_id: Uuid, session_id: Uuid, provider: &str) -> (res:
        TeamPolicy)
        ensures
            res.team_id == team_id,
            res.director_id == director_id,
            res.session_id == session_id,
            res.provider@ == provider@,
            res.worker_effort@ == "low"@,
    {
        TeamPolicy {
            team_id,
            director_id,
            session_id,
            provider: provider.to_owned(),
            worker_effort: "low".to_owned(),
        }
    }
}

/// The effort that a worker is launched with: what was asked for, else what its
/// team's policy says, else what its parent was launched with.
pub open spec fn worker_effort(launch: LaunchSessionView, asked: Option<Seq<char>>) -> Option<
    Seq<char>,
> {
    if asked is Some {
        asked
    } else {
        match launch.team_policy {
            Some(policy) => Some(policy.worker_effort),
            None => launch.effort,
        }
    }
}

/// The effort that a worker is launched with.
pub fn effective_worker_effort(launch: &LaunchSession, asked: Option<String>) -> (res: Option<
    String,
>)
    ensures
        option_view(res) == worker_effort(launch@, option_view(asked)),
{
    match asked {
        Some(effort) => Some(effort),
        None => match &launch.team_policy {
            Some(policy) => Some(policy.worker_effort.clone()),
            None => launch.effort.clone(),
        },
    }
}

} // verus!
