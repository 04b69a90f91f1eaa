//! Children of a root session, and the tools that sessions are offered.

use borg_agent_runtime::fixtures::{
    configured, duration_p95, event_ids, launch, message, opencode_configured, sample_png,
    subagent_activity, test_provider_capabilities,
};
use borg_agent_runtime::session::{
    CodingProvider, EventActor, MessageStatus, PermissionMode, PromptDelivery, SessionEvent,
    SessionEventKind, SubagentStatus,
};
use borg_agent_runtime::subagent::{SubagentError, SubagentTable};
use borg_agent_runtime::time::Timestamp;
use borg_agent_runtime::tools::{
    agent_tool_specs_for_surface, agent_tool_specs_with_capabilities,
    agent_tool_specs_with_capabilities_and_consultation, agent_tool_specs_with_subagents,
    effective_worker_effort, is_shared_work_tool, subagent_tool_specs, TeamPreset, Tool,
    ToolSurface,
};
use borg_agent_runtime::workspace::Uuid;

fn fresh() -> Uuid {
    uuid::Uuid::new_v4().as_u128()
}

fn names(tools: Vec<Tool>) -> Vec<String> {
    tools.iter().map(|tool| tool.name().to_string()).collect()
}

#[test]
fn child_identity_is_stable_and_inherits_execution_context() {
    let root = fresh();
    let mut table = SubagentTable::new(root, 2);
    let child = table.reserve("review_api", &launch()).unwrap();
    assert_eq!(child.parent_session_id, root);
    assert_eq!(child.task_name, "/root/review_api");
    assert_eq!(child.provider, CodingProvider::Codex);
    assert_eq!(child.model.as_deref(), Some("gpt-test"));
    assert_eq!(table.resolve("review_api").unwrap(), child.session_id);
    assert_eq!(table.resolve("/root/review_api").unwrap(), child.session_id);
    assert_eq!(
        table
            .resolve(&format!("session:{}", uuid::Uuid::from_u128(child.session_id)))
            .unwrap(),
        child.session_id
    );
}

#[test]
fn live_child_limit_and_task_names_are_enforced() {
    let mut table = SubagentTable::new(fresh(), 1);
    let child = table.reserve("first", &launch()).unwrap();
    assert!(table.reserve("second", &launch()).is_err());
    table
        .entries
        .iter_mut()
        .find(|agent| agent.session_id == child.session_id)
        .unwrap()
        .status = SubagentStatus::Stopped;
    assert!(table.reserve("second", &launch()).is_ok());
    assert!(table.reserve("SECOND", &launch()).is_err());
}

#[test]
fn ready_children_do_not_consume_live_child_limit() {
    let mut table = SubagentTable::new(fresh(), 1);
    let child = table.reserve("completed", &launch()).unwrap();
    table
        .entries
        .iter_mut()
        .find(|agent| agent.session_id == child.session_id)
        .unwrap()
        .status = SubagentStatus::Ready;

    assert!(table.reserve("new_work", &launch()).is_ok());
}

#[test]
fn children_are_refused_for_a_reason() {
    let mut table = SubagentTable::new(1, 1);
    let now = Timestamp { secs: 5, nanos: 6 };
    let child = table.reserve_as("Review", &launch(), 7, now).unwrap();
    assert_eq!(child.session_id, 7);
    assert_eq!(child.created_at, now);
    assert_eq!(child.status, SubagentStatus::Starting);
    assert_eq!(table.reserve_as("review", &launch(), 8, now), Err(SubagentError::NameTaken));
    assert_eq!(table.reserve_as("other", &launch(), 8, now), Err(SubagentError::LimitReached));
    assert_eq!(table.resolve("other"), Err(SubagentError::Unknown));
    assert_eq!(
        table.resolve("session:00000000-0000-0000-0000-000000000007"),
        Ok(7)
    );
    assert_eq!(table.entries.len(), 1);
}

#[test]
fn reserved_children_get_identities_of_their_own() {
    let mut table = SubagentTable::new(1, 2);
    let first = table.reserve("one", &launch()).unwrap();
    let second = table.reserve("two", &launch()).unwrap();
    assert_ne!(first.session_id, second.session_id);
    for child in [first, second] {
        let id = uuid::Uuid::from_u128(child.session_id);
        assert_eq!(id.get_version_num(), 4);
        assert!(child.created_at.secs > 1_700_000_000);
        assert!(child.created_at.nanos < 1_000_000_000);
    }
}

#[test]
fn tool_catalog_exposes_one_complete_lifecycle() {
    assert_eq!(
        names(subagent_tool_specs(CodingProvider::Codex)),
        [
            "spawn_agent",
            "list_agents",
            "list_workspace_participants",
            "list_instances",
            "send_message",
            "followup_task",
            "broadcast_team",
            "list_unread_team_messages",
            "acknowledge_team_message",
            "get_message_status",
            "interrupt_agent",
            "wait_agent"
        ]
    );
}

#[test]
fn shared_work_tools_are_absent_when_the_capability_is_disabled() {
    let without = names(agent_tool_specs_with_capabilities(CodingProvider::Codex, false, false));
    assert!(!without.iter().any(|name| is_shared_work_tool(name)));
    assert!(!without.iter().any(|name| name == "spawn_agent"));

    let enabled = names(agent_tool_specs_with_capabilities(CodingProvider::Codex, false, true));
    assert!(enabled.iter().any(|name| name == "create_shared_work"));
    assert!(enabled.iter().any(|name| name == "request_work_review"));
}

#[test]
fn every_execution_lane_exposes_the_same_borg_control_plane() {
    let common = [
        "consult_model",
        "get_goal",
        "get_plan",
        "update_plan",
        "lsp_diagnostics",
        "lsp_workspace_diagnostics",
        "list_plugins",
        "read_plugin",
        "get_agent_settings",
        "update_agent_settings",
        "create_plugin",
        "create_extension",
        "list_workflows",
        "run_workflow",
        "query_history",
        "history_index",
    ];
    for provider in [
        CodingProvider::Codex,
        CodingProvider::Claude,
        CodingProvider::OpenRouter,
        CodingProvider::OpenAiCompatible,
    ] {
        let names = names(agent_tool_specs_with_capabilities(provider, false, false));
        for required in common {
            assert!(
                names.iter().any(|name| name == required),
                "{provider:?} lane is missing Borg tool {required}"
            );
        }
        assert!(
            !names.iter().any(|name| name == "runtime_exec"),
            "{provider:?} lane leaked the internal persistent runtime selector"
        );
    }
}

#[test]
fn persistent_peer_tool_is_root_only_and_not_recursive() {
    let root_names = names(agent_tool_specs_with_capabilities_and_consultation(
        CodingProvider::Codex,
        true,
        false,
        true,
        false,
    ));
    assert!(root_names.iter().any(|name| name == "consult_peer"));
    assert!(root_names.iter().any(|name| name == "rotate_peer"));

    let child_names = names(agent_tool_specs_with_capabilities_and_consultation(
        CodingProvider::Claude,
        true,
        false,
        false,
        false,
    ));
    assert!(!child_names.iter().any(|name| name == "consult_peer"));
    assert!(!child_names.iter().any(|name| name == "consult_model"));
    assert!(!child_names.iter().any(|name| name == "rotate_peer"));
}

#[test]
fn autonomous_team_defaults_workers_to_low_without_overriding_tool_input() {
    let mut team_launch = launch();
    team_launch.team_policy = Some(TeamPreset::XhighDirectorLowWorkers.policy(
        fresh(),
        fresh(),
        fresh(),
        "codex",
    ));
    assert_eq!(effective_worker_effort(&team_launch, None).as_deref(), Some("low"));
    assert_eq!(
        effective_worker_effort(&team_launch, Some("high".into())).as_deref(),
        Some("high")
    );
    team_launch.team_policy = None;
    assert_eq!(effective_worker_effort(&team_launch, None).as_deref(), Some("high"));
}

#[test]
fn disabled_catalog_omits_subagent_tools() {
    let names = names(agent_tool_specs_with_subagents(CodingProvider::Codex, false));
    assert!(!names.iter().any(|name| name == "spawn_agent"));
    assert!(!names.iter().any(|name| name == "send_message"));
}

#[test]
fn a_child_surface_is_the_director_surface_minus_the_documented_exceptions() {
    let exceptions = [
        "consult_model",
        "consult_peer",
        "rotate_peer",
        "computer_use",
        "update_agent_settings",
        "watch",
        "list_watchers",
        "await_watchers",
        "stop_watcher",
    ];
    let on_codex =
        |surface| names(agent_tool_specs_for_surface(CodingProvider::Codex, surface));
    let normal = on_codex(ToolSurface::director());
    assert!(normal.contains(&"watch".to_string()));
    assert!(!normal.contains(&"await_watchers".to_string()));
    let enabled = on_codex(ToolSurface { watcher_yield: true, ..ToolSurface::director() });
    assert!(enabled.contains(&"await_watchers".to_string()));
    for provider in [
        CodingProvider::Codex,
        CodingProvider::Claude,
        CodingProvider::OpenRouter,
        CodingProvider::OpenAiCompatible,
    ] {
        let director = agent_tool_specs_for_surface(provider, ToolSurface::director());
        let child = agent_tool_specs_for_surface(provider, ToolSurface::director().for_child());
        let expected = director
            .iter()
            .map(|tool| tool.name().to_string())
            .filter(|name| !exceptions.contains(&name.as_str()))
            .collect::<Vec<_>>();
        assert_eq!(
            names(child.clone()),
            expected,
            "{provider:?} child surface is not the director surface minus the documented exceptions"
        );
        for tool in child {
            assert!(
                director.contains(&tool),
                "{provider:?} advertises {} differently for a child",
                tool.name()
            );
        }
    }
}

#[test]
fn fixtures_are_what_they_say() {
    let SessionEventKind::SessionConfigured { cwd, provider, model, effort, fast, .. } =
        configured("/work")
    else {
        panic!("configuration expected");
    };
    assert_eq!(cwd, "/work");
    assert_eq!(provider, CodingProvider::Codex);
    assert_eq!(model.as_deref(), Some("gpt-test"));
    assert_eq!(effort.as_deref(), Some("high"));
    assert!(!fast);

    let SessionEventKind::SessionConfigured { provider, model, permission_mode, .. } =
        opencode_configured("zen")
    else {
        panic!("configuration expected");
    };
    assert_eq!(provider, CodingProvider::OpenCode);
    assert_eq!(model.as_deref(), Some("zen"));
    assert_eq!(permission_mode, PermissionMode::Auto);

    let SessionEventKind::Message { message_id, actor, text, status, delivery } =
        message(9, "hello")
    else {
        panic!("message expected");
    };
    assert_eq!((message_id, text.as_str()), (9, "hello"));
    assert_eq!(actor, EventActor::User);
    assert_eq!(status, MessageStatus::Complete);
    assert_eq!(delivery, Some(PromptDelivery::Steer));

    let SessionEventKind::SubagentActivity { agent, .. } =
        subagent_activity(2, 1, "/root/task", SubagentStatus::Ready)
    else {
        panic!("activity expected");
    };
    assert_eq!((agent.session_id, agent.parent_session_id), (2, 1));
    assert_eq!(agent.task_name, "/root/task");
    assert_eq!(agent.status, SubagentStatus::Ready);

    let events = vec![
        SessionEvent { id: 4, session_id: 1, sequence: 1, kind: message(9, "a") },
        SessionEvent { id: 3, session_id: 1, sequence: 2, kind: message(8, "b") },
    ];
    assert_eq!(event_ids(&events), vec![4, 3]);
    assert!(test_provider_capabilities().iter().all(|known| known.installed));
    assert!(sample_png().starts_with(b"\x89PNG"));
}

#[test]
fn the_slow_end_is_the_nineteen_twentieth() {
    let mut samples: Vec<u64> = (1..=100).rev().collect();
    assert_eq!(duration_p95(&mut samples), 95);
    let mut one = vec![7];
    assert_eq!(duration_p95(&mut one), 7);
    let mut few = vec![30, 10, 20];
    assert_eq!(duration_p95(&mut few), 30);
    assert_eq!(few, vec![10, 20, 30]);
}
