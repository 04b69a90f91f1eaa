//! The scripted agent, and the journals that recovery is tried on.

use borg_agent_runtime::dogfood::{
    turn_completed, CanonicalDogfoodExecutor, DogfoodCall, DogfoodError, DogfoodStep,
    DogfoodTurn, HistoryDocument, ToolReply,
};
use borg_agent_runtime::fixtures::{
    bind_test_team, message, recovery_fixture, recovery_profile_kind,
    RECOVERY_PROFILE_OBSOLETE_EVENTS, RECOVERY_PROFILE_RETAINED_EVENTS,
};
use borg_agent_runtime::session::{
    CodingProvider, EventActor, MessageStatus, SessionEventKind, SubagentStatus,
};
use borg_agent_runtime::store::WorkspaceTables;
use borg_agent_runtime::text::holds_text;
use borg_agent_runtime::time::Timestamp;
use borg_agent_runtime::workspace::WorkspaceRole;

fn nothing() -> ToolReply {
    ToolReply { text: None, flag: false, documents: Vec::new(), cursor: "null".to_string() }
}

fn text(text: &str) -> ToolReply {
    ToolReply { text: Some(text.to_string()), ..nothing() }
}

fn yes() -> ToolReply {
    ToolReply { flag: true, ..nothing() }
}

fn page() -> ToolReply {
    let document = |event_id: Option<&str>, content: &str| HistoryDocument {
        event_id: event_id.map(str::to_string),
        content: Some(content.to_string()),
    };
    ToolReply {
        documents: vec![
            document(Some("e0"), "something else"),
            document(None, "a lossless-dogfood without identity"),
            document(Some("e2"), "the lossless-dogfood needle"),
            document(Some("e3"), "lossless-dogfood again"),
        ],
        cursor: "12".to_string(),
        ..nothing()
    }
}

fn replies(phase: usize) -> Vec<ToolReply> {
    if phase == 0 {
        vec![
            text("goal"),
            text("plan"),
            page(),
            text("r1"),
            yes(),
            text("e2"),
            yes(),
            text("canonical-dogfood"),
        ]
    } else {
        vec![
            text("active"),
            text("plan"),
            yes(),
            text("plan"),
            text("plan"),
            yes(),
            nothing(),
            text("complete"),
        ]
    }
}

fn turn(phase: usize) -> DogfoodTurn {
    CanonicalDogfoodExecutor { phase }.begin().1.unwrap()
}

fn run(turn: &mut DogfoodTurn, replies: Vec<ToolReply>) -> Vec<DogfoodStep> {
    replies.into_iter().map(|reply| turn.on_reply(reply).unwrap()).collect()
}

#[test]
fn both_turns_run_through() {
    let mut executor = CanonicalDogfoodExecutor::new();
    let mut first = executor.begin().1.unwrap();
    let mut tools = vec![first.call.tool()];
    let mut text = None;
    for reply in replies(0) {
        match first.on_reply(reply).unwrap() {
            DogfoodStep::Call { call } => tools.push(call.tool()),
            DogfoodStep::Close { final_text, provider_session_id } => {
                assert_eq!(provider_session_id.as_deref(), Some("canonical-dogfood"));
                text = Some(final_text);
            }
            step => panic!("announced again: {step:?}"),
        }
    }
    assert_eq!(
        text.as_deref(),
        Some("{\"event_id\":\"e2\",\"goal_id\":\"goal\",\"phase\":1,\"plan_id\":\"plan\"}")
    );
    assert_eq!(
        tools,
        [
            "create_goal",
            "update_plan",
            "history_index",
            "create_retrieval_adapter",
            "runtime_exec",
            "runtime_exec",
            "query_history",
            "runtime_exec"
        ]
    );
    assert_eq!(first.goal_id, "goal");
    assert_eq!(first.plan_id, "plan");
    assert_eq!(first.adapter_revision, "r1");
    assert_eq!(first.event_id, "e2", "the first document that holds the prompt and has an identity");
    assert_eq!(first.cursor, "12");

    let mut second = executor.begin().1.unwrap();
    let steps = run(&mut second, replies(1));
    assert_eq!(steps.len(), 8);
    assert!(steps[..7].iter().all(|step| matches!(step, DogfoodStep::Call { .. })));
    let DogfoodStep::Close { final_text, provider_session_id } = &steps[7] else {
        panic!("the turn is not closed");
    };
    assert_eq!(final_text, "{\"phase\":2,\"recovered\":true}");
    assert_eq!(provider_session_id.as_deref(), Some("canonical-dogfood"));
}

#[test]
fn every_turn_is_announced_first() {
    let mut executor = CanonicalDogfoodExecutor::new();
    for phase in 0..4 {
        assert_eq!(executor.phase, phase);
        let (step, begun) = executor.begin();
        let Some(SessionEventKind::ProviderEvent { provider, kind, payload }) = step.event(7) else {
            panic!("nothing is announced");
        };
        assert_eq!(provider, CodingProvider::Codex);
        assert_eq!(kind, "test_turn_started");
        assert_eq!(payload, "{}");
        match begun {
            Ok(_) => assert!(phase < 2),
            Err(error) => {
                assert!(phase >= 2);
                assert_eq!(error, DogfoodError::UnexpectedPhase { phase });
                assert_eq!(
                    error.message("anything"),
                    format!("unexpected dogfood executor phase {phase}")
                );
            }
        }
    }
    assert_eq!(executor.phase, 4);
    let mut last = CanonicalDogfoodExecutor { phase: usize::MAX };
    assert!(last.begin().1.is_err());
    assert_eq!(last.phase, 0);
}

#[test]
fn a_turn_is_closed_with_one_message() {
    for phase in 0..2 {
        let mut turn = turn(phase);
        let sent: Vec<SessionEventKind> =
            run(&mut turn, replies(phase)).iter().filter_map(|step| step.event(7)).collect();
        assert_eq!(sent.len(), 1);
        let SessionEventKind::Message { message_id, actor, text, status, delivery } = &sent[0] else {
            panic!("a message expected");
        };
        assert_eq!(*message_id, 7);
        assert_eq!(*actor, EventActor::Assistant);
        assert_eq!(*status, MessageStatus::Complete);
        assert!(delivery.is_none());
        assert!(text.starts_with('{'));
    }
}

#[test]
fn what_a_turn_learned_is_written_as_json() {
    let odd = "a\"b\\c\n\t\r\u{8}\u{c}\u{1}\u{1f}\u{7f}\u{e9}\u{1f600}/";
    let mut turn = turn(0);
    turn.goal_id = odd.to_string();
    turn.plan_id = "p".to_string();
    turn.event_id = String::new();
    turn.adapter_revision = "r\u{0}".to_string();
    turn.cursor = "null".to_string();
    turn.call = DogfoodCall::Checkpoint;
    let quoted = serde_json::to_string(odd).unwrap();
    let state = format!(
        "{{\"adapter_revision\":\"r\\u0000\",\"cursor\":null,\"goal_id\":{quoted},\"history_event_id\":\"\",\"plan_id\":\"p\"}}"
    );
    let code = format!("borg.checkpoint('canonical-dogfood', {state})");
    assert_eq!(turn.program(), Some(code.clone()));
    let arguments: serde_json::Value = serde_json::from_str(&turn.arguments()).unwrap();
    assert_eq!(arguments["code"], code.as_str());
    assert_eq!(arguments["runtime"], "python");
    // The library that reads the state back writes it the same way.
    let read: serde_json::Value = serde_json::from_str(&state).unwrap();
    assert_eq!(read["goal_id"], odd);
    assert_eq!(serde_json::to_string(&read).unwrap(), state);

    let Ok(DogfoodStep::Close { final_text, .. }) = turn.on_reply(text("canonical-dogfood")) else {
        panic!("the turn is not closed");
    };
    let read: serde_json::Value = serde_json::from_str(&final_text).unwrap();
    assert_eq!(read["goal_id"], odd);
    assert_eq!(read["phase"], 1);
    assert_eq!(serde_json::to_string(&read).unwrap(), final_text);
}

#[test]
fn calls_are_made_with_what_was_learned() {
    let arguments = |turn: &DogfoodTurn| -> serde_json::Value {
        serde_json::from_str(&turn.arguments()).unwrap()
    };
    let mut first = turn(0);
    let mut given = vec![arguments(&first)];
    for reply in replies(0) {
        first.on_reply(reply).unwrap();
        given.push(arguments(&first));
    }
    assert_eq!(given[0]["objective"], "dogfood the canonical persistent workspace");
    assert_eq!(given[0]["token_budget"], 10_000);
    let plan = "retrieve, verify, checkpoint, and recover durable state";
    assert_eq!(given[1]["plan"][0]["content"], plan);
    assert_eq!(given[1]["plan"][0]["status"], "in_progress");
    assert_eq!(given[2]["after_sequence"], 0);
    assert_eq!(given[2]["limit"], 100);
    assert_eq!(given[3]["id"], "canonical-dogfood");
    assert_eq!(
        given[3]["description"],
        "Find durable session events through the canonical history index"
    );
    assert_eq!(
        given[3]["source"],
        "def retrieve(query):\n    page = borg.history_index(0, 100)\n    return {'query': query, 'event_ids': [row['event_id'] for row in page['documents'] if query and query in row['content']]}\n"
    );
    assert_eq!(
        given[3]["tests"],
        "def test(retrieve, borg):\n    result = retrieve('lossless-dogfood')\n    assert result['event_ids'], result\n    return {'found': len(result['event_ids'])}\n"
    );
    assert_eq!(given[4]["code"], "borg.test_retrieval_adapter('canonical-dogfood')");
    assert_eq!(given[6]["event_id"], "e2");
    assert_eq!(given[6]["limit"], 1);
    assert_eq!(
        given[7]["code"],
        "borg.checkpoint('canonical-dogfood', {\"adapter_revision\":\"r1\",\"cursor\":12,\"goal_id\":\"goal\",\"history_event_id\":\"e2\",\"plan_id\":\"plan\"})"
    );

    let mut second = turn(1);
    assert_eq!(second.arguments(), "{}");
    for reply in replies(1).into_iter().take(6) {
        second.on_reply(reply).unwrap();
    }
    let completed = arguments(&second);
    assert_eq!(completed["plan"][0]["id"], "plan");
    assert_eq!(completed["plan"][0]["content"], plan);
    assert_eq!(completed["plan"][0]["status"], "completed");
    second.on_reply(nothing()).unwrap();
    assert_eq!(arguments(&second)["status"], "complete");
}

#[test]
fn every_call_is_checked() {
    let errors = [
        [
            Some(DogfoodError::NoGoalId),
            Some(DogfoodError::NoPlanId),
            Some(DogfoodError::PromptNotIndexed),
            Some(DogfoodError::NoRevision),
            Some(DogfoodError::AdapterTestFailed),
            Some(DogfoodError::NoEventId),
            Some(DogfoodError::LocatorUnresolved),
            Some(DogfoodError::CheckpointLost),
        ],
        [
            Some(DogfoodError::GoalNotActive),
            Some(DogfoodError::PlanLost),
            Some(DogfoodError::NotRecovered),
            Some(DogfoodError::NotRehydrated),
            Some(DogfoodError::NotRestored),
            Some(DogfoodError::AdapterLost),
            None,
            Some(DogfoodError::GoalNotComplete),
        ],
    ];
    for phase in 0..2 {
        for (failing, error) in errors[phase].iter().enumerate() {
            let mut turn = turn(phase);
            for reply in replies(phase).into_iter().take(failing) {
                turn.on_reply(reply).unwrap();
            }
            let call = turn.call;
            assert_eq!(turn.on_reply(nothing()).err(), *error);
            if error.is_some() {
                assert_eq!(turn.call, call, "a turn that gives up stays where it was");
            }
        }
    }
    let mut turn = turn(0);
    for reply in replies(0).into_iter().take(5) {
        turn.on_reply(reply).unwrap();
    }
    assert_eq!(turn.on_reply(text("e3")).err(), Some(DogfoodError::LocatorChanged));
}

#[test]
fn failed_checks_show_what_was_returned() {
    let returned = "{\"goal\":null}";
    for (error, said) in [
        (DogfoodError::AdapterTestFailed, "model-authored retrieval adapter test failed"),
        (DogfoodError::GoalNotActive, "goal was not recovered as active"),
        (DogfoodError::NotRecovered, "runtime did not report recovery from the prior worker"),
        (DogfoodError::NotRehydrated, "checkpoint namespace was not automatically rehydrated"),
        (DogfoodError::NotRestored, "checkpoint did not restore the durable plan identity"),
        (DogfoodError::GoalNotComplete, "goal did not reach its terminal state"),
    ] {
        assert_eq!(error.message(returned), format!("{said}: {returned}"));
    }
    assert_eq!(
        DogfoodError::LocatorChanged.message(returned),
        "adapter did not preserve the indexed canonical locator"
    );
    assert_eq!(DogfoodError::NoGoalId.message(returned), "created goal did not return an id");
}

#[test]
fn programs_are_fixed() {
    assert_eq!(DogfoodCall::ReadPlanId.code(), Some("plan_id"));
    assert_eq!(DogfoodCall::Restore.code(), Some("borg.restore('canonical-dogfood')"));
    assert_eq!(DogfoodCall::Checkpoint.code(), None);
    assert_eq!(DogfoodCall::GetGoal.code(), None);
    assert_eq!(turn(1).program(), None);
}

#[test]
fn a_text_is_found_wherever_it_stands() {
    assert!(holds_text("abc", ""));
    assert!(holds_text("abc", "abc"));
    assert!(holds_text("aab", "ab"));
    assert!(holds_text("x\u{e9}y", "\u{e9}"));
    assert!(!holds_text("ab", "abc"));
    assert!(!holds_text("abab", "bb"));
}

#[test]
fn only_the_success_of_the_right_turn_counts() {
    let completed = |error: Option<&str>| SessionEventKind::TurnCompleted {
        message_id: 5,
        provider_session_id: None,
        final_text: String::new(),
        error: error.map(str::to_string),
    };
    assert!(turn_completed(&completed(None), None));
    assert!(turn_completed(&completed(None), Some(5)));
    assert!(!turn_completed(&completed(None), Some(6)));
    assert!(!turn_completed(&completed(Some("stopped")), Some(5)));
    assert!(!turn_completed(&message(5, "hi"), None));
}

#[test]
fn a_recovery_profile_has_its_parts_in_order() {
    let said = |sequence| match recovery_profile_kind(sequence, 1, 2) {
        Some(SessionEventKind::Message { text, .. }) => text,
        other => panic!("a message expected, not {other:?}"),
    };
    let boundary = RECOVERY_PROFILE_OBSOLETE_EVENTS + 1;
    assert_eq!(said(1), "obsolete recovery context 1");
    assert_eq!(said(boundary - 3), "obsolete recovery context 24998");
    assert!(matches!(
        recovery_profile_kind(boundary - 2, 1, 2),
        Some(SessionEventKind::TurnStarted { message_id: 2, .. })
    ));
    assert!(matches!(
        recovery_profile_kind(boundary - 1, 1, 2),
        Some(SessionEventKind::TurnCompleted { message_id: 2, error: None, .. })
    ));
    assert!(recovery_profile_kind(boundary, 1, 2).is_none());
    assert_eq!(said(boundary + 1), "retained recovery context 25002");
    let last = boundary + RECOVERY_PROFILE_RETAINED_EVENTS;
    assert_eq!(said(last), "retained recovery context 25101");
    assert!(recovery_profile_kind(last + 1, 1, 2).is_none());
    assert!(recovery_profile_kind(0, 1, 2).is_none());
}

#[test]
fn a_recovery_fixture_lists_children_first() {
    let kinds = recovery_fixture(1, &[10, 11], 20, 21);
    assert_eq!(kinds.len(), 8);
    for (index, (child, status)) in [
        (10, SubagentStatus::Starting),
        (10, SubagentStatus::Running),
        (11, SubagentStatus::Starting),
        (11, SubagentStatus::Running),
    ]
    .into_iter()
    .enumerate()
    {
        let SessionEventKind::SubagentActivity { agent, .. } = &kinds[index] else {
            panic!("activity expected");
        };
        assert_eq!((agent.session_id, agent.status), (child, status));
        assert_eq!(agent.task_name, format!("task_{}", index / 2));
    }
    assert!(matches!(&kinds[4], SessionEventKind::Message { message_id: 20, .. }));
    assert!(matches!(&kinds[5], SessionEventKind::PromptRecalled { message_id: 21, .. }));
    let SessionEventKind::ToolStarted { tool_call_id, name, input } = &kinds[6] else {
        panic!("a call of a tool expected");
    };
    assert_eq!((tool_call_id.as_str(), name.as_str()), ("tool-1", "read_file"));
    let input: serde_json::Value = serde_json::from_str(input).unwrap();
    assert_eq!(input["path"], "/tmp/a");
    assert_eq!(input.as_object().unwrap().len(), 1);
    assert!(matches!(&kinds[7], SessionEventKind::ToolCompleted { is_error: false, .. }));
}

#[test]
fn a_test_team_shares_the_workspace_of_its_root() {
    let mut tables = WorkspaceTables::new();
    bind_test_team(&mut tables, 1, &[10, 11], Timestamp { secs: 5, nanos: 0 });
    let roster = tables.workspace_roster(1, 10).unwrap();
    assert_eq!(roster.len(), 4);
    assert_eq!(roster.iter().filter(|entry| entry.role == WorkspaceRole::Owner).count(), 1);
    assert_eq!(tables.participant(1).unwrap().display_name, "Director");
    assert_eq!(tables.participant(11).unwrap().display_name, "Worker");
    assert_eq!(tables.workspace_name(1), Some("test team".to_string()));
}
