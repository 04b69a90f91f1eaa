//! Waiting on children: what ends a wait, and what a parent is then shown.

use borg_agent_runtime::fixtures::message;
use borg_agent_runtime::parents::WaitCursors;
use borg_agent_runtime::report::{read_reports, report, wait_report, WaitReason};
use borg_agent_runtime::session::{
    CodingProvider, EventActor, MessageStatus, SessionEvent, SessionEventKind, SessionStatus, SubagentActivity,
    SubagentSnapshot, SubagentStatus,
};
use borg_agent_runtime::text::{
    bounded, decimal, is_blank, last_nonblank_line, signed_decimal, trim,
};
use borg_agent_runtime::time::Timestamp;
use borg_agent_runtime::wait::{
    children, fingerprint, has_working_children, last_line, mark_seen, may_change_state, remember,
    settled, unseen, working, TeamInboxMessage, WaitCursor,
};
use borg_agent_runtime::wait_machine::{
    claim_input, WaitEvent, WaitFacts, WaitStep, Waiting, COALESCE, DEFAULT_WAIT, IDLE_GRACE,
    MAX_WAIT, MIN_WAIT, RECHECK,
};
use borg_agent_runtime::workspace::Uuid;
use std::hash::{Hash, Hasher};

const ROOT: Uuid = 1;

/// A millisecond in the time of waits.
const MS: u64 = 1_000_000;

fn at(secs: i64) -> Timestamp {
    Timestamp { secs, nanos: 0 }
}

fn agent(id: Uuid, status: SubagentStatus, detail: Option<&str>, text: Option<&str>) -> SubagentSnapshot {
    SubagentSnapshot {
        session_id: id,
        parent_session_id: ROOT,
        task_name: format!("/root/task-{id}"),
        status,
        provider: CodingProvider::Codex,
        model: None,
        effort: None,
        cwd: "/tmp".into(),
        created_at: at(100),
        updated_at: at(100),
        detail: detail.map(str::to_string),
        final_text: text.map(str::to_string),
    }
}

fn note(id: Uuid, sender: Uuid, text: &str) -> TeamInboxMessage {
    TeamInboxMessage { message_id: id, sender_session_id: sender, report_text: text.into() }
}

#[test]
fn a_ready_child_is_settled_once_it_has_said_something() {
    assert!(!settled(&agent(2, SubagentStatus::Starting, None, Some("x"))));
    assert!(!settled(&agent(2, SubagentStatus::Running, None, Some("x"))));
    assert!(!settled(&agent(2, SubagentStatus::Ready, Some("x"), None)));
    assert!(settled(&agent(2, SubagentStatus::Ready, None, Some(""))));
    assert!(settled(&agent(2, SubagentStatus::WaitingForApproval, None, None)));
    assert!(settled(&agent(2, SubagentStatus::Stopped, None, None)));
    assert!(settled(&agent(2, SubagentStatus::Failed, None, None)));
    assert!(working(&agent(2, SubagentStatus::Starting, None, None)));
    assert!(working(&agent(2, SubagentStatus::Running, None, None)));
    assert!(!working(&agent(2, SubagentStatus::WaitingForApproval, None, None)));
    assert!(!working(&agent(2, SubagentStatus::Ready, None, None)));
}

#[test]
fn a_fingerprint_is_the_hash_of_the_status_and_its_text() {
    let expected = |code: u8, text: Option<String>| {
        let mut hasher = std::collections::hash_map::DefaultHasher::new();
        code.hash(&mut hasher);
        text.hash(&mut hasher);
        hasher.finish()
    };
    let ready = agent(2, SubagentStatus::Ready, Some("detail"), Some("done"));
    assert_eq!(fingerprint(&ready), expected(3, Some("done".to_string())));
    let failed = agent(2, SubagentStatus::Failed, Some("det\u{e4}il"), Some("done"));
    assert_eq!(fingerprint(&failed), expected(5, Some("det\u{e4}il".to_string())));
    let stopped = agent(2, SubagentStatus::Stopped, None, Some("done"));
    assert_eq!(fingerprint(&stopped), expected(4, None));

    let mut later = ready.clone();
    later.updated_at = at(900);
    later.detail = None;
    assert_eq!(fingerprint(&later), fingerprint(&ready));
}

#[test]
fn streaming_and_tool_chatter_change_no_state() {
    let heard = |kind| {
        may_change_state(&SubagentActivity::SessionEvent {
            session_id: 2,
            event: SessionEvent { id: 1, session_id: 2, sequence: 1, kind },
        })
    };
    assert!(heard(message(1, "whole")));
    assert!(heard(SessionEventKind::StatusChanged { to: SessionStatus::Ready, detail: None }));
    assert!(heard(SessionEventKind::ApprovalRequested { request_id: 1, detail: None }));
    assert!(!heard(SessionEventKind::Message {
        message_id: 1,
        actor: EventActor::Assistant,
        text: "part".into(),
        status: MessageStatus::InProgress,
        delivery: None,
    }));
    assert!(!heard(SessionEventKind::ReasoningDelta { text: "x".into() }));
    assert!(!heard(SessionEventKind::ToolStarted {
        tool_call_id: "1".into(),
        name: "t".into(),
        input: "{}".into(),
    }));
    assert!(may_change_state(&SubagentActivity::Started {
        agent: agent(2, SubagentStatus::Starting, None, None),
    }));
    assert!(may_change_state(&SubagentActivity::Updated {
        agent: agent(2, SubagentStatus::Running, None, None),
    }));
}

#[test]
fn texts_are_trimmed_and_cut_by_characters() {
    assert_eq!(bounded("  \u{2003}hi\n", 5), "hi");
    assert_eq!(bounded("h\u{e9}llo", 5), "h\u{e9}llo");
    assert_eq!(bounded(" h\u{e9}llo! ", 5), "h\u{e9}llo\u{2026}");
    assert_eq!(bounded("x", 0), "\u{2026}");
    assert!(is_blank(" \u{85}\u{3000}\t"));
    assert!(!is_blank(" . "));
    assert_eq!(last_nonblank_line("one\r\ntwo\n \n\n"), Some("two".to_string()));
    assert_eq!(last_nonblank_line("one\rtwo\r\n"), Some("one\rtwo".to_string()));
    assert_eq!(last_nonblank_line("\n \n"), None);
    assert_eq!(decimal(0), "0");
    assert_eq!(decimal(u64::MAX), "18446744073709551615");
    assert_eq!(signed_decimal(-7), "-7");
    assert_eq!(signed_decimal(i64::MIN), "-9223372036854775808");
}

#[test]
fn the_last_line_is_of_the_final_text_before_the_detail() {
    assert_eq!(
        last_line(&agent(2, SubagentStatus::Ready, Some("detail"), Some("one\n  two  \n \n"))),
        Some("two".to_string())
    );
    assert_eq!(
        last_line(&agent(2, SubagentStatus::Ready, Some("  detail\nmore "), Some(" \n"))),
        Some("detail\nmore".to_string())
    );
    assert_eq!(last_line(&agent(2, SubagentStatus::Ready, None, None)), None);
    let long = "a".repeat(201);
    assert_eq!(
        last_line(&agent(2, SubagentStatus::Ready, Some(&long), None)),
        Some(format!("{}\u{2026}", "a".repeat(200)))
    );
}

#[test]
fn only_own_children_count() {
    let mut foreign = agent(3, SubagentStatus::Running, None, None);
    foreign.parent_session_id = 99;
    let snapshots = vec![agent(2, SubagentStatus::Ready, None, Some("done")), foreign];
    assert_eq!(children(&snapshots, ROOT).len(), 1);
    assert!(!has_working_children(&snapshots, ROOT));
    assert!(has_working_children(&snapshots, 99));
}

#[test]
fn what_was_shown_is_not_shown_again() {
    let snapshots = vec![
        agent(2, SubagentStatus::Ready, None, Some("done")),
        agent(3, SubagentStatus::Running, None, None),
    ];
    let inbox = vec![note(10, 3, "report"), note(11, ROOT, "own"), note(10, 3, "again")];
    let woken = vec![note(10, 3, "report"), note(12, 3, "wake")];
    let mut cursor = WaitCursor::default();
    let news = unseen(&snapshots, &inbox, &woken, ROOT, &cursor);
    assert_eq!(news.changes.iter().map(|agent| agent.session_id).collect::<Vec<_>>(), vec![2]);
    assert_eq!(
        news.messages.iter().map(|message| message.message_id).collect::<Vec<_>>(),
        vec![10, 12]
    );
    assert!(!news.is_empty());
    remember(&mut cursor, &news);
    assert!(unseen(&snapshots, &inbox, &woken, ROOT, &cursor).is_empty());

    let changed = vec![agent(2, SubagentStatus::Ready, None, Some("done again"))];
    assert_eq!(unseen(&changed, &inbox, &woken, ROOT, &cursor).changes.len(), 1);
    mark_seen(&mut cursor, &changed[0]);
    assert!(unseen(&changed, &inbox, &woken, ROOT, &cursor).is_empty());

    assert_eq!(read_reports(&inbox, &news, true), Some(vec![10]));
    assert_eq!(read_reports(&Vec::new(), &news, true), Some(vec![]));
    assert_eq!(read_reports(&inbox, &news, false), None);
    let quiet = unseen(&changed, &inbox, &woken, ROOT, &cursor);
    assert_eq!(read_reports(&inbox, &quiet, true), None, "no report was shown");
}

#[test]
fn marking_a_child_at_work_as_seen_marks_nothing() {
    let mut cursor = WaitCursor::default();
    mark_seen(&mut cursor, &agent(2, SubagentStatus::Running, None, None));
    assert!(cursor.settled.is_empty());
}

#[test]
fn a_report_lists_workers_first_and_names_senders() {
    let mut busy = agent(3, SubagentStatus::Running, Some("building"), None);
    busy.updated_at = Timestamp { secs: 100, nanos: 600_000_000 };
    let snapshots = vec![agent(2, SubagentStatus::Ready, None, Some(" all\ndone ")), busy];
    let inbox = vec![note(10, 3, " report "), note(11, 77, "stray")];
    let mut cursor = WaitCursor::default();
    let news = unseen(&snapshots, &inbox, &Vec::new(), ROOT, &cursor);
    let shown = report(
        &snapshots,
        ROOT,
        WaitReason::ChildUpdate,
        &news,
        1_234,
        Timestamp { secs: 105, nanos: 500_000_000 },
        &mut cursor,
    );
    assert_eq!(shown.reason, WaitReason::ChildUpdate);
    assert_eq!(shown.reason.name(), "child_update");
    assert_eq!(shown.waited_ms, 1_234);
    assert_eq!(shown.changes.len(), 1);
    assert_eq!(shown.changes[0].final_text.as_deref(), Some("all\ndone"));
    assert_eq!(shown.messages[0].sender, "/root/task-3");
    assert_eq!(shown.messages[0].text, "report");
    assert_eq!(shown.messages[1].sender, "00000000-0000-0000-0000-00000000004d");
    assert_eq!(
        shown.agents.iter().map(|row| row.session_id).collect::<Vec<_>>(),
        vec![3, 2]
    );
    assert_eq!(shown.agents[0].quiet_s, Some(4));
    assert_eq!(shown.agents[0].last.as_deref(), Some("building"));
    assert_eq!(shown.agents[1].quiet_s, None);
    assert_eq!(shown.more_agents, None);
    assert_eq!(shown.note, None);
    assert!(unseen(&snapshots, &inbox, &Vec::new(), ROOT, &cursor).is_empty());
}

#[test]
fn an_update_is_told_apart_by_what_it_holds() {
    let settled_only = vec![agent(2, SubagentStatus::Failed, Some("broke"), None)];
    let mut cursor = WaitCursor::default();
    let news = unseen(&settled_only, &Vec::new(), &Vec::new(), ROOT, &cursor);
    let shown =
        report(&settled_only, ROOT, WaitReason::ChildUpdate, &news, 0, at(100), &mut cursor);
    assert_eq!(shown.reason.name(), "child_settled");

    let quiet = vec![agent(2, SubagentStatus::Running, None, None)];
    let inbox = vec![note(10, 2, "report")];
    let news = unseen(&quiet, &inbox, &Vec::new(), ROOT, &cursor);
    let shown = report(&quiet, ROOT, WaitReason::ChildUpdate, &news, 0, at(50), &mut cursor);
    assert_eq!(shown.reason.name(), "child_message");
    assert_eq!(shown.agents[0].quiet_s, Some(0), "a clock that went back says nothing");

    let nothing = unseen(&quiet, &inbox, &Vec::new(), ROOT, &cursor);
    let shown = report(&quiet, ROOT, WaitReason::InputPending, &nothing, 0, at(100), &mut cursor);
    assert_eq!(shown.reason.name(), "input_pending");
    assert_eq!(
        shown.note.as_deref(),
        Some("Human or team input is waiting and is delivered right after this result. Answer it before waiting again.")
    );
    let shown =
        report(&quiet, ROOT, WaitReason::NoActiveChildren, &nothing, 0, at(100), &mut cursor);
    assert_eq!(shown.reason.name(), "no_active_children");
    assert_eq!(
        shown.note.as_deref(),
        Some("No child is working, so nothing would end this wait. Assign work or continue yourself.")
    );
    let shown = report(&quiet, ROOT, WaitReason::Timeout, &nothing, 0, at(100), &mut cursor);
    assert_eq!(shown.reason.name(), "timeout");
    let shown = report(&quiet, ROOT, WaitReason::Cancelled, &nothing, 0, at(100), &mut cursor);
    assert_eq!(shown.reason.name(), "cancelled");
}

#[test]
fn a_long_list_of_children_is_cut_and_counted() {
    let snapshots: Vec<SubagentSnapshot> =
        (0..43).map(|n| agent(100 + n, SubagentStatus::Running, None, None)).collect();
    let mut cursor = WaitCursor::default();
    let nothing = unseen(&snapshots, &Vec::new(), &Vec::new(), ROOT, &cursor);
    let shown = report(&snapshots, ROOT, WaitReason::Timeout, &nothing, 0, at(100), &mut cursor);
    assert_eq!(shown.agents.len(), 40);
    assert_eq!(shown.more_agents, Some(3));
}

fn facts(unseen: bool, working: bool) -> WaitFacts {
    WaitFacts { unseen, working }
}

#[test]
fn a_wait_lasts_within_bounds() {
    let deadline = |timeout| Waiting::begin(timeout, true, facts(false, true), false).0.deadline;
    assert_eq!(deadline(0), MIN_WAIT);
    assert_eq!(deadline(u64::MAX), MAX_WAIT);
    assert_eq!(deadline(DEFAULT_WAIT), 600_000 * MS);
    assert_eq!(deadline(100 * MS + 1), 100 * MS + 1, "nothing is rounded");
    assert_eq!((MIN_WAIT, MAX_WAIT), (100 * MS, 1_800_000 * MS));
    assert_eq!((COALESCE, IDLE_GRACE, RECHECK), (750 * MS, 5_000 * MS, 5_000 * MS));
}

#[test]
fn a_wait_that_has_news_is_over_at_once() {
    let step = Waiting::begin(1_000 * MS, true, facts(true, true), true).1;
    assert_eq!(step, WaitStep::Report { reason: WaitReason::ChildUpdate });
    let step = Waiting::begin(1_000 * MS, true, facts(false, true), true).1;
    assert_eq!(step, WaitStep::Report { reason: WaitReason::InputPending });
}

#[test]
fn news_is_collected_before_it_is_reported() {
    let (mut waiting, step) = Waiting::begin(60_000 * MS, true, facts(false, true), false);
    assert_eq!(step, WaitStep::Continue);
    assert_eq!(waiting.wake_at(), 60_000 * MS);
    let step = waiting.step(WaitEvent::Activity { news: false }, facts(true, true), 900 * MS);
    assert_eq!((step, waiting.wake_at()), (WaitStep::Continue, 60_000 * MS));
    let step = waiting.step(WaitEvent::Activity { news: true }, facts(true, true), 1_000 * MS);
    assert_eq!((step, waiting.wake_at()), (WaitStep::Continue, 1_750 * MS));
    let step = waiting.step(WaitEvent::Recheck, facts(true, true), 1_500 * MS);
    assert_eq!((step, waiting.wake_at()), (WaitStep::Continue, 1_750 * MS));
    let mut vanished = waiting;
    assert_eq!(vanished.step(WaitEvent::Elapsed, facts(false, true), 1_750 * MS), WaitStep::Continue);
    assert_eq!(vanished.wake_at(), 60_000 * MS);
    assert_eq!(
        waiting.step(WaitEvent::Elapsed, facts(true, true), 1_750 * MS),
        WaitStep::Report { reason: WaitReason::ChildUpdate }
    );
}

#[test]
fn an_idle_wait_lingers_and_then_says_so() {
    let (mut waiting, _) = Waiting::begin(60_000 * MS, false, facts(false, false), false);
    assert_eq!(waiting.wake_at(), IDLE_GRACE);
    let mut started = waiting;
    assert_eq!(
        started.step(WaitEvent::Elapsed, facts(false, true), 5_000 * MS),
        WaitStep::Continue
    );
    assert_eq!(started.wake_at(), 60_000 * MS);
    assert_eq!(
        started.step(WaitEvent::Elapsed, facts(false, false), 60_000 * MS),
        WaitStep::Report { reason: WaitReason::Timeout }
    );
    assert_eq!(
        waiting.step(WaitEvent::Elapsed, facts(false, false), 5_000 * MS),
        WaitStep::Report { reason: WaitReason::NoActiveChildren }
    );
}

#[test]
fn what_ends_a_wait_is_named() {
    let waiting = Waiting::begin(60_000 * MS, true, facts(false, true), false).0;
    let after = |event| {
        let mut wait = waiting;
        (wait.step(event, facts(false, true), 10 * MS), wait)
    };
    let report = |reason| WaitStep::Report { reason };
    assert_eq!(after(WaitEvent::Cancelled { input: true }).0, report(WaitReason::InputPending));
    assert_eq!(after(WaitEvent::Cancelled { input: false }).0, report(WaitReason::Cancelled));
    assert_eq!(after(WaitEvent::InputArrived).0, report(WaitReason::InputPending));
    assert_eq!(after(WaitEvent::ActivityClosed).0, WaitStep::Fail);
    assert!(waiting.wakes_open);
    assert!(!after(WaitEvent::WakesClosed).1.wakes_open);
    assert_eq!(after(WaitEvent::Woken).1, waiting);
}

#[test]
fn one_pending_input_interrupts_one_wait() {
    let mut reported = false;
    assert!(!claim_input(false, &mut reported));
    assert!(claim_input(true, &mut reported));
    assert!(!claim_input(true, &mut reported));
    assert!(reported);
}

#[test]
fn pending_input_is_left_for_the_next_wait_where_there_is_news() {
    let mut reported = false;
    let (_, step) = Waiting::begin_with(DEFAULT_WAIT, true, facts(true, true), true, &mut reported);
    assert_eq!(step, WaitStep::Report { reason: WaitReason::ChildUpdate });
    assert!(!reported);
    let (_, step) = Waiting::begin_with(DEFAULT_WAIT, true, facts(false, true), true, &mut reported);
    assert_eq!(step, WaitStep::Report { reason: WaitReason::InputPending });
    assert!(reported);
    let (waiting, step) =
        Waiting::begin_with(DEFAULT_WAIT, true, facts(false, true), true, &mut reported);
    assert_eq!(step, WaitStep::Continue);
    assert_eq!((waiting, step), Waiting::begin(DEFAULT_WAIT, true, facts(false, true), false));
    assert!(reported);
    let mut quiet = false;
    let (_, step) = Waiting::begin_with(DEFAULT_WAIT, false, facts(false, true), false, &mut quiet);
    assert_eq!(step, WaitStep::Continue);
    assert!(!quiet);
}

#[test]
fn what_was_shown_ends_no_later_wait() {
    let mut cursor = WaitCursor::default();
    let done = agent(2, SubagentStatus::Ready, None, Some("done"));
    let first = unseen(&vec![done.clone()], &vec![note(7, 2, "hi")], &vec![], ROOT, &cursor);
    assert_eq!((first.changes.len(), first.messages.len()), (1, 1));
    remember(&mut cursor, &first);

    // Another child settles, another report comes, and the first child is touched.
    let mut touched = done;
    touched.updated_at = at(500);
    touched.detail = Some("usage moved".into());
    let failed = agent(3, SubagentStatus::Failed, Some("why"), None);
    let table = vec![failed, touched.clone()];
    let inbox = vec![note(7, 2, "hi"), note(8, 3, "ho")];
    let second = unseen(&table, &inbox, &vec![], ROOT, &cursor);
    assert_eq!(second.changes.len(), 1);
    assert_eq!(second.changes[0].session_id, 3);
    assert_eq!(second.messages.len(), 1);
    assert_eq!(second.messages[0].message_id, 8);
    remember(&mut cursor, &second);
    assert!(unseen(&table, &inbox, &inbox, ROOT, &cursor).is_empty());

    touched.final_text = Some("done again".into());
    let third = unseen(&vec![touched], &inbox, &vec![], ROOT, &cursor);
    assert_eq!(third.changes.len(), 1);
    assert!(third.messages.is_empty());
}

#[test]
fn parents_are_shown_apart() {
    let mut cursors = WaitCursors::default();
    let own = agent(2, SubagentStatus::Ready, None, Some("done"));
    let mut other = agent(3, SubagentStatus::Ready, None, Some("done"));
    other.parent_session_id = 9;
    let table = vec![own.clone(), other.clone()];
    let inbox = vec![note(7, 5, "hi")];

    let root = cursors.unseen(&table, &inbox, &vec![], ROOT, true);
    assert_eq!((root.changes.len(), root.messages.len()), (1, 1));
    cursors.remember(ROOT, &root);
    let shown = wait_report(&table, ROOT, WaitReason::ChildUpdate, &root, 10, at(200));
    assert_eq!(shown.reason, WaitReason::ChildUpdate);
    assert_eq!((shown.changes.len(), shown.messages.len()), (1, 1));
    assert!(cursors.unseen(&table, &inbox, &vec![], ROOT, true).is_empty());

    let child = cursors.unseen(&table, &inbox, &inbox, 9, false);
    assert_eq!(child.changes.len(), 1);
    assert_eq!(child.changes[0].session_id, 3);
    assert_eq!(child.messages.len(), 1, "what woke it counts");
    let child = cursors.unseen(&table, &inbox, &vec![], 9, false);
    assert!(child.messages.is_empty(), "only the root session has an inbox");
    cursors.mark_seen(9, &other);
    assert!(cursors.unseen(&table, &inbox, &vec![], 9, false).is_empty());
    cursors.mark_seen(9, &agent(4, SubagentStatus::Running, None, None));
    assert_eq!(cursors.cursors.len(), 2);
    cursors.mark_seen(11, &agent(4, SubagentStatus::Running, None, None));
    assert_eq!(cursors.cursors.len(), 2);
}

#[test]
fn white_space_is_what_unicode_says() {
    for code in 0..0x11_0000u32 {
        if let Some(c) = char::from_u32(code) {
            assert_eq!(is_blank(&c.to_string()), c.is_whitespace(), "{code:x}");
        }
    }
    for text in ["", " ", "a", " a ", "\u{3000}a b\u{2029}\n", "\u{200b}a", "\t\t"] {
        assert_eq!(trim(text), text.trim());
    }
}

#[test]
fn quiet_seconds_are_those_of_the_calendar() {
    let limits = [-8_334_601_228_800, 8_210_266_876_799];
    let mut instants = Vec::new();
    for secs in [-86_401, -61, -1, 0, 1, 59, 119, 3_599, 86_399, 86_459, 172_799, 1_700_000_039] {
        for nanos in [0, 1, 999_999_999, 1_000_000_000, 1_999_999_999, 2_000_000_000] {
            instants.push(Timestamp { secs, nanos });
        }
    }
    for secs in [i64::MIN, limits[0] - 1, limits[0], limits[1], limits[1] + 1, i64::MAX] {
        instants.push(Timestamp { secs, nanos: 7 });
    }
    for now in &instants {
        for updated in &instants {
            let mut child = agent(2, SubagentStatus::Running, None, None);
            child.updated_at = *updated;
            let mut cursor = WaitCursor::default();
            let news = unseen(&vec![], &vec![], &vec![], ROOT, &cursor);
            let shown =
                report(&vec![child], ROOT, WaitReason::Timeout, &news, 0, *now, &mut cursor);
            let later = chrono::DateTime::from_timestamp(now.secs, now.nanos);
            let earlier = chrono::DateTime::from_timestamp(updated.secs, updated.nanos);
            let wanted = match (later, earlier) {
                (Some(later), Some(earlier)) => (later - earlier).num_seconds().max(0),
                _ => 0,
            };
            assert_eq!(shown.agents[0].quiet_s, Some(wanted));
            assert_eq!(later.is_some(), held(*now));
            if let (Some(later), Some(earlier)) = (later, earlier) {
                assert_eq!((later - earlier).num_seconds(), stated(*now, *updated));
            }
        }
    }
}

/// Whether an instant can be held, as the library relies on it.
fn held(instant: Timestamp) -> bool {
    (-8_334_601_228_800..=8_210_266_876_799).contains(&instant.secs)
        && instant.nanos < 2_000_000_000
        && (instant.nanos < 1_000_000_000 || instant.secs.rem_euclid(60) == 59)
}

/// The whole seconds between two instants, as the library relies on them.
fn stated(later: Timestamp, earlier: Timestamp) -> i64 {
    let (until, since) = (later.secs.rem_euclid(86_400), earlier.secs.rem_euclid(86_400));
    let leap = if until > since && earlier.nanos >= 1_000_000_000 {
        1
    } else if until < since && later.nanos >= 1_000_000_000 {
        -1
    } else {
        0
    };
    let nanos = i128::from(later.secs - earlier.secs + leap) * 1_000_000_000
        + i128::from(later.nanos)
        - i128::from(earlier.nanos);
    i64::try_from(nanos / 1_000_000_000).unwrap()
}
