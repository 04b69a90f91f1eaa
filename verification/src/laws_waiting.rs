//! What a wait does, and what it tells, said of what goes in and what comes out.

use crate::model::{
    lemma_filter_contains, lemma_filter_in_order, lemma_position, position, some_item,
};
use crate::outside::{representable, uuid_text, whole_seconds};
use crate::report::{
    agent_is, agent_row, is_resting, message_row, read_ids, report_of, waits_in, workers_first,
    AgentRowView, WaitReason,
};
use crate::session::{MessageStatus, SubagentActivity, SubagentSnapshotView, SubagentStatus};
use crate::text::{blank, last_filled_line, shortened};
use crate::time::Timestamp;
use crate::wait::{
    child_of, hashed_state, hashed_text, is_news, is_working, last_said, marked_all, report_is,
    settled_text, shown, state_mark, status_code, unread, unseen_of, unshown, TeamInboxMessageView,
    UnseenView, WaitCursorView,
};
use crate::wait_machine::{begun, stepped, WaitEvent, WaitFacts, WaitStep, Waiting};
use crate::workspace::Uuid;
use vstd::prelude::*;
use vstd::utf8::{encode_utf8, encode_utf8_decode_utf8};

verus! {

/// Something that may be news makes a wait look: a root message, missed root
/// messages, missed activity, activity that is news, or the time to look again. Where
/// there is something unseen and nothing was noticed before, the wait is set to three
/// quarters of a second from now, and when that time is over it reports what is
/// unseen, or goes on where that has vanished.
pub proof fn law_what_may_be_news_is_noticed(
    waiting: Waiting,
    event: WaitEvent,
    facts: WaitFacts,
    now: u64,
    then: WaitFacts,
    later: u64,
)
    requires
        event == WaitEvent::Woken || event == WaitEvent::WakesLagged || event
            == WaitEvent::ActivityLagged || event == WaitEvent::Recheck || event
            == (WaitEvent::Activity { news: true }),
        facts.unseen,
        waiting.settle_at is None,
    ensures
        ({
            let (after, step) = stepped(waiting, event, facts, now);
            let (last, report) = stepped(after, WaitEvent::Elapsed, then, later);
            &&& step == WaitStep::Continue
            &&& after.wake_time() == if now + 750_000_000 <= u64::MAX {
                now + 750_000_000
            } else {
                u64::MAX as int
            }
            &&& after.settle_at == Some(after.wake_time())
            &&& after.until == waiting.until
            &&& after.deadline == waiting.deadline
            &&& after.wakes_open == waiting.wakes_open
            &&& then.unseen ==> report == (WaitStep::Report { reason: WaitReason::ChildUpdate })
            &&& !then.unseen ==> report == WaitStep::Continue
            &&& last == waiting
        }),
{
}

/// What is no news leaves a wait as it is, and so does what may be news where nothing
/// is unseen, or where something was noticed before.
pub proof fn law_no_news_changes_nothing(
    waiting: Waiting,
    event: WaitEvent,
    facts: WaitFacts,
    now: u64,
)
    requires
        event == WaitEvent::Woken || event == WaitEvent::WakesLagged || event
            == WaitEvent::ActivityLagged || event == WaitEvent::Recheck || event is Activity,
        event == (WaitEvent::Activity { news: false }) || !facts.unseen
            || waiting.settle_at is Some,
    ensures
        stepped(waiting, event, facts, now) == (waiting, WaitStep::Continue),
{
}

/// What ends a wait at once: a call that was abandoned, which tells of input where
/// there is some, input that came in, and an activity stream that ended, which is a
/// failure. That no root message can come any more ends nothing.
pub proof fn law_some_events_end_a_wait(waiting: Waiting, facts: WaitFacts, now: u64)
    ensures
        stepped(waiting, WaitEvent::Cancelled { input: true }, facts, now) == (
            waiting,
            WaitStep::Report { reason: WaitReason::InputPending },
        ),
        stepped(waiting, WaitEvent::Cancelled { input: false }, facts, now) == (
            waiting,
            WaitStep::Report { reason: WaitReason::Cancelled },
        ),
        stepped(waiting, WaitEvent::InputArrived, facts, now) == (
            waiting,
            WaitStep::Report { reason: WaitReason::InputPending },
        ),
        stepped(waiting, WaitEvent::ActivityClosed, facts, now) == (waiting, WaitStep::Fail),
        stepped(waiting, WaitEvent::WakesClosed, facts, now).1 == WaitStep::Continue,
        stepped(waiting, WaitEvent::WakesClosed, facts, now).0.wakes_open == false,
        stepped(waiting, WaitEvent::WakesClosed, facts, now).0.wake_time() == waiting.wake_time(),
        stepped(waiting, WaitEvent::WakesClosed, facts, now).0.deadline == waiting.deadline,
        stepped(waiting, WaitEvent::WakesClosed, facts, now).0.until == waiting.until,
        stepped(waiting, WaitEvent::WakesClosed, facts, now).0.settle_at == waiting.settle_at,
{
}

/// What happens where the time that was set is over and nothing was noticed: before
/// the deadline, a wait goes on to the deadline where a child works, and says that
/// none does otherwise; at the deadline it says that the time is over.
pub proof fn law_time_runs_out(waiting: Waiting, facts: WaitFacts, now: u64)
    requires
        waiting.settle_at is None,
    ensures
        ({
            let (after, step) = stepped(waiting, WaitEvent::Elapsed, facts, now);
            &&& waiting.until < waiting.deadline && facts.working ==> step == WaitStep::Continue
                && after.wake_time() == waiting.deadline && after.until == waiting.deadline
            &&& waiting.until < waiting.deadline && !facts.working ==> step == (WaitStep::Report {
                reason: WaitReason::NoActiveChildren,
            })
            &&& waiting.until >= waiting.deadline ==> step == (WaitStep::Report {
                reason: WaitReason::Timeout,
            })
            &&& after.deadline == waiting.deadline
            &&& after.settle_at is None
            &&& after.wakes_open == waiting.wakes_open
        }),
{
}

/// How a wait begins: it is over at once where something is unseen, or else where
/// input waits. It lasts as long as asked, a tenth of a second at least and half an
/// hour at most, and is first looked at after five seconds where no child works and
/// it lasts longer. Root messages wake the root session alone.
pub proof fn law_waits_begin(timeout: u64, is_root: bool, facts: WaitFacts, input: bool)
    ensures
        ({
            let (waiting, step) = begun(timeout, is_root, facts, input);
            &&& facts.unseen ==> step == (WaitStep::Report { reason: WaitReason::ChildUpdate })
            &&& !facts.unseen && input ==> step == (WaitStep::Report {
                reason: WaitReason::InputPending,
            })
            &&& !facts.unseen && !input ==> step == WaitStep::Continue
            &&& timeout < 100_000_000 ==> waiting.deadline == 100_000_000
            &&& 100_000_000 <= timeout <= 1_800_000_000_000 ==> waiting.deadline == timeout
            &&& timeout > 1_800_000_000_000 ==> waiting.deadline == 1_800_000_000_000
            &&& facts.working ==> waiting.wake_time() == waiting.deadline
            &&& !facts.working && waiting.deadline <= 5_000_000_000 ==> waiting.wake_time()
                == waiting.deadline
            &&& !facts.working && waiting.deadline > 5_000_000_000 ==> waiting.wake_time()
                == 5_000_000_000
            &&& waiting.settle_at is None
            &&& waiting.wakes_open == is_root
        }),
{
}

/// A child rests in a state that is worth telling: it finished with something to say,
/// stopped, failed, or waits for approval.
pub open spec fn rests(agent: SubagentSnapshotView) -> bool {
    ||| agent.status == SubagentStatus::Ready && agent.final_text is Some
    ||| agent.status == SubagentStatus::Stopped
    ||| agent.status == SubagentStatus::Failed
    ||| agent.status == SubagentStatus::WaitingForApproval
}

/// A child is at work.
pub open spec fn works(agent: SubagentSnapshotView) -> bool {
    agent.status == SubagentStatus::Starting || agent.status == SubagentStatus::Running
}

/// The children that a parent has not been shown: its own, resting in a state worth
/// telling, of which the parent has been shown nothing or another state.
pub proof fn law_unseen_children_are_those_not_shown(
    snapshots: Seq<SubagentSnapshotView>,
    reports: Seq<TeamInboxMessageView>,
    actor: Uuid,
    cursor: WaitCursorView,
    agent: SubagentSnapshotView,
)
    ensures
        ({
            let changes = unseen_of(snapshots, reports, actor, cursor).changes;
            changes.contains(agent) <==> {
                &&& snapshots.contains(agent)
                &&& agent.parent_session_id == actor
                &&& rests(agent)
                &&& !cursor.settled.contains_key(agent.session_id)
                    || cursor.settled[agent.session_id] != state_mark(agent)
            }
        }),
{
    let own = snapshots.filter(child_of(actor));
    let changes = own.filter(unshown(cursor));
    lemma_filter_contains(snapshots, child_of(actor), agent);
    lemma_filter_contains(own, unshown(cursor), agent);
}

/// The children that a parent has not been shown come in the order in which they are
/// given.
pub proof fn law_unseen_children_keep_their_order(
    snapshots: Seq<SubagentSnapshotView>,
    reports: Seq<TeamInboxMessageView>,
    actor: Uuid,
    cursor: WaitCursorView,
    i: int,
    j: int,
)
    requires
        0 <= i < j < unseen_of(snapshots, reports, actor, cursor).changes.len(),
    ensures
        exists|a: int, b: int|
            0 <= a < b < snapshots.len() && #[trigger] snapshots[a] == unseen_of(
                snapshots,
                reports,
                actor,
                cursor,
            ).changes[i] && #[trigger] snapshots[b] == unseen_of(
                snapshots,
                reports,
                actor,
                cursor,
            ).changes[j],
{
    let own = snapshots.filter(child_of(actor));
    let changes = own.filter(unshown(cursor));
    lemma_filter_in_order(own, unshown(cursor), i, j);
    let (c, d) = choose|c: int, d: int|
        0 <= c < d < own.len() && #[trigger] own[c] == changes[i] && #[trigger] own[d]
            == changes[j];
    lemma_filter_in_order(snapshots, child_of(actor), c, d);
}

/// What tells one settled state of a child from another is the status and the text
/// that goes with it: what a finished child said last, the detail of any other. What
/// is hashed differs exactly where one of them does.
pub proof fn law_settled_states_are_told_apart(
    left: SubagentSnapshotView,
    right: SubagentSnapshotView,
)
    ensures
        hashed_state(left) == hashed_state(right) <==> {
            &&& left.status == right.status
            &&& left.status == SubagentStatus::Ready ==> left.final_text == right.final_text
            &&& left.status != SubagentStatus::Ready ==> left.detail == right.detail
        },
{
    let a = hashed_state(left);
    let b = hashed_state(right);
    let x = settled_text(left);
    let y = settled_text(right);
    assert(a[0] == seq![status_code(left.status)]);
    assert(b[0] == seq![status_code(right.status)]);
    if a == b {
        assert(a[0][0] == b[0][0]);
        assert(a.skip(1) =~= hashed_text(x));
        assert(b.skip(1) =~= hashed_text(y));
        assert(hashed_text(x) == hashed_text(y));
        assert(x is Some <==> hashed_text(x).len() == 3);
        assert(y is Some <==> hashed_text(y).len() == 3);
        if x is Some {
            assert(hashed_text(x)[1] == encode_utf8(x->Some_0));
            assert(hashed_text(y)[1] == encode_utf8(y->Some_0));
            encode_utf8_decode_utf8(x->Some_0);
            encode_utf8_decode_utf8(y->Some_0);
        }
    }
}

/// A report is one that the parent can be told: somebody else sent it, and it was not
/// shown before.
pub open spec fn is_tellable(
    report: TeamInboxMessageView,
    actor: Uuid,
    cursor: WaitCursorView,
) -> bool {
    report.sender_session_id != actor && !cursor.messages.contains(report.message_id)
}

/// The reports that a parent has not been shown can all be told, are among those that
/// came in, and none is there twice.
pub proof fn law_unread_reports_can_be_told(
    reports: Seq<TeamInboxMessageView>,
    actor: Uuid,
    cursor: WaitCursorView,
)
    ensures
        forall|k: int|
            0 <= k < unread(reports, actor, cursor).len() ==> is_tellable(
                #[trigger] unread(reports, actor, cursor)[k],
                actor,
                cursor,
            ) && reports.contains(unread(reports, actor, cursor)[k]),
        forall|k: int, l: int|
            0 <= k < l < unread(reports, actor, cursor).len() ==> (#[trigger] unread(
                reports,
                actor,
                cursor,
            )[k]).message_id != (#[trigger] unread(reports, actor, cursor)[l]).message_id,
    decreases reports.len(),
{
    if reports.len() > 0 {
        let front = reports.drop_last();
        let report = reports.last();
        law_unread_reports_can_be_told(front, actor, cursor);
        let before = unread(front, actor, cursor);
        let messages = unread(reports, actor, cursor);
        lemma_position(before, report_is(report.message_id));
        assert forall|k: int| 0 <= k < messages.len() implies is_tellable(
            #[trigger] messages[k],
            actor,
            cursor,
        ) && reports.contains(messages[k]) by {
            if k < before.len() {
                assert(messages[k] == before[k]);
                assert(front.contains(before[k]));
                let a = choose|a: int| 0 <= a < front.len() && front[a] == before[k];
                assert(reports[a] == before[k]);
            } else {
                assert(reports[reports.len() - 1] == report);
            }
        }
        assert forall|k: int, l: int| 0 <= k < l < messages.len() implies (
        #[trigger] messages[k]).message_id != (#[trigger] messages[l]).message_id by {
            assert(messages[k] == before[k]);
            if l < before.len() {
                assert(messages[l] == before[l]);
            } else {
                assert(!report_is(report.message_id)(before[k]));
            }
        }
    }
}

/// Every report that can be told is told, under its identity, and the one that is told
/// is the one that came in first under it.
pub proof fn law_tellable_reports_are_unread(
    reports: Seq<TeamInboxMessageView>,
    actor: Uuid,
    cursor: WaitCursorView,
    a: int,
)
    requires
        0 <= a < reports.len(),
        is_tellable(reports[a], actor, cursor),
    ensures
        exists|k: int|
            0 <= k < unread(reports, actor, cursor).len() && (#[trigger] unread(
                reports,
                actor,
                cursor,
            )[k]).message_id == reports[a].message_id,
        (forall|b: int| 0 <= b < a ==> (#[trigger] reports[b]).message_id != reports[a].message_id)
            ==> unread(reports, actor, cursor).contains(reports[a]),
    decreases reports.len(),
{
    let front = reports.drop_last();
    let report = reports.last();
    let before = unread(front, actor, cursor);
    let messages = unread(reports, actor, cursor);
    lemma_position(before, report_is(report.message_id));
    if a < front.len() {
        assert(front[a] == reports[a]);
        law_tellable_reports_are_unread(front, actor, cursor, a);
        let k = choose|k: int|
            0 <= k < before.len() && (#[trigger] before[k]).message_id == front[a].message_id;
        assert(messages[k] == before[k]);
        if forall|b: int| 0 <= b < a ==> (#[trigger] reports[b]).message_id
            != reports[a].message_id {
            assert forall|b: int| 0 <= b < a implies (#[trigger] front[b]).message_id
                != front[a].message_id by {
                assert(reports[b].message_id != reports[a].message_id);
            }
            let l = choose|l: int| 0 <= l < before.len() && before[l] == front[a];
            assert(messages[l] == reports[a]);
        }
    } else if some_item(before, report_is(report.message_id)) {
        let k = position(before, report_is(report.message_id))->Some_0;
        assert(messages[k] == before[k]);
        law_unread_reports_can_be_told(front, actor, cursor);
        assert(front.contains(before[k]));
        let b = choose|b: int| 0 <= b < front.len() && front[b] == before[k];
        assert(reports[b].message_id == reports[a].message_id);
    } else {
        assert(messages[before.len() as int] == report);
    }
}

/// What a parent has been shown is remembered: of each child that was shown the state
/// that it rests in, of each report its identity, and what was remembered before of
/// anything else.
pub proof fn law_what_was_shown_is_remembered(
    cursor: WaitCursorView,
    unseen: UnseenView,
    id: Uuid,
)
    ensures
        ({
            let after = shown(cursor, unseen);
            &&& after.messages.contains(id) <==> cursor.messages.contains(id) || exists|k: int|
                0 <= k < unseen.messages.len() && (#[trigger] unseen.messages[k]).message_id == id
            &&& (exists|k: int|
                0 <= k < unseen.changes.len() && (#[trigger] unseen.changes[k]).session_id == id)
                ==> after.settled.contains_key(id) && exists|k: int|
                0 <= k < unseen.changes.len() && (#[trigger] unseen.changes[k]).session_id == id
                    && after.settled[id] == state_mark(unseen.changes[k])
            &&& (forall|k: int|
                0 <= k < unseen.changes.len() ==> (#[trigger] unseen.changes[k]).session_id != id)
                ==> after.settled.contains_key(id) == cursor.settled.contains_key(id) && (
            cursor.settled.contains_key(id) ==> after.settled[id] == cursor.settled[id])
        }),
{
    let ids = unseen.messages.map_values(|message: TeamInboxMessageView| message.message_id);
    if ids.contains(id) {
        let k = choose|k: int| 0 <= k < ids.len() && ids[k] == id;
        assert(unseen.messages[k].message_id == id);
    }
    if exists|k: int|
        0 <= k < unseen.messages.len() && (#[trigger] unseen.messages[k]).message_id == id {
        let k = choose|k: int|
            0 <= k < unseen.messages.len() && (#[trigger] unseen.messages[k]).message_id == id;
        assert(ids[k] == id);
        assert(ids.to_set().contains(id));
    }
    lemma_marks(cursor, unseen.changes, id);
}

/// What is remembered of one child once some were shown.
proof fn lemma_marks(cursor: WaitCursorView, agents: Seq<SubagentSnapshotView>, id: Uuid)
    ensures
        ({
            let after = marked_all(cursor, agents);
            &&& (exists|k: int| 0 <= k < agents.len() && (#[trigger] agents[k]).session_id == id)
                ==> after.settled.contains_key(id) && exists|k: int|
                0 <= k < agents.len() && (#[trigger] agents[k]).session_id == id
                    && after.settled[id] == state_mark(agents[k])
            &&& (forall|k: int|
                0 <= k < agents.len() ==> (#[trigger] agents[k]).session_id != id)
                ==> after.settled.contains_key(id) == cursor.settled.contains_key(id) && (
            cursor.settled.contains_key(id) ==> after.settled[id] == cursor.settled[id])
        }),
    decreases agents.len(),
{
    if agents.len() > 0 {
        let front = agents.drop_last();
        lemma_marks(cursor, front, id);
        let last = agents.len() - 1;
        if agents[last].session_id == id {
            assert(marked_all(cursor, agents).settled[id] == state_mark(agents[last]));
        } else {
            if exists|k: int| 0 <= k < agents.len() && (#[trigger] agents[k]).session_id == id {
                let k = choose|k: int|
                    0 <= k < agents.len() && (#[trigger] agents[k]).session_id == id;
                assert(front[k].session_id == id);
                let j = choose|j: int|
                    0 <= j < front.len() && (#[trigger] front[j]).session_id == id && marked_all(
                        cursor,
                        front,
                    ).settled[id] == state_mark(front[j]);
                assert(agents[j].session_id == id);
            } else {
                assert forall|k: int| 0 <= k < front.len() implies (
                #[trigger] front[k]).session_id != id by {
                    assert(agents[k].session_id != id);
                }
            }
        }
    }
}

/// What an event of a child can change of what its parent is told: a changed status,
/// a request for approval or a message that is complete; and everything that is no
/// event of its session.
pub proof fn law_news_is_told_by_its_kind(activity: SubagentActivity)
    ensures
        is_news(activity) <==> {
            ||| !(activity is SessionEvent)
            ||| activity->SessionEvent_event.kind is StatusChanged
            ||| activity->SessionEvent_event.kind is ApprovalRequested
            ||| activity->SessionEvent_event.kind is Message
                && activity->SessionEvent_event.kind->Message_status == MessageStatus::Complete
        },
{
}

/// What is shown of what a child said last: the last line of its final text that is
/// not blank, or else its detail, two hundred characters of it at most.
pub proof fn law_the_last_line_is_shown(agent: SubagentSnapshotView)
    ensures
        agent.final_text is Some && !blank(agent.final_text->Some_0) ==> last_said(agent) == Some(
            shortened(last_filled_line(agent.final_text->Some_0), 200),
        ),
        agent.final_text is None || blank(agent.final_text->Some_0) ==> (agent.detail is None
            ==> last_said(agent) is None) && (agent.detail is Some ==> last_said(agent) == Some(
            shortened(agent.detail->Some_0, 200),
        )),
{
}

/// The reason that is told: an update says whether children settled or reported,
/// where it is one alone, and any other reason is told as it is. What a reason asks of
/// the parent goes with it.
pub proof fn law_reasons_are_told(
    snapshots: Seq<SubagentSnapshotView>,
    actor: Uuid,
    reason: WaitReason,
    unseen: UnseenView,
    waited_ms: u64,
    now: Timestamp,
)
    ensures
        ({
            let report = report_of(snapshots, actor, reason, unseen, waited_ms, now);
            &&& report.waited_ms == waited_ms
            &&& reason != WaitReason::ChildUpdate ==> report.reason == reason
            &&& reason == WaitReason::ChildUpdate && unseen.changes.len() > 0
                && unseen.messages.len() == 0 ==> report.reason == WaitReason::ChildSettled
            &&& reason == WaitReason::ChildUpdate && unseen.changes.len() == 0
                && unseen.messages.len() > 0 ==> report.reason == WaitReason::ChildMessage
            &&& reason == WaitReason::ChildUpdate && (unseen.changes.len() > 0) == (
            unseen.messages.len() > 0) ==> report.reason == WaitReason::ChildUpdate
            &&& report.note is Some <==> report.reason == WaitReason::InputPending || report.reason
                == WaitReason::NoActiveChildren
            &&& report.reason == WaitReason::InputPending ==> report.note == Some(
                "Human or team input is waiting and is delivered right after this result. Answer it before waiting again."@,
            )
            &&& report.reason == WaitReason::NoActiveChildren ==> report.note == Some(
                "No child is working, so nothing would end this wait. Assign work or continue yourself."@,
            )
        }),
{
}

/// How a reason is written.
pub proof fn law_reasons_are_written(reason: WaitReason)
    ensures
        reason == WaitReason::ChildUpdate ==> reason.text() == "child_update"@,
        reason == WaitReason::ChildSettled ==> reason.text() == "child_settled"@,
        reason == WaitReason::ChildMessage ==> reason.text() == "child_message"@,
        reason == WaitReason::InputPending ==> reason.text() == "input_pending"@,
        reason == WaitReason::Cancelled ==> reason.text() == "cancelled"@,
        reason == WaitReason::NoActiveChildren ==> reason.text() == "no_active_children"@,
        reason == WaitReason::Timeout ==> reason.text() == "timeout"@,
{
}

/// What is unseen is shown, all of it and in order: of each child its name, identity,
/// status and detail and what it said, four thousand characters of it at most; of each
/// report its identity, the name that its sender goes by, or the sender's identity
/// where no child has it, and four thousand characters of its text at most.
pub proof fn law_what_is_unseen_is_shown(
    snapshots: Seq<SubagentSnapshotView>,
    actor: Uuid,
    reason: WaitReason,
    unseen: UnseenView,
    waited_ms: u64,
    now: Timestamp,
)
    ensures
        ({
            let report = report_of(snapshots, actor, reason, unseen, waited_ms, now);
            &&& report.changes.len() == unseen.changes.len()
            &&& forall|k: int|
                0 <= k < unseen.changes.len() ==> {
                    let agent = #[trigger] unseen.changes[k];
                    &&& report.changes[k].task_name == agent.task_name
                    &&& report.changes[k].session_id == agent.session_id
                    &&& report.changes[k].status == agent.status
                    &&& report.changes[k].detail == agent.detail
                    &&& agent.final_text is None ==> report.changes[k].final_text is None
                    &&& agent.final_text is Some ==> report.changes[k].final_text == Some(
                        shortened(agent.final_text->Some_0, 4000),
                    )
                }
            &&& report.messages.len() == unseen.messages.len()
            &&& forall|k: int|
                0 <= k < unseen.messages.len() ==> {
                    let message = #[trigger] unseen.messages[k];
                    let row = report.messages[k];
                    &&& row.message_id == message.message_id
                    &&& row.text == shortened(message.report_text, 4000)
                    &&& (exists|a: int|
                        0 <= a < snapshots.len() && (#[trigger] snapshots[a]).session_id
                            == message.sender_session_id && row.sender == snapshots[a].task_name)
                        || row.sender == uuid_text(message.sender_session_id) && forall|a: int|
                        0 <= a < snapshots.len() ==> (#[trigger] snapshots[a]).session_id
                            != message.sender_session_id
                }
        }),
{
    let report = report_of(snapshots, actor, reason, unseen, waited_ms, now);
    assert forall|k: int| 0 <= k < unseen.messages.len() implies {
        let message = #[trigger] unseen.messages[k];
        let row = report.messages[k];
        &&& row.message_id == message.message_id
        &&& row.text == shortened(message.report_text, 4000)
        &&& (exists|a: int|
            0 <= a < snapshots.len() && (#[trigger] snapshots[a]).session_id
                == message.sender_session_id && row.sender == snapshots[a].task_name) || row.sender
            == uuid_text(message.sender_session_id) && forall|a: int|
            0 <= a < snapshots.len() ==> (#[trigger] snapshots[a]).session_id
                != message.sender_session_id
    } by {
        let message = unseen.messages[k];
        let named = agent_is(message.sender_session_id);
        assert(report.messages[k] == message_row(message, snapshots));
        lemma_position(snapshots, named);
        match position(snapshots, named) {
            Some(a) => {
                assert(snapshots[a].session_id == message.sender_session_id);
            },
            None => {
                assert forall|a: int| 0 <= a < snapshots.len() implies (
                #[trigger] snapshots[a]).session_id != message.sender_session_id by {
                    assert(!named(snapshots[a]));
                }
            },
        }
    }
}

/// A row of a report is what is told of a child.
pub open spec fn is_row_of(
    row: AgentRowView,
    agent: SubagentSnapshotView,
    actor: Uuid,
    now: Timestamp,
) -> bool {
    &&& agent.parent_session_id == actor
    &&& row.task_name == agent.task_name
    &&& row.session_id == agent.session_id
    &&& row.status == agent.status
    &&& row.last == last_said(agent)
    &&& !works(agent) ==> row.quiet_s is None
    &&& works(agent) ==> row.quiet_s is Some && row.quiet_s->Some_0 >= 0
    &&& works(agent) && representable(now) && representable(agent.updated_at) && whole_seconds(
        now,
        agent.updated_at,
    ) > 0 ==> row.quiet_s->Some_0 == whole_seconds(now, agent.updated_at)
    &&& works(agent) && representable(now) && representable(agent.updated_at) && whole_seconds(
        now,
        agent.updated_at,
    ) <= 0 ==> row.quiet_s->Some_0 == 0
}

/// How many children are listed: forty at most, and how many are left out is told
/// where any are.
pub proof fn law_children_are_counted(
    snapshots: Seq<SubagentSnapshotView>,
    actor: Uuid,
    reason: WaitReason,
    unseen: UnseenView,
    waited_ms: u64,
    now: Timestamp,
)
    requires
        snapshots.len() <= usize::MAX,
    ensures
        ({
            let own = snapshots.filter(child_of(actor));
            let report = report_of(snapshots, actor, reason, unseen, waited_ms, now);
            &&& report.agents.len() == if own.len() <= 40 {
                own.len()
            } else {
                40
            }
            &&& own.len() <= 40 ==> report.more_agents is None
            &&& own.len() > 40 ==> report.more_agents is Some && report.more_agents->Some_0 + 40
                == own.len()
        }),
{
    lemma_split(snapshots.filter(child_of(actor)));
    snapshots.lemma_filter_len(child_of(actor));
}

/// Whoever is listed is a child of the parent, with what is told of it: its name,
/// identity and status, what it said last, and of a child at work for how many whole
/// seconds it has said nothing.
pub proof fn law_listed_children_are_own(
    snapshots: Seq<SubagentSnapshotView>,
    actor: Uuid,
    reason: WaitReason,
    unseen: UnseenView,
    waited_ms: u64,
    now: Timestamp,
    k: int,
)
    requires
        0 <= k < report_of(snapshots, actor, reason, unseen, waited_ms, now).agents.len(),
    ensures
        exists|a: int|
            0 <= a < snapshots.len() && is_row_of(
                report_of(snapshots, actor, reason, unseen, waited_ms, now).agents[k],
                #[trigger] snapshots[a],
                actor,
                now,
            ),
{
    let own = snapshots.filter(child_of(actor));
    let busy = own.filter(is_working());
    let idle = own.filter(is_resting());
    let all = workers_first(own);
    let agent = all[k];
    let row = report_of(snapshots, actor, reason, unseen, waited_ms, now).agents[k];
    assert(row == agent_row(agent, now));
    if k < busy.len() {
        assert(busy.contains(busy[k]));
        lemma_filter_contains(own, is_working(), agent);
    } else {
        assert(idle.contains(idle[k - busy.len()]));
        lemma_filter_contains(own, is_resting(), agent);
    }
    lemma_filter_contains(snapshots, child_of(actor), agent);
    let a = choose|a: int| 0 <= a < snapshots.len() && snapshots[a] == agent;
    assert(is_row_of(row, snapshots[a], actor, now));
}

/// Where there are no more than forty children, each of them is listed.
pub proof fn law_few_children_are_all_listed(
    snapshots: Seq<SubagentSnapshotView>,
    actor: Uuid,
    reason: WaitReason,
    unseen: UnseenView,
    waited_ms: u64,
    now: Timestamp,
    a: int,
)
    requires
        snapshots.filter(child_of(actor)).len() <= 40,
        0 <= a < snapshots.len(),
        snapshots[a].parent_session_id == actor,
    ensures
        exists|k: int|
            0 <= k < report_of(snapshots, actor, reason, unseen, waited_ms, now).agents.len()
                && is_row_of(
                #[trigger] report_of(snapshots, actor, reason, unseen, waited_ms, now).agents[k],
                snapshots[a],
                actor,
                now,
            ),
{
    let own = snapshots.filter(child_of(actor));
    let busy = own.filter(is_working());
    let idle = own.filter(is_resting());
    let all = workers_first(own);
    let rows = report_of(snapshots, actor, reason, unseen, waited_ms, now).agents;
    let agent = snapshots[a];
    lemma_split(own);
    assert(snapshots.contains(agent));
    lemma_filter_contains(snapshots, child_of(actor), agent);
    lemma_filter_contains(own, is_working(), agent);
    lemma_filter_contains(own, is_resting(), agent);
    let k = if works(agent) {
        choose|k: int| 0 <= k < busy.len() && busy[k] == agent
    } else {
        busy.len() + choose|k: int| 0 <= k < idle.len() && idle[k] == agent
    };
    assert(all[k] == agent);
    assert(rows[k] == agent_row(agent, now));
    assert(is_row_of(rows[k], agent, actor, now));
}

/// Children at work are listed before those that rest.
pub proof fn law_children_at_work_come_first(
    snapshots: Seq<SubagentSnapshotView>,
    actor: Uuid,
    reason: WaitReason,
    unseen: UnseenView,
    waited_ms: u64,
    now: Timestamp,
    k: int,
    l: int,
)
    requires
        0 <= k < l < report_of(snapshots, actor, reason, unseen, waited_ms, now).agents.len(),
    ensures
        ({
            let rows = report_of(snapshots, actor, reason, unseen, waited_ms, now).agents;
            let at_work = |status: SubagentStatus|
                status == SubagentStatus::Starting || status == SubagentStatus::Running;
            at_work(rows[l].status) ==> at_work(rows[k].status)
        }),
{
    let own = snapshots.filter(child_of(actor));
    let busy = own.filter(is_working());
    let idle = own.filter(is_resting());
    let all = workers_first(own);
    let rows = report_of(snapshots, actor, reason, unseen, waited_ms, now).agents;
    assert(rows[l] == agent_row(all[l], now));
    assert(rows[k] == agent_row(all[k], now));
    if l >= busy.len() {
        assert(idle.contains(idle[l - busy.len()]));
        lemma_filter_contains(own, is_resting(), all[l]);
    } else {
        assert(busy.contains(busy[k]));
        lemma_filter_contains(own, is_working(), all[k]);
    }
}

/// Every child either works or rests.
proof fn lemma_split(agents: Seq<SubagentSnapshotView>)
    ensures
        agents.filter(is_working()).len() + agents.filter(is_resting()).len() == agents.len(),
    decreases agents.len(),
{
    reveal(Seq::filter);
    if agents.len() > 0 {
        lemma_split(agents.drop_last());
    }
}

/// The reports that are acknowledged: none where the session is not the root or no
/// report is shown, and otherwise exactly those that are shown and still wait in the
/// inbox.
pub proof fn law_shown_reports_are_acknowledged(
    inbox: Seq<TeamInboxMessageView>,
    unseen: UnseenView,
    is_root: bool,
    id: Uuid,
)
    ensures
        read_ids(inbox, unseen, is_root) is Some <==> is_root && unseen.messages.len() > 0,
        read_ids(inbox, unseen, is_root) is Some ==> (read_ids(
            inbox,
            unseen,
            is_root,
        )->Some_0.contains(id) <==> (exists|k: int|
            0 <= k < unseen.messages.len() && (#[trigger] unseen.messages[k]).message_id == id)
            && exists|a: int|
            0 <= a < inbox.len() && (#[trigger] inbox[a]).message_id == id),
{
    if is_root && unseen.messages.len() > 0 {
        let kept = unseen.messages.filter(waits_in(inbox));
        let ids = kept.map_values(|message: TeamInboxMessageView| message.message_id);
        lemma_position(inbox, report_is(id));
        if ids.contains(id) {
            let k = choose|k: int| 0 <= k < ids.len() && ids[k] == id;
            assert(kept.contains(kept[k]));
            lemma_filter_contains(unseen.messages, waits_in(inbox), kept[k]);
            let j = choose|j: int|
                0 <= j < unseen.messages.len() && unseen.messages[j] == kept[k];
            assert(unseen.messages[j].message_id == id);
            let a = position(inbox, report_is(id))->Some_0;
            assert(inbox[a].message_id == id);
        }
        if (exists|k: int|
            0 <= k < unseen.messages.len() && (#[trigger] unseen.messages[k]).message_id == id)
            && exists|a: int| 0 <= a < inbox.len() && (#[trigger] inbox[a]).message_id == id {
            let k = choose|k: int|
                0 <= k < unseen.messages.len() && (#[trigger] unseen.messages[k]).message_id == id;
            let a = choose|a: int| 0 <= a < inbox.len() && (#[trigger] inbox[a]).message_id == id;
            assert(report_is(id)(inbox[a]));
            let message = unseen.messages[k];
            assert(unseen.messages.contains(message));
            lemma_filter_contains(unseen.messages, waits_in(inbox), message);
            let j = choose|j: int| 0 <= j < kept.len() && kept[j] == message;
            assert(ids[j] == id);
        }
    }
}

/// Whether a child of a session works.
pub proof fn law_working_children_are_found(snapshots: Seq<SubagentSnapshotView>, actor: Uuid)
    ensures
        some_item(snapshots.filter(child_of(actor)), is_working()) <==> exists|a: int|
            0 <= a < snapshots.len() && (#[trigger] snapshots[a]).parent_session_id == actor
                && works(snapshots[a]),
{
    let own = snapshots.filter(child_of(actor));
    lemma_position(own, is_working());
    if some_item(own, is_working()) {
        let k = position(own, is_working())->Some_0;
        assert(own.contains(own[k]));
        lemma_filter_contains(snapshots, child_of(actor), own[k]);
        let a = choose|a: int| 0 <= a < snapshots.len() && snapshots[a] == own[k];
        assert(snapshots[a].parent_session_id == actor);
    }
    if exists|a: int|
        0 <= a < snapshots.len() && (#[trigger] snapshots[a]).parent_session_id == actor && works(
            snapshots[a],
        ) {
        let a = choose|a: int|
            0 <= a < snapshots.len() && (#[trigger] snapshots[a]).parent_session_id == actor
                && works(snapshots[a]);
        assert(snapshots.contains(snapshots[a]));
        lemma_filter_contains(snapshots, child_of(actor), snapshots[a]);
        let k = choose|k: int| 0 <= k < own.len() && own[k] == snapshots[a];
        assert(is_working()(own[k]));
    }
}

} // verus!
