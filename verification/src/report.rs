//! What a wait returns.

use crate::model::{
    find, first_items, lemma_filter_contains, lemma_filter_pairwise, lemma_position,
    lemma_position_push, lemma_views_equal, option_view, pairwise, position, same_text, select, some_item, views,
};
use crate::outside::{representable, seconds_between, uuid_string, uuid_text, whole_seconds};
use crate::session::{SubagentSnapshot, SubagentSnapshotView, SubagentStatus};
use crate::text::{bounded, shortened};
use crate::time::Timestamp;
use crate::wait::{
    child_of, children, is_settled, is_working, last_line, last_said, marked_all, remember,
    report_is, settled_text, shown, state_mark, unread, unseen_of, unshown, working, TeamInboxMessage,
    TeamInboxMessageView, Unseen, UnseenView, WaitCursor, WaitCursorView, AGENT_LIMIT, TEXT_LIMIT,
};
use crate::workspace::Uuid;
use vstd::prelude::*;
use vstd::std_specs::cmp::PartialEqSpecImpl;

verus! {

/// Why a wait ended.
#[derive(Debug, Clone, Copy, PartialEq, Eq, Structural)]
pub enum WaitReason {
    /// Something new is there of the children.
    ChildUpdate,
    /// Children settled.
    ChildSettled,
    /// Children reported.
    ChildMessage,
    /// Human or team input waits.
    InputPending,
    /// The call was abandoned.
    Cancelled,
    /// No child works.
    NoActiveChildren,
    /// The time is over.
    Timeout,
}

impl WaitReason {
    /// How a reason is written.
    pub open spec fn text(self) -> Seq<char> {
        match self {
            WaitReason::ChildUpdate => "child_update"@,
            WaitReason::ChildSettled => "child_settled"@,
            WaitReason::ChildMessage => "child_message"@,
            WaitReason::InputPending => "input_pending"@,
            WaitReason::Cancelled => "cancelled"@,
            WaitReason::NoActiveChildren => "no_active_children"@,
            WaitReason::Timeout => "timeout"@,
        }
    }

    /// Writes a reason.
    pub fn name(&self) -> (res: &'static str)
        ensures
            res@ == self.text(),
    {
        match self {
            WaitReason::ChildUpdate => "child_update",
            WaitReason::ChildSettled => "child_settled",
            WaitReason::ChildMessage => "child_message",
            WaitReason::InputPending => "input_pending",
            WaitReason::Cancelled => "cancelled",
            WaitReason::NoActiveChildren => "no_active_children",
            WaitReason::Timeout => "timeout",
        }
    }

    /// What a reason asks of the parent.
    pub open spec fn advice(self) -> Option<Seq<char>> {
        match self {
            WaitReason::InputPending => Some(
                "Human or team input is waiting and is delivered right after this result. Answer it before waiting again."@,
            ),
            WaitReason::NoActiveChildren => Some(
                "No child is working, so nothing would end this wait. Assign work or continue yourself."@,
            ),
            _ => None,
        }
    }

    /// Says what a reason asks of the parent.
    pub fn note(&self) -> (res: Option<String>)
        ensures
            option_view(res) == self.advice(),
    {
        match self {
            WaitReason::InputPending => Some(
                "Human or team input is waiting and is delivered right after this result. Answer it before waiting again.".to_owned(),
            ),
            WaitReason::NoActiveChildren => Some(
                "No child is working, so nothing would end this wait. Assign work or continue yourself.".to_owned(),
            ),
            _ => None,
        }
    }
}

/// A child as a report lists it.
#[derive(Debug)]
pub struct AgentRow {
    pub task_name: String,
    pub session_id: Uuid,
    pub status: SubagentStatus,
    pub last: Option<String>,
    /// For how many seconds a child at work has said nothing.
    pub quiet_s: Option<i64>,
}

/// The mathematical content of an [`AgentRow`].
#[verifier::ext_equal]
pub struct AgentRowView {
    pub task_name: Seq<char>,
    pub session_id: Uuid,
    pub status: SubagentStatus,
    pub last: Option<Seq<char>>,
    pub quiet_s: Option<i64>,
}

impl View for AgentRow {
    type V = AgentRowView;

    open spec fn view(&self) -> AgentRowView {
        AgentRowView {
            task_name: self.task_name@,
            session_id: self.session_id,
            status: self.status,
            last: option_view(self.last),
            quiet_s: self.quiet_s,
        }
    }
}

impl Clone for AgentRow {
    fn clone(&self) -> (res: Self)
        ensures
            res@ == self@,
    {
        AgentRow {
            task_name: self.task_name.clone(),
            session_id: self.session_id,
            status: self.status,
            last: self.last.clone(),
            quiet_s: self.quiet_s,
        }
    }
}

impl PartialEq for AgentRow {
    fn eq(&self, other: &Self) -> (res: bool) {
        self.task_name == other.task_name
            && self.session_id == other.session_id
            && self.status == other.status
            && same_text(&self.last, &other.last)
            && self.quiet_s == other.quiet_s
    }
}

impl PartialEqSpecImpl for AgentRow {
    open spec fn obeys_eq_spec() -> bool {
        true
    }

    open spec fn eq_spec(&self, other: &Self) -> bool {
        self@ == other@
    }
}

impl Eq for AgentRow {

}

/// A child that settled.
#[derive(Debug)]
pub struct ChangeRow {
    pub task_name: String,
    pub session_id: Uuid,
    pub status: SubagentStatus,
    pub detail: Option<String>,
    pub final_text: Option<String>,
}

/// The mathematical content of a [`ChangeRow`].
#[verifier::ext_equal]
pub struct ChangeRowView {
    pub task_name: Seq<char>,
    pub session_id: Uuid,
    pub status: SubagentStatus,
    pub detail: Option<Seq<char>>,
    pub final_text: Option<Seq<char>>,
}

impl View for ChangeRow {
    type V = ChangeRowView;

    open spec fn view(&self) -> ChangeRowView {
        ChangeRowView {
            task_name: self.task_name@,
            session_id: self.session_id,
            status: self.status,
            detail: option_view(self.detail),
            final_text: option_view(self.final_text),
        }
    }
}

impl Clone for ChangeRow {
    fn clone(&self) -> (res: Self)
        ensures
            res@ == self@,
    {
        ChangeRow {
            task_name: self.task_name.clone(),
            session_id: self.session_id,
            status: self.status,
            detail: self.detail.clone(),
            final_text: self.final_text.clone(),
        }
    }
}

impl PartialEq for ChangeRow {
    fn eq(&self, other: &Self) -> (res: bool) {
        self.task_name == other.task_name
            && self.session_id == other.session_id
            && self.status == other.status
            && same_text(&self.detail, &other.detail)
            && same_text(&self.final_text, &other.final_text)
    }
}

impl PartialEqSpecImpl for ChangeRow {
    open spec fn obeys_eq_spec() -> bool {
        true
    }

    open spec fn eq_spec(&self, other: &Self) -> bool {
        self@ == other@
    }
}

impl Eq for ChangeRow {

}

/// A report that a child made.
#[derive(Debug)]
pub struct MessageRow {
    pub message_id: Uuid,
    pub sender: String,
    pub text: String,
}

/// The mathematical content of a [`MessageRow`].
#[verifier::ext_equal]
pub struct MessageRowView {
    pub message_id: Uuid,
    pub sender: Seq<char>,
    pub text: Seq<char>,
}

impl View for MessageRow {
    type V = MessageRowView;

    open spec fn view(&self) -> MessageRowView {
        MessageRowView {
            message_id: self.message_id,
            sender: self.sender@,
            text: self.text@,
        }
    }
}

impl Clone for MessageRow {
    fn clone(&self) -> (res: Self)
        ensures
            res@ == self@,
    {
        MessageRow {
            message_id: self.message_id,
            sender: self.sender.clone(),
            text: self.text.clone(),
        }
    }
}

impl PartialEq for MessageRow {
    fn eq(&self, other: &Self) -> (res: bool) {
        self.message_id == other.message_id
            && self.sender == other.sender
            && self.text == other.text
    }
}

impl PartialEqSpecImpl for MessageRow {
    open spec fn obeys_eq_spec() -> bool {
        true
    }

    open spec fn eq_spec(&self, other: &Self) -> bool {
        self@ == other@
    }
}

impl Eq for MessageRow {

}

/// What a wait returns.
#[derive(Debug)]
pub struct WaitReport {
    pub reason: WaitReason,
    pub waited_ms: u64,
    pub changes: Vec<ChangeRow>,
    pub messages: Vec<MessageRow>,
    pub agents: Vec<AgentRow>,
    pub more_agents: Option<usize>,
    pub note: Option<String>,
}

/// The mathematical content of a [`WaitReport`].
#[verifier::ext_equal]
pub struct WaitReportView {
    pub reason: WaitReason,
    pub waited_ms: u64,
    pub changes: Seq<ChangeRowView>,
    pub messages: Seq<MessageRowView>,
    pub agents: Seq<AgentRowView>,
    pub more_agents: Option<usize>,
    pub note: Option<Seq<char>>,
}

impl View for WaitReport {
    type V = WaitReportView;

    open spec fn view(&self) -> WaitReportView {
        WaitReportView {
            reason: self.reason,
            waited_ms: self.waited_ms,
            changes: views(self.changes@),
            messages: views(self.messages@),
            agents: views(self.agents@),
            more_agents: self.more_agents,
            note: option_view(self.note),
        }
    }
}

impl Clone for WaitReport {
    fn clone(&self) -> (res: Self)
        ensures
            res@ == self@,
    {
        let res = WaitReport {
            reason: self.reason,
            waited_ms: self.waited_ms,
            changes: self.changes.clone(),
            messages: self.messages.clone(),
            agents: self.agents.clone(),
            more_agents: self.more_agents,
            note: self.note.clone(),
        };
        assert(views(res.changes@) =~= views(self.changes@));
        assert(views(res.messages@) =~= views(self.messages@));
        assert(views(res.agents@) =~= views(self.agents@));
        res
    }
}

impl PartialEq for WaitReport {
    fn eq(&self, other: &Self) -> (res: bool) {
        proof {
            lemma_views_equal(self.changes@, other.changes@);
            lemma_views_equal(self.messages@, other.messages@);
            lemma_views_equal(self.agents@, other.agents@);
        }
        self.reason == other.reason
            && self.waited_ms == other.waited_ms
            && self.changes == other.changes
            && self.messages == other.messages
            && self.agents == other.agents
            && self.more_agents == other.more_agents
            && same_text(&self.note, &other.note)
    }
}

impl PartialEqSpecImpl for WaitReport {
    open spec fn obeys_eq_spec() -> bool {
        true
    }

    open spec fn eq_spec(&self, other: &Self) -> bool {
        self@ == other@
    }
}

impl Eq for WaitReport {

}

/// For how many seconds a child has said nothing.
pub open spec fn quiet_seconds(now: Timestamp, updated: Timestamp) -> i64 {
    if representable(now) && representable(updated) && whole_seconds(now, updated) > 0 {
        whole_seconds(now, updated) as i64
    } else {
        0
    }
}

/// A child as a report lists it.
pub open spec fn agent_row(agent: SubagentSnapshotView, now: Timestamp) -> AgentRowView {
    AgentRowView {
        task_name: agent.task_name,
        session_id: agent.session_id,
        status: agent.status,
        last: last_said(agent),
        quiet_s: if is_working()(agent) {
            Some(quiet_seconds(now, agent.updated_at))
        } else {
            None
        },
    }
}

/// Selects the children that rest.
pub open spec fn is_resting() -> spec_fn(SubagentSnapshotView) -> bool {
    |agent: SubagentSnapshotView| !is_working()(agent)
}

/// Children, those at work first.
pub open spec fn workers_first(agents: Seq<SubagentSnapshotView>) -> Seq<SubagentSnapshotView> {
    agents.filter(is_working()) + agents.filter(is_resting())
}

/// A child that settled, as a report shows it.
pub open spec fn change_row(agent: SubagentSnapshotView) -> ChangeRowView {
    ChangeRowView {
        task_name: agent.task_name,
        session_id: agent.session_id,
        status: agent.status,
        detail: agent.detail,
        final_text: match agent.final_text {
            Some(text) => Some(shortened(text, TEXT_LIMIT as nat)),
            None => None,
        },
    }
}

/// Selects a child by identity.
pub open spec fn agent_is(session_id: Uuid) -> spec_fn(SubagentSnapshotView) -> bool {
    |agent: SubagentSnapshotView| agent.session_id == session_id
}

/// The name that a sender goes by.
pub open spec fn sender_name(snapshots: Seq<SubagentSnapshotView>, sender: Uuid) -> Seq<char> {
    match position(snapshots, agent_is(sender)) {
        Some(index) => snapshots[index].task_name,
        None => uuid_text(sender),
    }
}

/// A report that a child made, as it is shown.
pub open spec fn message_row(
    message: TeamInboxMessageView,
    snapshots: Seq<SubagentSnapshotView>,
) -> MessageRowView {
    MessageRowView {
        message_id: message.message_id,
        sender: sender_name(snapshots, message.sender_session_id),
        text: shortened(message.report_text, TEXT_LIMIT as nat),
    }
}

/// The reason as it is told: an update says which kind it is where it is one.
pub open spec fn told_reason(reason: WaitReason, unseen: UnseenView) -> WaitReason {
    if reason == WaitReason::ChildUpdate && unseen.changes.len() > 0 && unseen.messages.len() == 0 {
        WaitReason::ChildSettled
    } else if reason == WaitReason::ChildUpdate && unseen.changes.len() == 0
        && unseen.messages.len() > 0 {
        WaitReason::ChildMessage
    } else {
        reason
    }
}

/// What a wait returns.
pub open spec fn report_of(
    snapshots: Seq<SubagentSnapshotView>,
    actor: Uuid,
    reason: WaitReason,
    unseen: UnseenView,
    waited_ms: u64,
    now: Timestamp,
) -> WaitReportView {
    let own = snapshots.filter(child_of(actor));
    WaitReportView {
        reason: told_reason(reason, unseen),
        waited_ms,
        changes: unseen.changes.map_values(|agent: SubagentSnapshotView| change_row(agent)),
        messages: unseen.messages.map_values(
            |message: TeamInboxMessageView| message_row(message, snapshots),
        ),
        agents: first_items(workers_first(own), AGENT_LIMIT as nat).map_values(
            |agent: SubagentSnapshotView| agent_row(agent, now),
        ),
        more_agents: if own.len() > AGENT_LIMIT {
            Some((own.len() - AGENT_LIMIT) as usize)
        } else {
            None
        },
        note: told_reason(reason, unseen).advice(),
    }
}

/// Selects the reports that still wait in an inbox.
pub open spec fn waits_in(inbox: Seq<TeamInboxMessageView>) -> spec_fn(TeamInboxMessageView) -> bool {
    |message: TeamInboxMessageView| some_item(inbox, report_is(message.message_id))
}

/// The reports that are acknowledged once they are shown, where any are: those that
/// still wait in the inbox. Only the root session has one; reports that woke it are
/// left to the steer that delivers them.
pub open spec fn read_ids(
    inbox: Seq<TeamInboxMessageView>,
    unseen: UnseenView,
    is_root: bool,
) -> Option<Seq<Uuid>> {
    if is_root && unseen.messages.len() > 0 {
        Some(
            unseen.messages.filter(waits_in(inbox)).map_values(
                |message: TeamInboxMessageView| message.message_id,
            ),
        )
    } else {
        None
    }
}

/// The reports to acknowledge once they are shown, where any are.
pub fn read_reports(inbox: &Vec<TeamInboxMessage>, unseen: &Unseen, is_root: bool) -> (res: Option<
    Vec<Uuid>,
>)
    ensures
        match (res, read_ids(views(inbox@), unseen@, is_root)) {
            (Some(ids), Some(read)) => ids@ == read,
            (None, None) => true,
            _ => false,
        },
{
    if !is_root || unseen.messages.len() == 0 {
        return None;
    }
    let mut res: Vec<Uuid> = Vec::new();
    let test = |message: &TeamInboxMessage| -> (answer: bool)
        ensures
            answer == waits_in(views(inbox@))(message@),
    {
        let message_id: Uuid = message.message_id;
        let same = |other: &TeamInboxMessage| -> (answer: bool)
            ensures
                answer == report_is(message_id)(other@),
        { other.message_id == message_id };
        find(inbox, same, Ghost(report_is(message_id))).is_some()
    };
    proof {
        views(unseen.messages@).lemma_filter_len(waits_in(views(inbox@)));
        assert(views(unseen.messages@).len() == unseen.messages@.len());
    }
    let read = select(&unseen.messages, unseen.messages.len(), test, Ghost(waits_in(views(inbox@))));
    let mut index: usize = 0;
    while index < read.len()
        invariant
            index <= read.len(),
            res.len() == index,
            forall|i: int| 0 <= i < index ==> #[trigger] res@[i] == read@[i]@.message_id,
        decreases read.len() - index,
    {
        res.push(read[index].message_id);
        index = index + 1;
    }
    proof {
        let kept = unseen@.messages.filter(waits_in(views(inbox@)));
        assert(views(read@) == kept);
        assert forall|i: int| 0 <= i < read@.len() implies (#[trigger] read@[i])@ == kept[i] by {
            assert(views(read@)[i] == read@[i]@);
        }
        assert(res@ =~= kept.map_values(|message: TeamInboxMessageView| message.message_id));
    }
    Some(res)
}

/// The children to list, those at work first.
fn listed_children(own: &Vec<SubagentSnapshot>) -> (res: Vec<SubagentSnapshot>)
    ensures
        views(res@) == workers_first(views(own@)),
{
    let at_work = |agent: &SubagentSnapshot| -> (answer: bool)
        ensures
            answer == is_working()(agent@),
    { working(agent) };
    let at_rest = |agent: &SubagentSnapshot| -> (answer: bool)
        ensures
            answer == is_resting()(agent@),
    { !working(agent) };
    proof {
        views(own@).lemma_filter_len(is_working());
        views(own@).lemma_filter_len(is_resting());
        assert(views(own@).len() == own@.len());
    }
    let mut res = select(own, own.len(), at_work, Ghost(is_working()));
    let mut rest = select(own, own.len(), at_rest, Ghost(is_resting()));
    let ghost first = res@;
    let ghost second = rest@;
    res.append(&mut rest);
    proof {
        assert(views(first + second) =~= views(first) + views(second));
    }
    res
}

/// A child as a report lists it.
fn row_of(agent: &SubagentSnapshot, now: Timestamp) -> (res: AgentRow)
    ensures
        res@ == agent_row(agent@, now),
{
    let quiet_s: Option<i64> = if working(agent) {
        match seconds_between(now, agent.updated_at) {
            Some(seconds) => if seconds < 0 {
                Some(0)
            } else {
                Some(seconds)
            },
            None => Some(0),
        }
    } else {
        None
    };
    AgentRow {
        task_name: agent.task_name.clone(),
        session_id: agent.session_id,
        status: agent.status,
        last: last_line(agent),
        quiet_s,
    }
}

/// The name that a sender goes by.
fn name_of(snapshots: &Vec<SubagentSnapshot>, sender: Uuid) -> (res: String)
    ensures
        res@ == sender_name(views(snapshots@), sender),
{
    let test = |agent: &SubagentSnapshot| -> (answer: bool)
        ensures
            answer == agent_is(sender)(agent@),
    { agent.session_id == sender };
    match find(snapshots, test, Ghost(agent_is(sender))) {
        Some(index) => {
            assert(views(snapshots@)[index as int] == snapshots@[index as int]@);
            snapshots[index].task_name.clone()
        },
        None => uuid_string(sender),
    }
}

/// Builds what a wait returns, and remembers what it showed.
pub fn report(
    snapshots: &Vec<SubagentSnapshot>,
    actor: Uuid,
    reason: WaitReason,
    unseen: &Unseen,
    waited_ms: u64,
    now: Timestamp,
    cursor: &mut WaitCursor,
) -> (res: WaitReport)
    ensures
        res@ == report_of(views(snapshots@), actor, reason, unseen@, waited_ms, now),
        final(cursor)@ == shown(old(cursor)@, unseen@),
{
    remember(cursor, unseen);
    wait_report(snapshots, actor, reason, unseen, waited_ms, now)
}

/// Builds what a wait returns.
pub fn wait_report(
    snapshots: &Vec<SubagentSnapshot>,
    actor: Uuid,
    reason: WaitReason,
    unseen: &Unseen,
    waited_ms: u64,
    now: Timestamp,
) -> (res: WaitReport)
    ensures
        res@ == report_of(views(snapshots@), actor, reason, unseen@, waited_ms, now),
{
    let own = children(snapshots, actor);
    let listed = listed_children(&own);
    let ghost order = workers_first(views(own@));
    let mut agents: Vec<AgentRow> = Vec::new();
    let mut index: usize = 0;
    while index < listed.len() && index < AGENT_LIMIT
        invariant
            index <= listed.len(),
            index <= AGENT_LIMIT,
            agents.len() == index,
            views(listed@) == order,
            forall|i: int| 0 <= i < index ==> (#[trigger] agents@[i])@ == agent_row(listed@[i]@, now),
        decreases listed.len() - index,
    {
        agents.push(row_of(&listed[index], now));
        index = index + 1;
    }
    proof {
        assert(views(listed@).len() == listed@.len());
        let kept = first_items(order, AGENT_LIMIT as nat);
        assert forall|i: int| 0 <= i < listed@.len() implies views(listed@)[i] == (
        #[trigger] listed@[i])@ by {}
        assert(views(agents@) =~= kept.map_values(
            |agent: SubagentSnapshotView| agent_row(agent, now),
        ));
    }
    let mut changes: Vec<ChangeRow> = Vec::new();
    let mut at: usize = 0;
    while at < unseen.changes.len()
        invariant
            at <= unseen.changes.len(),
            changes.len() == at,
            forall|i: int|
                0 <= i < at ==> (#[trigger] changes@[i])@ == change_row(unseen.changes@[i]@),
        decreases unseen.changes.len() - at,
    {
        let agent = &unseen.changes[at];
        let final_text = match &agent.final_text {
            Some(text) => Some(bounded(text.as_str(), TEXT_LIMIT)),
            None => None,
        };
        changes.push(
            ChangeRow {
                task_name: agent.task_name.clone(),
                session_id: agent.session_id,
                status: agent.status,
                detail: agent.detail.clone(),
                final_text,
            },
        );
        at = at + 1;
    }
    assert(views(changes@) =~= unseen@.changes.map_values(
        |agent: SubagentSnapshotView| change_row(agent),
    ));
    let mut messages: Vec<MessageRow> = Vec::new();
    let mut next: usize = 0;
    while next < unseen.messages.len()
        invariant
            next <= unseen.messages.len(),
            messages.len() == next,
            forall|i: int|
                0 <= i < next ==> (#[trigger] messages@[i])@ == message_row(
                    unseen.messages@[i]@,
                    views(snapshots@),
                ),
        decreases unseen.messages.len() - next,
    {
        let message = &unseen.messages[next];
        messages.push(
            MessageRow {
                message_id: message.message_id,
                sender: name_of(snapshots, message.sender_session_id),
                text: bounded(message.report_text.as_str(), TEXT_LIMIT),
            },
        );
        next = next + 1;
    }
    assert(views(messages@) =~= unseen@.messages.map_values(
        |message: TeamInboxMessageView| message_row(message, views(snapshots@)),
    ));
    let told = if reason == WaitReason::ChildUpdate && unseen.changes.len() > 0
        && unseen.messages.len() == 0 {
        WaitReason::ChildSettled
    } else if reason == WaitReason::ChildUpdate && unseen.changes.len() == 0
        && unseen.messages.len() > 0 {
        WaitReason::ChildMessage
    } else {
        reason
    };
    assert(views(own@).len() == own@.len());
    let more_agents: Option<usize> = if own.len() > AGENT_LIMIT {
        Some(own.len() - AGENT_LIMIT)
    } else {
        None
    };
    let res = WaitReport {
        reason: told,
        waited_ms,
        changes,
        messages,
        agents,
        more_agents,
        note: told.note(),
    };
    assert(res@ =~= report_of(views(snapshots@), actor, reason, unseen@, waited_ms, now));
    res
}

/// Whether no two snapshots are of one child.
pub open spec fn distinct_agents(snapshots: Seq<SubagentSnapshotView>) -> bool {
    forall|i: int, j: int|
        0 <= i < j < snapshots.len() ==> (#[trigger] snapshots[i]).session_id != (
        #[trigger] snapshots[j]).session_id
}

/// What a cursor holds of a child once the settled states of children have been
/// shown.
proof fn lemma_marked_all(
    cursor: WaitCursorView,
    agents: Seq<SubagentSnapshotView>,
    agent: SubagentSnapshotView,
)
    requires
        distinct_agents(agents),
        agents.contains(agent),
    ensures
        marked_all(cursor, agents).settled.contains_key(agent.session_id),
        marked_all(cursor, agents).settled[agent.session_id] == state_mark(agent),
    decreases agents.len(),
{
    let front = agents.drop_last();
    let i = choose|i: int| 0 <= i < agents.len() && agents[i] == agent;
    if i < agents.len() - 1 {
        assert(front[i] == agent);
        assert(distinct_agents(front)) by {
            assert forall|a: int, b: int| 0 <= a < b < front.len() implies (
            #[trigger] front[a]).session_id != (#[trigger] front[b]).session_id by {
                assert(agents[a].session_id != agents[b].session_id);
            }
        }
        lemma_marked_all(cursor, front, agent);
        assert(agents[i].session_id != agents[agents.len() - 1].session_id);
    }
}

/// Showing some children does not forget what was shown of others.
proof fn lemma_marked_others(
    cursor: WaitCursorView,
    agents: Seq<SubagentSnapshotView>,
    session_id: Uuid,
)
    requires
        forall|i: int| 0 <= i < agents.len() ==> (#[trigger] agents[i]).session_id != session_id,
    ensures
        marked_all(cursor, agents).settled.contains_key(session_id) == cursor.settled.contains_key(
            session_id,
        ),
        cursor.settled.contains_key(session_id) ==> marked_all(cursor, agents).settled[session_id]
            == cursor.settled[session_id],
    decreases agents.len(),
{
    if agents.len() > 0 {
        let front = agents.drop_last();
        assert forall|i: int| 0 <= i < front.len() implies (#[trigger] front[i]).session_id
            != session_id by {
            assert(front[i] == agents[i]);
        }
        lemma_marked_others(cursor, front, session_id);
        assert(agents[agents.len() - 1].session_id != session_id);
    }
}

/// Reports that were shown are not unread.
proof fn lemma_unread_shown(
    reports: Seq<TeamInboxMessageView>,
    actor: Uuid,
    cursor: WaitCursorView,
    after: WaitCursorView,
)
    requires
        forall|i: int|
            0 <= i < unread(reports, actor, cursor).len() ==> after.messages.contains(
                (#[trigger] unread(reports, actor, cursor)[i]).message_id,
            ),
        forall|id: Uuid| cursor.messages.contains(id) ==> after.messages.contains(id),
    ensures
        unread(reports, actor, after).len() == 0,
    decreases reports.len(),
{
    if reports.len() > 0 {
        let front = reports.drop_last();
        let before = unread(front, actor, cursor);
        let all = unread(reports, actor, cursor);
        assert forall|i: int| 0 <= i < before.len() implies after.messages.contains(
            (#[trigger] before[i]).message_id,
        ) by {
            assert(all[i] == before[i]);
        }
        lemma_unread_shown(front, actor, cursor, after);
        let report = reports.last();
        if report.sender_session_id != actor && !after.messages.contains(report.message_id) {
            lemma_position(before, report_is(report.message_id));
            if some_item(before, report_is(report.message_id)) {
                let at = position(before, report_is(report.message_id))->Some_0;
                assert(before[at].message_id == report.message_id);
            } else {
                assert(all.last() == report);
                assert(after.messages.contains(all[all.len() - 1].message_id));
            }
        }
    }
}

/// Looking again at the very same children and reports that a wait has shown
/// finds nothing unseen.
pub proof fn law_shown_is_not_shown_again(
    snapshots: Seq<SubagentSnapshotView>,
    reports: Seq<TeamInboxMessageView>,
    actor: Uuid,
    cursor: WaitCursorView,
)
    requires
        distinct_agents(snapshots),
    ensures
        ({
            let unseen = unseen_of(snapshots, reports, actor, cursor);
            let again = unseen_of(snapshots, reports, actor, shown(cursor, unseen));
            again.changes.len() == 0 && again.messages.len() == 0
        }),
{
    let unseen = unseen_of(snapshots, reports, actor, cursor);
    let after = shown(cursor, unseen);
    let own = snapshots.filter(child_of(actor));
    let distinct = |a: SubagentSnapshotView, b: SubagentSnapshotView| a.session_id != b.session_id;
    assert(pairwise(snapshots, distinct));
    lemma_filter_pairwise(snapshots, child_of(actor), distinct);
    lemma_filter_pairwise(own, unshown(cursor), distinct);
    let changes = unseen.changes;
    assert(distinct_agents(changes)) by {
        assert forall|a: int, b: int| 0 <= a < b < changes.len() implies (
        #[trigger] changes[a]).session_id != (#[trigger] changes[b]).session_id by {
            assert(distinct(changes[a], changes[b]));
        }
    }
    assert forall|i: int| 0 <= i < own.len() implies !unshown(after)(#[trigger] own[i]) by {
        let agent = own[i];
        assert(own.contains(agent));
        lemma_filter_contains(own, unshown(cursor), agent);
        if unshown(cursor)(agent) {
            lemma_marked_all(cursor, changes, agent);
        } else if is_settled(agent) {
            assert forall|k: int| 0 <= k < changes.len() implies (
            #[trigger] changes[k]).session_id != agent.session_id by {
                assert(changes.contains(changes[k]));
                lemma_filter_contains(own, unshown(cursor), changes[k]);
                let j = choose|j: int| 0 <= j < own.len() && own[j] == changes[k];
                if own[j].session_id == agent.session_id {
                    if i < j {
                        assert(distinct(own[i], own[j]));
                    } else if j < i {
                        assert(distinct(own[j], own[i]));
                    }
                }
            }
            lemma_marked_others(cursor, changes, agent.session_id);
        }
    }
    own.lemma_all_neg_filter_empty(unshown(after));
    let ids = unseen.messages.map_values(|message: TeamInboxMessageView| message.message_id);
    assert forall|i: int| 0 <= i < unseen.messages.len() implies after.messages.contains(
        (#[trigger] unseen.messages[i]).message_id,
    ) by {
        assert(ids[i] == unseen.messages[i].message_id);
        assert(ids.contains(ids[i]));
        assert(ids.to_set().contains(ids[i]));
    }
    lemma_unread_shown(reports, actor, cursor, after);
}

/// What one parent has been shown after some waits, each given by the children and
/// the reports that it came upon.
pub open spec fn after_waits(
    cursor: WaitCursorView,
    actor: Uuid,
    waits: Seq<(Seq<SubagentSnapshotView>, Seq<TeamInboxMessageView>)>,
) -> WaitCursorView
    decreases waits.len(),
{
    if waits.len() == 0 {
        cursor
    } else {
        let before = after_waits(cursor, actor, waits.drop_last());
        shown(before, unseen_of(waits.last().0, waits.last().1, actor, before))
    }
}

/// Whether a child is found in no other settled state, whatever else has become
/// of it.
pub open spec fn keeps_state(
    agent: SubagentSnapshotView,
    snapshots: Seq<SubagentSnapshotView>,
) -> bool {
    forall|i: int|
        0 <= i < snapshots.len() && (#[trigger] snapshots[i]).session_id == agent.session_id
            ==> state_mark(snapshots[i]) == state_mark(agent)
}

/// Whether a parent has been shown the state that a child rests in.
pub open spec fn knows(cursor: WaitCursorView, agent: SubagentSnapshotView) -> bool {
    cursor.settled.contains_key(agent.session_id) && cursor.settled[agent.session_id]
        == state_mark(agent)
}

/// Further waits do not make a parent forget the state that it was shown a child
/// in, as long as the child keeps it.
proof fn lemma_knows_on(
    cursor: WaitCursorView,
    actor: Uuid,
    agent: SubagentSnapshotView,
    waits: Seq<(Seq<SubagentSnapshotView>, Seq<TeamInboxMessageView>)>,
)
    requires
        knows(cursor, agent),
        forall|i: int| 0 <= i < waits.len() ==> keeps_state(agent, (#[trigger] waits[i]).0),
    ensures
        knows(after_waits(cursor, actor, waits), agent),
    decreases waits.len(),
{
    if waits.len() > 0 {
        let earlier = waits.drop_last();
        assert forall|i: int| 0 <= i < earlier.len() implies keeps_state(
            agent,
            (#[trigger] earlier[i]).0,
        ) by {
            assert(earlier[i] == waits[i]);
        }
        lemma_knows_on(cursor, actor, agent, earlier);
        let before = after_waits(cursor, actor, earlier);
        let (snapshots, reports) = waits.last();
        assert(keeps_state(agent, waits[waits.len() - 1].0));
        lemma_known_unchanged(snapshots, reports, actor, before, agent);
        lemma_marked_others(
            before,
            unseen_of(snapshots, reports, actor, before).changes,
            agent.session_id,
        );
    }
}

/// A child that keeps the state that it was shown in is no change.
proof fn lemma_known_unchanged(
    snapshots: Seq<SubagentSnapshotView>,
    reports: Seq<TeamInboxMessageView>,
    actor: Uuid,
    cursor: WaitCursorView,
    agent: SubagentSnapshotView,
)
    requires
        knows(cursor, agent),
        keeps_state(agent, snapshots),
    ensures
        forall|k: int|
            0 <= k < unseen_of(snapshots, reports, actor, cursor).changes.len() ==> (
            #[trigger] unseen_of(snapshots, reports, actor, cursor).changes[k]).session_id
                != agent.session_id,
{
    let own = snapshots.filter(child_of(actor));
    let changes = own.filter(unshown(cursor));
    assert forall|k: int| 0 <= k < changes.len() implies (#[trigger] changes[k]).session_id
        != agent.session_id by {
        let change = changes[k];
        assert(changes.contains(change));
        lemma_filter_contains(own, unshown(cursor), change);
        lemma_filter_contains(snapshots, child_of(actor), change);
        let j = choose|j: int| 0 <= j < snapshots.len() && snapshots[j] == change;
        assert(snapshots[j] == change);
    }
}

/// What a wait shows of a child is known to the parent afterwards.
proof fn lemma_shown_known(
    snapshots: Seq<SubagentSnapshotView>,
    reports: Seq<TeamInboxMessageView>,
    actor: Uuid,
    cursor: WaitCursorView,
    agent: SubagentSnapshotView,
)
    requires
        distinct_agents(snapshots),
        unseen_of(snapshots, reports, actor, cursor).changes.contains(agent),
    ensures
        knows(shown(cursor, unseen_of(snapshots, reports, actor, cursor)), agent),
{
    let own = snapshots.filter(child_of(actor));
    let changes = own.filter(unshown(cursor));
    let distinct = |a: SubagentSnapshotView, b: SubagentSnapshotView| a.session_id != b.session_id;
    assert(pairwise(snapshots, distinct));
    lemma_filter_pairwise(snapshots, child_of(actor), distinct);
    lemma_filter_pairwise(own, unshown(cursor), distinct);
    assert(distinct_agents(changes)) by {
        assert forall|a: int, b: int| 0 <= a < b < changes.len() implies (
        #[trigger] changes[a]).session_id != (#[trigger] changes[b]).session_id by {
            assert(distinct(changes[a], changes[b]));
        }
    }
    lemma_marked_all(cursor, changes, agent);
}

/// Waits forget no report that was shown.
proof fn lemma_reports_kept(
    cursor: WaitCursorView,
    actor: Uuid,
    id: Uuid,
    waits: Seq<(Seq<SubagentSnapshotView>, Seq<TeamInboxMessageView>)>,
)
    requires
        cursor.messages.contains(id),
    ensures
        after_waits(cursor, actor, waits).messages.contains(id),
    decreases waits.len(),
{
    if waits.len() > 0 {
        lemma_reports_kept(cursor, actor, id, waits.drop_last());
    }
}

/// A report that was shown is not unread.
proof fn lemma_shown_not_unread(
    reports: Seq<TeamInboxMessageView>,
    actor: Uuid,
    cursor: WaitCursorView,
    id: Uuid,
)
    requires
        cursor.messages.contains(id),
    ensures
        !some_item(unread(reports, actor, cursor), report_is(id)),
    decreases reports.len(),
{
    if reports.len() > 0 {
        let before = unread(reports.drop_last(), actor, cursor);
        lemma_shown_not_unread(reports.drop_last(), actor, cursor, id);
        lemma_position_push(before, reports.last(), report_is(id));
    }
}

/// A settled state is told by the status and by what goes with it: what a
/// finished child said last, or the detail of any other. When the child was last
/// updated does not matter.
pub proof fn law_states_are_told_by_status_and_text(
    agent: SubagentSnapshotView,
    now: SubagentSnapshotView,
)
    requires
        now.status == agent.status,
        settled_text(now) == settled_text(agent),
    ensures
        state_mark(now) == state_mark(agent),
{
}

/// A child that a wait has shown ends no later wait of that parent, as long as it
/// keeps the state that it was shown in: neither the waits in between nor what
/// becomes of other children, of reports or of the time of the last update make
/// it a change again.
pub proof fn law_a_shown_child_ends_no_later_wait(
    snapshots: Seq<SubagentSnapshotView>,
    reports: Seq<TeamInboxMessageView>,
    actor: Uuid,
    cursor: WaitCursorView,
    agent: SubagentSnapshotView,
    waits: Seq<(Seq<SubagentSnapshotView>, Seq<TeamInboxMessageView>)>,
    later: Seq<SubagentSnapshotView>,
    later_reports: Seq<TeamInboxMessageView>,
)
    requires
        distinct_agents(snapshots),
        unseen_of(snapshots, reports, actor, cursor).changes.contains(agent),
        forall|i: int| 0 <= i < waits.len() ==> keeps_state(agent, (#[trigger] waits[i]).0),
    ensures
        ({
            let after = after_waits(
                shown(cursor, unseen_of(snapshots, reports, actor, cursor)),
                actor,
                waits,
            );
            &&& forall|now: SubagentSnapshotView|
                now.session_id == agent.session_id && state_mark(now) == state_mark(agent)
                    ==> !#[trigger] unshown(after)(now)
            &&& keeps_state(agent, later) ==> forall|k: int|
                0 <= k < unseen_of(later, later_reports, actor, after).changes.len() ==> (
                #[trigger] unseen_of(later, later_reports, actor, after).changes[k]).session_id
                    != agent.session_id
        }),
{
    let first = shown(cursor, unseen_of(snapshots, reports, actor, cursor));
    lemma_shown_known(snapshots, reports, actor, cursor, agent);
    lemma_knows_on(first, actor, agent, waits);
    if keeps_state(agent, later) {
        lemma_known_unchanged(
            later,
            later_reports,
            actor,
            after_waits(first, actor, waits),
            agent,
        );
    }
}

/// A report that a wait has shown ends no later wait of that parent, whatever
/// waits come in between and whatever reports come with it again.
pub proof fn law_a_shown_report_ends_no_later_wait(
    snapshots: Seq<SubagentSnapshotView>,
    reports: Seq<TeamInboxMessageView>,
    actor: Uuid,
    cursor: WaitCursorView,
    message: TeamInboxMessageView,
    waits: Seq<(Seq<SubagentSnapshotView>, Seq<TeamInboxMessageView>)>,
    later_reports: Seq<TeamInboxMessageView>,
)
    requires
        unseen_of(snapshots, reports, actor, cursor).messages.contains(message),
    ensures
        ({
            let after = after_waits(
                shown(cursor, unseen_of(snapshots, reports, actor, cursor)),
                actor,
                waits,
            );
            !some_item(unread(later_reports, actor, after), report_is(message.message_id))
        }),
{
    let unseen = unseen_of(snapshots, reports, actor, cursor);
    let first = shown(cursor, unseen);
    let ids = unseen.messages.map_values(|message: TeamInboxMessageView| message.message_id);
    let i = choose|i: int| 0 <= i < unseen.messages.len() && unseen.messages[i] == message;
    assert(ids[i] == message.message_id);
    assert(ids.to_set().contains(ids[i]));
    lemma_reports_kept(first, actor, message.message_id, waits);
    lemma_shown_not_unread(
        later_reports,
        actor,
        after_waits(first, actor, waits),
        message.message_id,
    );
}

} // verus!
