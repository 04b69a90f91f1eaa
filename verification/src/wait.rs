//! `wait_agent`: one blocking call per unit of child progress.
//!
//! A parent that waits on children should spend one tool call per real event,
//! not one per minute. A wait therefore ends as soon as something happens that
//! the parent has not been shown: a child settles, a child reports to the
//! parent, or input is waiting. What was shown is remembered per parent, so that
//! a child that finished earlier does not end every later wait.

use crate::model::{
    find, lemma_views_equal, lemma_views_push, option_view, select, some_item, views, Row,
};
use crate::session::{
    MessageStatus, SessionEventKind, SubagentActivity, SubagentSnapshot, SubagentSnapshotView,
    SubagentStatus,
};
use crate::text::{blank, bounded, last_filled_line, last_nonblank_line, shortened};
use crate::workspace::Uuid;
use std::collections::hash_map::DefaultHasher;
use std::collections::{HashMap, HashSet};
use std::hash::Hasher;
use vstd::prelude::*;
use vstd::std_specs::cmp::PartialEqSpecImpl;
use vstd::std_specs::hash::DefaultHasherAdditionalSpecFns;
use vstd::utf8::encode_utf8;

verus! {

broadcast use vstd::std_specs::hash::group_hash_axioms;

/// The longest final text or report that is shown, in characters.
pub const TEXT_LIMIT: usize = 4000;

/// The longest last line that is shown, in characters.
pub const LINE_LIMIT: usize = 200;

/// How many children are listed.
pub const AGENT_LIMIT: usize = 40;

/// A report that waits for a parent.
#[derive(Debug)]
pub struct TeamInboxMessage {
    pub message_id: Uuid,
    pub sender_session_id: Uuid,
    pub report_text: String,
}

/// The mathematical content of a [`TeamInboxMessage`].
#[verifier::ext_equal]
pub struct TeamInboxMessageView {
    pub message_id: Uuid,
    pub sender_session_id: Uuid,
    pub report_text: Seq<char>,
}

impl View for TeamInboxMessage {
    type V = TeamInboxMessageView;

    open spec fn view(&self) -> TeamInboxMessageView {
        TeamInboxMessageView {
            message_id: self.message_id,
            sender_session_id: self.sender_session_id,
            report_text: self.report_text@,
        }
    }
}

impl Clone for TeamInboxMessage {
    fn clone(&self) -> (res: Self)
        ensures
            res@ == self@,
    {
        TeamInboxMessage {
            message_id: self.message_id,
            sender_session_id: self.sender_session_id,
            report_text: self.report_text.clone(),
        }
    }
}

impl PartialEq for TeamInboxMessage {
    fn eq(&self, other: &Self) -> (res: bool) {
        self.message_id == other.message_id
            && self.sender_session_id == other.sender_session_id
            && self.report_text == other.report_text
    }
}

impl PartialEqSpecImpl for TeamInboxMessage {
    open spec fn obeys_eq_spec() -> bool {
        true
    }

    open spec fn eq_spec(&self, other: &Self) -> bool {
        self@ == other@
    }
}

impl Eq for TeamInboxMessage {

}

/// What a parent has not been shown.
#[derive(Debug)]
pub struct Unseen {
    pub changes: Vec<SubagentSnapshot>,
    pub messages: Vec<TeamInboxMessage>,
}

/// The mathematical content of an [`Unseen`].
#[verifier::ext_equal]
pub struct UnseenView {
    pub changes: Seq<SubagentSnapshotView>,
    pub messages: Seq<TeamInboxMessageView>,
}

impl View for Unseen {
    type V = UnseenView;

    open spec fn view(&self) -> UnseenView {
        UnseenView {
            changes: views(self.changes@),
            messages: views(self.messages@),
        }
    }
}

impl Clone for Unseen {
    fn clone(&self) -> (res: Self)
        ensures
            res@ == self@,
    {
        let res = Unseen {
            changes: self.changes.clone(),
            messages: self.messages.clone(),
        };
        assert(views(res.changes@) =~= views(self.changes@));
        assert(views(res.messages@) =~= views(self.messages@));
        res
    }
}

impl PartialEq for Unseen {
    fn eq(&self, other: &Self) -> (res: bool) {
        proof {
            lemma_views_equal(self.changes@, other.changes@);
            lemma_views_equal(self.messages@, other.messages@);
        }
        self.changes == other.changes
            && self.messages == other.messages
    }
}

impl PartialEqSpecImpl for Unseen {
    open spec fn obeys_eq_spec() -> bool {
        true
    }

    open spec fn eq_spec(&self, other: &Self) -> bool {
        self@ == other@
    }
}

impl Eq for Unseen {

}

impl Row for SubagentSnapshot {
    fn duplicate(&self) -> (res: Self) {
        self.clone()
    }
}

impl Row for TeamInboxMessage {
    fn duplicate(&self) -> (res: Self) {
        self.clone()
    }
}

impl Unseen {
    /// Whether there is nothing new.
    pub fn is_empty(&self) -> (res: bool)
        ensures
            res == (self@.changes.len() == 0 && self@.messages.len() == 0),
    {
        self.changes.len() == 0 && self.messages.len() == 0
    }
}

/// Whether a child rests in a state that is worth telling.
pub open spec fn is_settled(agent: SubagentSnapshotView) -> bool {
    match agent.status {
        SubagentStatus::Ready => agent.final_text is Some,
        SubagentStatus::Stopped | SubagentStatus::Failed | SubagentStatus::WaitingForApproval =>
            true,
        SubagentStatus::Starting | SubagentStatus::Running => false,
    }
}

/// Whether a child rests in a state that is worth telling.
pub fn settled(agent: &SubagentSnapshot) -> (res: bool)
    ensures
        res == is_settled(agent@),
{
    match agent.status {
        SubagentStatus::Ready => agent.final_text.is_some(),
        SubagentStatus::Stopped | SubagentStatus::Failed | SubagentStatus::WaitingForApproval =>
            true,
        SubagentStatus::Starting | SubagentStatus::Running => false,
    }
}

/// Whether a child is at work.
pub open spec fn is_working() -> spec_fn(SubagentSnapshotView) -> bool {
    |agent: SubagentSnapshotView|
        agent.status == SubagentStatus::Starting || agent.status == SubagentStatus::Running
}

/// Whether a child is at work.
pub fn working(agent: &SubagentSnapshot) -> (res: bool)
    ensures
        res == is_working()(agent@),
{
    agent.status == SubagentStatus::Starting || agent.status == SubagentStatus::Running
}

/// The number that stands for a status in a fingerprint.
pub open spec fn status_code(status: SubagentStatus) -> u8 {
    match status {
        SubagentStatus::Starting => 0,
        SubagentStatus::Running => 1,
        SubagentStatus::WaitingForApproval => 2,
        SubagentStatus::Ready => 3,
        SubagentStatus::Stopped => 4,
        SubagentStatus::Failed => 5,
    }
}

/// The text that tells one settled state of a status from another: what a
/// finished child said last, or the detail of any other.
pub open spec fn settled_text(agent: SubagentSnapshotView) -> Option<Seq<char>> {
    if agent.status == SubagentStatus::Ready {
        agent.final_text
    } else {
        agent.detail
    }
}

/// What is hashed of an optional text: whether it is there, as a machine word,
/// then its bytes and a byte that no text holds.
pub open spec fn hashed_text(text: Option<Seq<char>>) -> Seq<Seq<u8>> {
    match text {
        None => seq![seq![0u8, 0, 0, 0, 0, 0, 0, 0]],
        Some(text) => seq![seq![1u8, 0, 0, 0, 0, 0, 0, 0], encode_utf8(text), seq![0xFFu8]],
    }
}

/// What is hashed of a settled state.
pub open spec fn hashed_state(agent: SubagentSnapshotView) -> Seq<Seq<u8>> {
    seq![seq![status_code(agent.status)]] + hashed_text(settled_text(agent))
}

/// The number that identifies one settled state of a child.
pub open spec fn state_mark(agent: SubagentSnapshotView) -> u64 {
    DefaultHasher::spec_finish(hashed_state(agent))
}

/// Identifies one settled state of a child. When the child was last updated is
/// no part of it: every event moves that, including usage that lands after the
/// child went idle, which would report the same completion twice.
pub fn fingerprint(agent: &SubagentSnapshot) -> (res: u64)
    ensures
        res == state_mark(agent@),
{
    let mut hasher = DefaultHasher::new();
    let code: u8 = match agent.status {
        SubagentStatus::Starting => 0,
        SubagentStatus::Running => 1,
        SubagentStatus::WaitingForApproval => 2,
        SubagentStatus::Ready => 3,
        SubagentStatus::Stopped => 4,
        SubagentStatus::Failed => 5,
    };
    hasher.write(&[code]);
    let text = if agent.status == SubagentStatus::Ready {
        &agent.final_text
    } else {
        &agent.detail
    };
    match text {
        None => hasher.write(&[0u8, 0, 0, 0, 0, 0, 0, 0]),
        Some(text) => {
            hasher.write(&[1u8, 0, 0, 0, 0, 0, 0, 0]);
            hasher.write(text.as_str().as_bytes());
            hasher.write(&[0xFFu8]);
        },
    }
    assert(hasher@ =~~= hashed_state(agent@));
    hasher.finish()
}

/// Whether an event of a child can change what its parent should be told.
/// Streaming deltas and tool chatter cannot, and there can be many of them.
pub open spec fn is_news(activity: SubagentActivity) -> bool {
    match activity {
        SubagentActivity::SessionEvent { event, .. } => match event.kind {
            SessionEventKind::StatusChanged { .. } => true,
            SessionEventKind::ApprovalRequested { .. } => true,
            SessionEventKind::Message { status, .. } => status == MessageStatus::Complete,
            _ => false,
        },
        _ => true,
    }
}

/// Whether an event of a child can change what its parent should be told.
pub fn may_change_state(activity: &SubagentActivity) -> (res: bool)
    ensures
        res == is_news(*activity),
{
    match activity {
        SubagentActivity::SessionEvent { event, .. } => match &event.kind {
            SessionEventKind::StatusChanged { .. } => true,
            SessionEventKind::ApprovalRequested { .. } => true,
            SessionEventKind::Message { status, .. } => *status == MessageStatus::Complete,
            _ => false,
        },
        _ => true,
    }
}

/// The last line that a child said that is not blank, or its detail.
pub open spec fn last_said(agent: SubagentSnapshotView) -> Option<Seq<char>> {
    if agent.final_text is Some && !blank(agent.final_text->Some_0) {
        Some(shortened(last_filled_line(agent.final_text->Some_0), LINE_LIMIT as nat))
    } else {
        match agent.detail {
            Some(detail) => Some(shortened(detail, LINE_LIMIT as nat)),
            None => None,
        }
    }
}

/// The last line that a child said that is not blank, or its detail.
pub fn last_line(agent: &SubagentSnapshot) -> (res: Option<String>)
    ensures
        option_view(res) == last_said(agent@),
{
    if let Some(text) = &agent.final_text {
        if let Some(line) = last_nonblank_line(text.as_str()) {
            return Some(bounded(line.as_str(), LINE_LIMIT));
        }
    }
    match &agent.detail {
        Some(detail) => Some(bounded(detail.as_str(), LINE_LIMIT)),
        None => None,
    }
}

/// Selects the children of a session.
pub open spec fn child_of(actor: Uuid) -> spec_fn(SubagentSnapshotView) -> bool {
    |agent: SubagentSnapshotView| agent.parent_session_id == actor
}

/// The children of a session.
pub fn children(snapshots: &Vec<SubagentSnapshot>, actor: Uuid) -> (res: Vec<SubagentSnapshot>)
    ensures
        views(res@) == views(snapshots@).filter(child_of(actor)),
{
    let test = |agent: &SubagentSnapshot| -> (answer: bool)
        ensures
            answer == child_of(actor)(agent@),
    { agent.parent_session_id == actor };
    proof {
        views(snapshots@).lemma_filter_len(child_of(actor));
    }
    select(snapshots, snapshots.len(), test, Ghost(child_of(actor)))
}

/// Whether a child of a session is at work.
pub fn has_working_children(snapshots: &Vec<SubagentSnapshot>, actor: Uuid) -> (res: bool)
    ensures
        res == some_item(views(snapshots@).filter(child_of(actor)), is_working()),
{
    let own = children(snapshots, actor);
    let test = |agent: &SubagentSnapshot| -> (answer: bool)
        ensures
            answer == is_working()(agent@),
    { working(agent) };
    find(&own, test, Ghost(is_working())).is_some()
}

/// What one parent has already been shown.
#[derive(Debug)]
pub struct WaitCursor {
    /// The settled state that each child was last shown in.
    pub settled: HashMap<Uuid, u64>,
    /// The reports that were shown.
    pub messages: HashSet<Uuid>,
}

/// The mathematical content of a [`WaitCursor`].
#[verifier::ext_equal]
pub struct WaitCursorView {
    pub settled: Map<Uuid, u64>,
    pub messages: Set<Uuid>,
}

impl View for WaitCursor {
    type V = WaitCursorView;

    open spec fn view(&self) -> WaitCursorView {
        WaitCursorView { settled: self.settled@, messages: self.messages@ }
    }
}

impl Default for WaitCursor {
    fn default() -> (res: WaitCursor)
        ensures
            res@ == (WaitCursorView { settled: Map::empty(), messages: Set::empty() }),
    {
        WaitCursor { settled: HashMap::new(), messages: HashSet::new() }
    }
}

/// Selects the children whose settled state has not been shown.
pub open spec fn unshown(cursor: WaitCursorView) -> spec_fn(SubagentSnapshotView) -> bool {
    |agent: SubagentSnapshotView|
        is_settled(agent) && !(cursor.settled.contains_key(agent.session_id)
            && cursor.settled[agent.session_id] == state_mark(agent))
}

/// Selects a report by identity.
pub open spec fn report_is(message_id: Uuid) -> spec_fn(TeamInboxMessageView) -> bool {
    |message: TeamInboxMessageView| message.message_id == message_id
}

/// The reports that have not been shown, each once. What a session sent itself
/// is no report to it.
pub open spec fn unread(
    reports: Seq<TeamInboxMessageView>,
    actor: Uuid,
    cursor: WaitCursorView,
) -> Seq<TeamInboxMessageView>
    decreases reports.len(),
{
    if reports.len() == 0 {
        Seq::empty()
    } else {
        let before = unread(reports.drop_last(), actor, cursor);
        let report = reports.last();
        if report.sender_session_id != actor && !cursor.messages.contains(report.message_id)
            && !some_item(before, report_is(report.message_id)) {
            before.push(report)
        } else {
            before
        }
    }
}

/// What a parent has not been shown, of its children and of the reports that
/// wait for it or woke it.
pub open spec fn unseen_of(
    snapshots: Seq<SubagentSnapshotView>,
    reports: Seq<TeamInboxMessageView>,
    actor: Uuid,
    cursor: WaitCursorView,
) -> UnseenView {
    UnseenView {
        changes: snapshots.filter(child_of(actor)).filter(unshown(cursor)),
        messages: unread(reports, actor, cursor),
    }
}

/// A cursor once a settled state of a child has been shown.
pub open spec fn marked(cursor: WaitCursorView, agent: SubagentSnapshotView) -> WaitCursorView {
    WaitCursorView {
        settled: cursor.settled.insert(agent.session_id, state_mark(agent)),
        ..cursor
    }
}

/// A cursor once the settled states of children have been shown.
pub open spec fn marked_all(
    cursor: WaitCursorView,
    agents: Seq<SubagentSnapshotView>,
) -> WaitCursorView
    decreases agents.len(),
{
    if agents.len() == 0 {
        cursor
    } else {
        marked(marked_all(cursor, agents.drop_last()), agents.last())
    }
}

/// A cursor once something has been shown.
pub open spec fn shown(cursor: WaitCursorView, unseen: UnseenView) -> WaitCursorView {
    WaitCursorView {
        settled: marked_all(cursor, unseen.changes).settled,
        messages: cursor.messages.union(
            unseen.messages.map_values(
                |message: TeamInboxMessageView| message.message_id,
            ).to_set(),
        ),
    }
}

/// What a parent has not been shown.
pub fn unseen(
    snapshots: &Vec<SubagentSnapshot>,
    inbox: &Vec<TeamInboxMessage>,
    woken: &Vec<TeamInboxMessage>,
    actor: Uuid,
    cursor: &WaitCursor,
) -> (res: Unseen)
    ensures
        res@ == unseen_of(
            views(snapshots@),
            views(inbox@) + views(woken@),
            actor,
            cursor@,
        ),
{
    let own = children(snapshots, actor);
    let test = |agent: &SubagentSnapshot| -> (answer: bool)
        ensures
            answer == unshown(cursor@)(agent@),
    {
        settled(agent) && match cursor.settled.get(&agent.session_id) {
            Some(mark) => *mark != fingerprint(agent),
            None => true,
        }
    };
    proof {
        views(own@).lemma_filter_len(unshown(cursor@));
        assert(views(own@).len() == own@.len());
    }
    let changes = select(&own, own.len(), test, Ghost(unshown(cursor@)));
    let mut messages: Vec<TeamInboxMessage> = Vec::new();
    let ghost all = views(inbox@) + views(woken@);
    assert(all.take(0) =~= Seq::<TeamInboxMessageView>::empty());
    assert(views(messages@) =~= unread(all.take(0), actor, cursor@));
    proof {
        assert(views(inbox@).len() == inbox@.len() && views(woken@).len() == woken@.len());
        assert(all.subrange(0, inbox@.len() as int) =~= views(inbox@));
        assert(all.subrange(inbox@.len() as int, (inbox@.len() + woken@.len()) as int) =~= views(
            woken@,
        ));
    }
    add_unread(&mut messages, inbox, actor, cursor, Ghost(all), Ghost(0int));
    add_unread(&mut messages, woken, actor, cursor, Ghost(all), Ghost(inbox@.len() as int));
    assert(all.take((inbox@.len() + woken@.len()) as int) =~= all);
    Unseen { changes, messages }
}

/// Adds the reports of a list that have not been shown.
fn add_unread(
    messages: &mut Vec<TeamInboxMessage>,
    list: &Vec<TeamInboxMessage>,
    actor: Uuid,
    cursor: &WaitCursor,
    all: Ghost<Seq<TeamInboxMessageView>>,
    start: Ghost<int>,
)
    requires
        0 <= start@,
        start@ + list@.len() <= all@.len(),
        all@.subrange(start@, start@ + list@.len()) == views(list@),
        views(old(messages)@) == unread(all@.take(start@), actor, cursor@),
    ensures
        views(final(messages)@) == unread(all@.take(start@ + list@.len()), actor, cursor@),
{
    let mut index: usize = 0;
    while index < list.len()
        invariant
            index <= list.len(),
            0 <= start@,
            start@ + list@.len() <= all@.len(),
            all@.subrange(start@, start@ + list@.len()) == views(list@),
            views(messages@) == unread(all@.take(start@ + index), actor, cursor@),
        decreases list.len() - index,
    {
        let report = &list[index];
        let message_id: Uuid = report.message_id;
        proof {
            let longer = all@.take(start@ + index + 1);
            assert(longer.drop_last() =~= all@.take(start@ + index));
            assert(views(list@)[index as int] == report@);
            assert(all@.subrange(start@, start@ + list@.len())[index as int] == all@[start@
                + index]);
            assert(longer.last() == report@);
        }
        let test = |message: &TeamInboxMessage| -> (answer: bool)
            ensures
                answer == report_is(message_id)(message@),
        { message.message_id == message_id };
        if report.sender_session_id != actor && !cursor.messages.contains(&message_id) && find(
            messages,
            test,
            Ghost(report_is(message_id)),
        ).is_none() {
            let copy = report.clone();
            proof {
                lemma_views_push(messages@, copy);
            }
            messages.push(copy);
        }
        index = index + 1;
    }
}

/// Remembers that a parent has been shown the settled state that a child rests
/// in. A parent that gives a child new work knows what the child was resting in:
/// the next wait should end on what the new work does.
pub fn mark_seen(cursor: &mut WaitCursor, agent: &SubagentSnapshot)
    ensures
        final(cursor)@ == if is_settled(agent@) {
            marked(old(cursor)@, agent@)
        } else {
            old(cursor)@
        },
{
    if settled(agent) {
        let mark: u64 = fingerprint(agent);
        cursor.settled.insert(agent.session_id, mark);
        assert(cursor@ =~= marked(old(cursor)@, agent@));
    }
}

/// Remembers what a parent has been shown.
pub fn remember(cursor: &mut WaitCursor, unseen: &Unseen)
    ensures
        final(cursor)@ == shown(old(cursor)@, unseen@),
{
    let ghost before = cursor@;
    let ghost changes = views(unseen.changes@);
    let mut index: usize = 0;
    assert(changes.take(0) =~= Seq::<SubagentSnapshotView>::empty());
    while index < unseen.changes.len()
        invariant
            index <= unseen.changes.len(),
            changes == views(unseen.changes@),
            cursor@.settled == marked_all(before, changes.take(index as int)).settled,
            cursor@.messages == before.messages,
        decreases unseen.changes.len() - index,
    {
        let agent = &unseen.changes[index];
        let mark: u64 = fingerprint(agent);
        proof {
            let longer = changes.take(index + 1);
            assert(longer.drop_last() =~= changes.take(index as int));
            assert(longer.last() == agent@);
        }
        cursor.settled.insert(agent.session_id, mark);
        index = index + 1;
    }
    assert(changes.take(index as int) =~= changes);
    let ghost ids = views(unseen.messages@).map_values(
        |message: TeamInboxMessageView| message.message_id,
    );
    let mut at: usize = 0;
    assert(ids.take(0).to_set() =~= Set::<Uuid>::empty());
    assert(before.messages.union(ids.take(0).to_set()) =~= before.messages);
    while at < unseen.messages.len()
        invariant
            at <= unseen.messages.len(),
            ids == views(unseen.messages@).map_values(
                |message: TeamInboxMessageView| message.message_id,
            ),
            cursor@.settled == marked_all(before, changes).settled,
            cursor@.messages == before.messages.union(ids.take(at as int).to_set()),
        decreases unseen.messages.len() - at,
    {
        let message_id: Uuid = unseen.messages[at].message_id;
        proof {
            let longer = ids.take(at + 1);
            assert(views(unseen.messages@)[at as int] == unseen.messages@[at as int]@);
            assert(longer =~= ids.take(at as int).push(message_id));
            assert forall|id: Uuid| #[trigger] longer.to_set().contains(id) <==> ids.take(
                at as int,
            ).to_set().contains(id) || id == message_id by {
                if ids.take(at as int).contains(id) {
                    let i = choose|i: int| 0 <= i < at && ids.take(at as int)[i] == id;
                    assert(longer[i] == id);
                }
                assert(longer[at as int] == message_id);
                if longer.contains(id) && id != message_id {
                    let i = choose|i: int| 0 <= i < longer.len() && longer[i] == id;
                    assert(ids.take(at as int)[i] == id);
                }
            }
            assert(before.messages.union(longer.to_set()) =~= before.messages.union(
                ids.take(at as int).to_set(),
            ).insert(message_id));
        }
        cursor.messages.insert(message_id);
        at = at + 1;
    }
    assert(ids.take(at as int) =~= ids);
    assert(cursor@ =~= shown(before, unseen@));
}

} // verus!
