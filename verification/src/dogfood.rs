//! A scripted agent that exercises the durable runtime in two turns.
//!
//! The first turn sets a goal, finds its own prompt in the history through a
//! retrieval adapter and leaves a checkpoint. The second turn, after a restart,
//! must find all of it again. Each turn is announced first and, where it succeeds,
//! closed with one message. The script makes no calls and sends nothing itself: it
//! says what comes next, and is told what came back.

use crate::model::{find, option_view, position, views};
use crate::outside::{json_string, quoted_text};
use crate::session::{CodingProvider, EventActor, MessageStatus, SessionEventKind};
use crate::text::{decimal, decimal_text, holds, holds_text};
use crate::workspace::Uuid;
use vstd::prelude::*;
use vstd::string::StringExecFns;

verus! {

/// The calls of both turns, in the order in which they are made.
#[derive(Debug, Clone, Copy, PartialEq, Eq, Structural)]
pub enum DogfoodCall {
    CreateGoal,
    StartPlan,
    IndexHistory,
    CreateAdapter,
    TestAdapter,
    Retrieve,
    Resolve,
    Checkpoint,
    GetGoal,
    GetPlan,
    RuntimeStatus,
    ReadPlanId,
    Restore,
    RetrieveAgain,
    CompletePlan,
    CompleteGoal,
}

impl DogfoodCall {
    /// The tool that a call goes to.
    pub open spec fn tool_text(self) -> Seq<char> {
        match self {
            DogfoodCall::CreateGoal => "create_goal"@,
            DogfoodCall::StartPlan => "update_plan"@,
            DogfoodCall::IndexHistory => "history_index"@,
            DogfoodCall::CreateAdapter => "create_retrieval_adapter"@,
            DogfoodCall::Resolve => "query_history"@,
            DogfoodCall::GetGoal => "get_goal"@,
            DogfoodCall::GetPlan => "get_plan"@,
            DogfoodCall::CompletePlan => "update_plan"@,
            DogfoodCall::CompleteGoal => "update_goal"@,
            _ => "runtime_exec"@,
        }
    }

    /// The tool that a call goes to.
    pub fn tool(&self) -> (res: &'static str)
        ensures
            res@ == self.tool_text(),
    {
        match self {
            DogfoodCall::CreateGoal => "create_goal",
            DogfoodCall::StartPlan => "update_plan",
            DogfoodCall::IndexHistory => "history_index",
            DogfoodCall::CreateAdapter => "create_retrieval_adapter",
            DogfoodCall::Resolve => "query_history",
            DogfoodCall::GetGoal => "get_goal",
            DogfoodCall::GetPlan => "get_plan",
            DogfoodCall::CompletePlan => "update_plan",
            DogfoodCall::CompleteGoal => "update_goal",
            _ => "runtime_exec",
        }
    }

    /// The program that a call runs, where it runs one that is always the same.
    pub open spec fn code_text(self) -> Option<Seq<char>> {
        match self {
            DogfoodCall::TestAdapter => Some("borg.test_retrieval_adapter('canonical-dogfood')"@),
            DogfoodCall::Retrieve | DogfoodCall::RetrieveAgain => Some(
                "borg.retrieval_adapter('canonical-dogfood', 'lossless-dogfood')"@,
            ),
            DogfoodCall::RuntimeStatus => Some("borg.runtime_status()"@),
            DogfoodCall::ReadPlanId => Some("plan_id"@),
            DogfoodCall::Restore => Some("borg.restore('canonical-dogfood')"@),
            _ => None,
        }
    }

    /// The program that a call runs, where it runs one that is always the same.
    pub fn code(&self) -> (res: Option<&'static str>)
        ensures
            match res {
                Some(code) => self.code_text() == Some(code@),
                None => self.code_text() is None,
            },
    {
        match self {
            DogfoodCall::TestAdapter => Some("borg.test_retrieval_adapter('canonical-dogfood')"),
            DogfoodCall::Retrieve | DogfoodCall::RetrieveAgain => Some(
                "borg.retrieval_adapter('canonical-dogfood', 'lossless-dogfood')",
            ),
            DogfoodCall::RuntimeStatus => Some("borg.runtime_status()"),
            DogfoodCall::ReadPlanId => Some("plan_id"),
            DogfoodCall::Restore => Some("borg.restore('canonical-dogfood')"),
            _ => None,
        }
    }

    /// How many calls of its turn are left, this one counted.
    pub open spec fn left(self) -> nat {
        match self {
            DogfoodCall::CreateGoal | DogfoodCall::GetGoal => 8,
            DogfoodCall::StartPlan | DogfoodCall::GetPlan => 7,
            DogfoodCall::IndexHistory | DogfoodCall::RuntimeStatus => 6,
            DogfoodCall::CreateAdapter | DogfoodCall::ReadPlanId => 5,
            DogfoodCall::TestAdapter | DogfoodCall::Restore => 4,
            DogfoodCall::Retrieve | DogfoodCall::RetrieveAgain => 3,
            DogfoodCall::Resolve | DogfoodCall::CompletePlan => 2,
            DogfoodCall::Checkpoint | DogfoodCall::CompleteGoal => 1,
        }
    }
}

/// Why the script gave up.
#[derive(Debug, Clone, Copy, PartialEq, Eq, Structural)]
pub enum DogfoodError {
    NoGoalId,
    NoPlanId,
    PromptNotIndexed,
    NoRevision,
    AdapterTestFailed,
    NoEventId,
    LocatorChanged,
    LocatorUnresolved,
    CheckpointLost,
    GoalNotActive,
    PlanLost,
    NotRecovered,
    NotRehydrated,
    NotRestored,
    AdapterLost,
    GoalNotComplete,
    UnexpectedPhase { phase: usize },
}

impl DogfoodError {
    /// The text that says why. Where a check failed on what a call returned, the
    /// whole of it follows.
    pub open spec fn text(self, returned: Seq<char>) -> Seq<char> {
        match self {
            DogfoodError::NoGoalId => "created goal did not return an id"@,
            DogfoodError::NoPlanId => "created plan did not return an id"@,
            DogfoodError::PromptNotIndexed => "canonical history index did not contain the prompt"@,
            DogfoodError::NoRevision => "created retrieval adapter did not return a revision"@,
            DogfoodError::AdapterTestFailed => "model-authored retrieval adapter test failed: "@
                + returned,
            DogfoodError::NoEventId => "retrieval adapter returned no canonical event id"@,
            DogfoodError::LocatorChanged => "adapter did not preserve the indexed canonical locator"@,
            DogfoodError::LocatorUnresolved => "retrieved history locator did not resolve canonically"@,
            DogfoodError::CheckpointLost => "runtime checkpoint was not persisted"@,
            DogfoodError::GoalNotActive => "goal was not recovered as active: "@ + returned,
            DogfoodError::PlanLost => "recovered plan did not contain its id"@,
            DogfoodError::NotRecovered => "runtime did not report recovery from the prior worker: "@
                + returned,
            DogfoodError::NotRehydrated => "checkpoint namespace was not automatically rehydrated: "@
                + returned,
            DogfoodError::NotRestored => "checkpoint did not restore the durable plan identity: "@
                + returned,
            DogfoodError::AdapterLost => "persisted retrieval adapter did not work after restart"@,
            DogfoodError::GoalNotComplete => "goal did not reach its terminal state: "@ + returned,
            DogfoodError::UnexpectedPhase { phase } => "unexpected dogfood executor phase "@
                + decimal_text(phase as nat),
        }
    }

    /// Says why, given what the last call returned.
    pub fn message(&self, returned: &str) -> (res: String)
        ensures
            res@ == self.text(returned@),
    {
        match self {
            DogfoodError::NoGoalId => "created goal did not return an id".to_owned(),
            DogfoodError::NoPlanId => "created plan did not return an id".to_owned(),
            DogfoodError::PromptNotIndexed => "canonical history index did not contain the prompt".to_owned(),
            DogfoodError::NoRevision => "created retrieval adapter did not return a revision".to_owned(),
            DogfoodError::AdapterTestFailed => joined_text(
                "model-authored retrieval adapter test failed: ",
                returned,
            ),
            DogfoodError::NoEventId => "retrieval adapter returned no canonical event id".to_owned(),
            DogfoodError::LocatorChanged => "adapter did not preserve the indexed canonical locator".to_owned(),
            DogfoodError::LocatorUnresolved => "retrieved history locator did not resolve canonically".to_owned(),
            DogfoodError::CheckpointLost => "runtime checkpoint was not persisted".to_owned(),
            DogfoodError::GoalNotActive => joined_text(
                "goal was not recovered as active: ",
                returned,
            ),
            DogfoodError::PlanLost => "recovered plan did not contain its id".to_owned(),
            DogfoodError::NotRecovered => joined_text(
                "runtime did not report recovery from the prior worker: ",
                returned,
            ),
            DogfoodError::NotRehydrated => joined_text(
                "checkpoint namespace was not automatically rehydrated: ",
                returned,
            ),
            DogfoodError::NotRestored => joined_text(
                "checkpoint did not restore the durable plan identity: ",
                returned,
            ),
            DogfoodError::AdapterLost => "persisted retrieval adapter did not work after restart".to_owned(),
            DogfoodError::GoalNotComplete => joined_text(
                "goal did not reach its terminal state: ",
                returned,
            ),
            DogfoodError::UnexpectedPhase { phase } => joined_text(
                "unexpected dogfood executor phase ",
                decimal(*phase as u64).as_str(),
            ),
        }
    }
}

/// One text behind another.
fn joined_text(first: &str, second: &str) -> (res: String)
    ensures
        res@ == first@ + second@,
{
    let mut text = first.to_owned();
    text.append(second);
    text
}

/// A document of the history index.
#[derive(Debug)]
pub struct HistoryDocument {
    pub event_id: Option<String>,
    pub content: Option<String>,
}

/// The mathematical content of a [`HistoryDocument`].
#[verifier::ext_equal]
pub struct HistoryDocumentView {
    pub event_id: Option<Seq<char>>,
    pub content: Option<Seq<char>>,
}

impl View for HistoryDocument {
    type V = HistoryDocumentView;

    open spec fn view(&self) -> HistoryDocumentView {
        HistoryDocumentView {
            event_id: option_view(self.event_id),
            content: option_view(self.content),
        }
    }
}

/// What a call returned, as far as the script reads it.
#[derive(Debug)]
pub struct ToolReply {
    /// The text that the call asked for: an identity, a revision, a status, the
    /// first event found, or the value of a program.
    pub text: Option<String>,
    /// Whether the answer was yes, or anything was found.
    pub flag: bool,
    /// The documents of a page of the history index.
    pub documents: Vec<HistoryDocument>,
    /// Where the page after it starts, in JSON.
    pub cursor: String,
}

/// The mathematical content of a [`ToolReply`].
#[verifier::ext_equal]
pub struct ToolReplyView {
    pub text: Option<Seq<char>>,
    pub flag: bool,
    pub documents: Seq<HistoryDocumentView>,
    pub cursor: Seq<char>,
}

impl View for ToolReply {
    type V = ToolReplyView;

    open spec fn view(&self) -> ToolReplyView {
        ToolReplyView {
            text: option_view(self.text),
            flag: self.flag,
            documents: views(self.documents@),
            cursor: self.cursor@,
        }
    }
}

/// A turn of the script: the call that it waits for, and what it has learned.
#[derive(Debug)]
pub struct DogfoodTurn {
    pub call: DogfoodCall,
    pub goal_id: String,
    pub plan_id: String,
    pub adapter_revision: String,
    pub event_id: String,
    /// Where the history goes on, in JSON.
    pub cursor: String,
}

/// The mathematical content of a [`DogfoodTurn`].
#[verifier::ext_equal]
pub struct DogfoodTurnView {
    pub call: DogfoodCall,
    pub goal_id: Seq<char>,
    pub plan_id: Seq<char>,
    pub adapter_revision: Seq<char>,
    pub event_id: Seq<char>,
    pub cursor: Seq<char>,
}

impl View for DogfoodTurn {
    type V = DogfoodTurnView;

    open spec fn view(&self) -> DogfoodTurnView {
        DogfoodTurnView {
            call: self.call,
            goal_id: self.goal_id@,
            plan_id: self.plan_id@,
            adapter_revision: self.adapter_revision@,
            event_id: self.event_id@,
            cursor: self.cursor@,
        }
    }
}

/// What a turn does next.
#[derive(Debug)]
pub enum DogfoodStep {
    /// Send that the turn has started.
    Announce { provider: CodingProvider, kind: String },
    /// Make a call and hand back what it returned.
    Call { call: DogfoodCall },
    /// Send the final text as a message and return both.
    Close { final_text: String, provider_session_id: Option<String> },
}

/// The mathematical content of a [`DogfoodStep`].
#[verifier::ext_equal]
pub enum DogfoodStepView {
    Announce { provider: CodingProvider, kind: Seq<char> },
    Call { call: DogfoodCall },
    Close { final_text: Seq<char>, provider_session_id: Option<Seq<char>> },
}

impl View for DogfoodStep {
    type V = DogfoodStepView;

    open spec fn view(&self) -> DogfoodStepView {
        match self {
            DogfoodStep::Announce { provider, kind } => DogfoodStepView::Announce {
                provider: *provider,
                kind: kind@,
            },
            DogfoodStep::Call { call } => DogfoodStepView::Call { call: *call },
            DogfoodStep::Close { final_text, provider_session_id } => DogfoodStepView::Close {
                final_text: final_text@,
                provider_session_id: option_view(*provider_session_id),
            },
        }
    }
}

/// The step that announces a turn.
pub open spec fn announcement() -> DogfoodStepView {
    DogfoodStepView::Announce { provider: CodingProvider::Codex, kind: "test_turn_started"@ }
}

/// The final text of a turn: what the first has learned, in JSON, or that the
/// second has found all of it again.
pub open spec fn closing_text(turn: DogfoodTurnView) -> Seq<char> {
    if turn.call == DogfoodCall::CompleteGoal {
        "{\"phase\":2,\"recovered\":true}"@
    } else {
        "{\"event_id\":"@ + quoted_text(turn.event_id) + ",\"goal_id\":"@ + quoted_text(
            turn.goal_id,
        ) + ",\"phase\":1,\"plan_id\":"@ + quoted_text(turn.plan_id) + "}"@
    }
}

/// The step that closes a turn.
pub open spec fn closing(turn: DogfoodTurnView) -> DogfoodStepView {
    DogfoodStepView::Close {
        final_text: closing_text(turn),
        provider_session_id: Some("canonical-dogfood"@),
    }
}

/// Whether a step sends a given event, under a given identity where it sends a
/// message, or nothing.
pub open spec fn sends(
    step: DogfoodStepView,
    message_id: Uuid,
    event: Option<SessionEventKind>,
) -> bool {
    match step {
        DogfoodStepView::Announce { provider, kind } => {
            &&& event is Some
            &&& event->Some_0 matches SessionEventKind::ProviderEvent {
                provider: told,
                kind: named,
                payload,
            }
            &&& told == provider
            &&& named@ == kind
            &&& payload@ == "{}"@
        },
        DogfoodStepView::Call { .. } => event is None,
        DogfoodStepView::Close { final_text, .. } => {
            &&& event is Some
            &&& event->Some_0 matches SessionEventKind::Message {
                message_id: id,
                actor,
                text,
                status,
                delivery,
            }
            &&& id == message_id
            &&& actor == EventActor::Assistant
            &&& text@ == final_text
            &&& status == MessageStatus::Complete
            &&& delivery is None
        },
    }
}

impl DogfoodStep {
    /// The event that a step sends, if it sends one.
    pub fn event(&self, message_id: Uuid) -> (res: Option<SessionEventKind>)
        ensures
            sends(self@, message_id, res),
    {
        match self {
            DogfoodStep::Announce { provider, kind } => Some(
                SessionEventKind::ProviderEvent {
                    provider: *provider,
                    kind: kind.clone(),
                    payload: "{}".to_owned(),
                },
            ),
            DogfoodStep::Call { .. } => None,
            DogfoodStep::Close { final_text, .. } => Some(
                SessionEventKind::Message {
                    message_id,
                    actor: EventActor::Assistant,
                    text: final_text.clone(),
                    status: MessageStatus::Complete,
                    delivery: None,
                },
            ),
        }
    }
}

/// Selects the documents that hold the prompt.
pub open spec fn holds_prompt() -> spec_fn(HistoryDocumentView) -> bool {
    |document: HistoryDocumentView|
        document.content is Some && holds(document.content->Some_0, "lossless-dogfood"@)
            && document.event_id is Some
}

/// The event that the prompt was indexed as.
pub open spec fn indexed_event(documents: Seq<HistoryDocumentView>) -> Option<Seq<char>> {
    match position(documents, holds_prompt()) {
        Some(index) => documents[index].event_id,
        None => None,
    }
}

/// A turn that has learned nothing yet.
pub open spec fn fresh_turn(call: DogfoodCall) -> DogfoodTurnView {
    DogfoodTurnView {
        call,
        goal_id: Seq::empty(),
        plan_id: Seq::empty(),
        adapter_revision: Seq::empty(),
        event_id: Seq::empty(),
        cursor: Seq::empty(),
    }
}

/// The turn that begins in a phase, if one does.
pub open spec fn opened(phase: nat) -> Option<DogfoodTurnView> {
    if phase == 0 {
        Some(fresh_turn(DogfoodCall::CreateGoal))
    } else if phase == 1 {
        Some(fresh_turn(DogfoodCall::GetGoal))
    } else {
        None
    }
}

/// A turn that goes on to a call.
pub open spec fn on_to(turn: DogfoodTurnView, call: DogfoodCall) -> Result<
    (DogfoodTurnView, DogfoodStepView),
    DogfoodError,
> {
    Ok((DogfoodTurnView { call, ..turn }, DogfoodStepView::Call { call }))
}

/// The turn once its call has returned, and what it does next, or why it gives
/// up.
pub open spec fn advanced(turn: DogfoodTurnView, reply: ToolReplyView) -> Result<
    (DogfoodTurnView, DogfoodStepView),
    DogfoodError,
> {
    match turn.call {
        DogfoodCall::CreateGoal => match reply.text {
            Some(goal_id) => on_to(DogfoodTurnView { goal_id, ..turn }, DogfoodCall::StartPlan),
            None => Err(DogfoodError::NoGoalId),
        },
        DogfoodCall::StartPlan => match reply.text {
            Some(plan_id) => on_to(DogfoodTurnView { plan_id, ..turn }, DogfoodCall::IndexHistory),
            None => Err(DogfoodError::NoPlanId),
        },
        DogfoodCall::IndexHistory => match indexed_event(reply.documents) {
            Some(event_id) => on_to(
                DogfoodTurnView { event_id, cursor: reply.cursor, ..turn },
                DogfoodCall::CreateAdapter,
            ),
            None => Err(DogfoodError::PromptNotIndexed),
        },
        DogfoodCall::CreateAdapter => match reply.text {
            Some(adapter_revision) => on_to(
                DogfoodTurnView { adapter_revision, ..turn },
                DogfoodCall::TestAdapter,
            ),
            None => Err(DogfoodError::NoRevision),
        },
        DogfoodCall::TestAdapter => if reply.flag {
            on_to(turn, DogfoodCall::Retrieve)
        } else {
            Err(DogfoodError::AdapterTestFailed)
        },
        DogfoodCall::Retrieve => match reply.text {
            Some(found) => if found == turn.event_id {
                on_to(turn, DogfoodCall::Resolve)
            } else {
                Err(DogfoodError::LocatorChanged)
            },
            None => Err(DogfoodError::NoEventId),
        },
        DogfoodCall::Resolve => if reply.flag {
            on_to(turn, DogfoodCall::Checkpoint)
        } else {
            Err(DogfoodError::LocatorUnresolved)
        },
        DogfoodCall::Checkpoint => if reply.text == Some("canonical-dogfood"@) {
            Ok((turn, closing(turn)))
        } else {
            Err(DogfoodError::CheckpointLost)
        },
        DogfoodCall::GetGoal => if reply.text == Some("active"@) {
            on_to(turn, DogfoodCall::GetPlan)
        } else {
            Err(DogfoodError::GoalNotActive)
        },
        DogfoodCall::GetPlan => match reply.text {
            Some(plan_id) => on_to(DogfoodTurnView { plan_id, ..turn }, DogfoodCall::RuntimeStatus),
            None => Err(DogfoodError::PlanLost),
        },
        DogfoodCall::RuntimeStatus => if reply.flag {
            on_to(turn, DogfoodCall::ReadPlanId)
        } else {
            Err(DogfoodError::NotRecovered)
        },
        DogfoodCall::ReadPlanId => if reply.text == Some(turn.plan_id) {
            on_to(turn, DogfoodCall::Restore)
        } else {
            Err(DogfoodError::NotRehydrated)
        },
        DogfoodCall::Restore => if reply.text == Some(turn.plan_id) {
            on_to(turn, DogfoodCall::RetrieveAgain)
        } else {
            Err(DogfoodError::NotRestored)
        },
        DogfoodCall::RetrieveAgain => if reply.flag {
            on_to(turn, DogfoodCall::CompletePlan)
        } else {
            Err(DogfoodError::AdapterLost)
        },
        DogfoodCall::CompletePlan => on_to(turn, DogfoodCall::CompleteGoal),
        DogfoodCall::CompleteGoal => if reply.text == Some("complete"@) {
            Ok((turn, closing(turn)))
        } else {
            Err(DogfoodError::GoalNotComplete)
        },
    }
}

/// Whether an optional text is a given one.
fn is_text(text: &Option<String>, wanted: &str) -> (res: bool)
    ensures
        res == (option_view(*text) == Some(wanted@)),
{
    match text {
        Some(text) => {
            let wanted = wanted.to_owned();
            *text == wanted
        },
        None => false,
    }
}

/// The event that the prompt was indexed as.
fn find_prompt(documents: &Vec<HistoryDocument>) -> (res: Option<String>)
    ensures
        option_view(res) == indexed_event(views(documents@)),
{
    let test = |document: &HistoryDocument| -> (answer: bool)
        ensures
            answer == holds_prompt()(document@),
    {
        match (&document.content, &document.event_id) {
            (Some(content), Some(_)) => holds_text(content.as_str(), "lossless-dogfood"),
            _ => false,
        }
    };
    match find(documents, test, Ghost(holds_prompt())) {
        Some(index) => {
            assert(views(documents@)[index as int] == documents@[index as int]@);
            documents[index].event_id.clone()
        },
        None => None,
    }
}

/// What the plan of the script says.
pub open spec fn plan_text() -> Seq<char> {
    "\"content\":\"retrieve, verify, checkpoint, and recover durable state\""@
}

/// The state that a turn leaves behind, in JSON.
pub open spec fn checkpoint_text(turn: DogfoodTurnView) -> Seq<char> {
    "{\"adapter_revision\":"@ + quoted_text(turn.adapter_revision) + ",\"cursor\":"@ + turn.cursor
        + ",\"goal_id\":"@ + quoted_text(turn.goal_id) + ",\"history_event_id\":"@ + quoted_text(
        turn.event_id,
    ) + ",\"plan_id\":"@ + quoted_text(turn.plan_id) + "}"@
}

/// The program that a turn runs next, if it runs one.
pub open spec fn program_text(turn: DogfoodTurnView) -> Option<Seq<char>> {
    if turn.call == DogfoodCall::Checkpoint {
        Some("borg.checkpoint('canonical-dogfood', "@ + checkpoint_text(turn) + ")"@)
    } else {
        turn.call.code_text()
    }
}

/// The program of the adapter that finds the prompt.
pub open spec fn adapter_source() -> Seq<char> {
    "def retrieve(query):\n    page = borg.history_index(0, 100)\n    return {'query': query, 'event_ids': [row['event_id'] for row in page['documents'] if query and query in row['content']]}\n"@
}

/// The program that tests the adapter.
pub open spec fn adapter_tests() -> Seq<char> {
    "def test(retrieve, borg):\n    result = retrieve('lossless-dogfood')\n    assert result['event_ids'], result\n    return {'found': len(result['event_ids'])}\n"@
}

/// What a turn makes its next call with, in JSON.
pub open spec fn arguments_text(turn: DogfoodTurnView) -> Seq<char> {
    match program_text(turn) {
        Some(program) => "{\"code\":"@ + quoted_text(program) + ",\"runtime\":\"python\"}"@,
        None => match turn.call {
            DogfoodCall::CreateGoal =>
                "{\"objective\":\"dogfood the canonical persistent workspace\",\"token_budget\":10000}"@,
            DogfoodCall::StartPlan => "{\"plan\":[{"@ + plan_text()
                + ",\"status\":\"in_progress\"}]}"@,
            DogfoodCall::IndexHistory => "{\"after_sequence\":0,\"limit\":100}"@,
            DogfoodCall::CreateAdapter =>
                "{\"description\":\"Find durable session events through the canonical history index\",\"id\":\"canonical-dogfood\",\"source\":"@
                + quoted_text(adapter_source()) + ",\"tests\":"@ + quoted_text(adapter_tests())
                + "}"@,
            DogfoodCall::Resolve => "{\"event_id\":"@ + quoted_text(turn.event_id)
                + ",\"limit\":1}"@,
            DogfoodCall::CompletePlan => "{\"plan\":[{"@ + plan_text() + ",\"id\":"@ + quoted_text(
                turn.plan_id,
            ) + ",\"status\":\"completed\"}]}"@,
            DogfoodCall::CompleteGoal => "{\"status\":\"complete\"}"@,
            _ => "{}"@,
        },
    }
}

impl DogfoodTurn {
    /// The program that the turn runs next, if it runs one.
    pub fn program(&self) -> (res: Option<String>)
        ensures
            option_view(res) == program_text(self@),
    {
        if self.call == DogfoodCall::Checkpoint {
            let mut state = "{\"adapter_revision\":".to_owned();
            state.append(json_string(self.adapter_revision.as_str()).as_str());
            state.append(",\"cursor\":");
            state.append(self.cursor.as_str());
            state.append(",\"goal_id\":");
            state.append(json_string(self.goal_id.as_str()).as_str());
            state.append(",\"history_event_id\":");
            state.append(json_string(self.event_id.as_str()).as_str());
            state.append(",\"plan_id\":");
            state.append(json_string(self.plan_id.as_str()).as_str());
            state.append("}");
            let mut code = "borg.checkpoint('canonical-dogfood', ".to_owned();
            code.append(state.as_str());
            code.append(")");
            return Some(code);
        }
        match self.call.code() {
            Some(code) => Some(code.to_owned()),
            None => None,
        }
    }

    /// What the turn makes its next call with, in JSON.
    pub fn arguments(&self) -> (res: String)
        ensures
            res@ == arguments_text(self@),
    {
        if let Some(program) = self.program() {
            let mut text = "{\"code\":".to_owned();
            text.append(json_string(program.as_str()).as_str());
            text.append(",\"runtime\":\"python\"}");
            return text;
        }
        match self.call {
            DogfoodCall::CreateGoal =>
                "{\"objective\":\"dogfood the canonical persistent workspace\",\"token_budget\":10000}".to_owned(),
            DogfoodCall::StartPlan => {
                let mut text = "{\"plan\":[{".to_owned();
                text.append("\"content\":\"retrieve, verify, checkpoint, and recover durable state\"");
                text.append(",\"status\":\"in_progress\"}]}");
                text
            },
            DogfoodCall::IndexHistory => "{\"after_sequence\":0,\"limit\":100}".to_owned(),
            DogfoodCall::CreateAdapter => {
                let source = "def retrieve(query):\n    page = borg.history_index(0, 100)\n    return {'query': query, 'event_ids': [row['event_id'] for row in page['documents'] if query and query in row['content']]}\n";
                let tests = "def test(retrieve, borg):\n    result = retrieve('lossless-dogfood')\n    assert result['event_ids'], result\n    return {'found': len(result['event_ids'])}\n";
                let mut text = "{\"description\":\"Find durable session events through the canonical history index\",\"id\":\"canonical-dogfood\",\"source\":".to_owned();
                text.append(json_string(source).as_str());
                text.append(",\"tests\":");
                text.append(json_string(tests).as_str());
                text.append("}");
                text
            },
            DogfoodCall::Resolve => {
                let mut text = "{\"event_id\":".to_owned();
                text.append(json_string(self.event_id.as_str()).as_str());
                text.append(",\"limit\":1}");
                text
            },
            DogfoodCall::CompletePlan => {
                let mut text = "{\"plan\":[{".to_owned();
                text.append("\"content\":\"retrieve, verify, checkpoint, and recover durable state\"");
                text.append(",\"id\":");
                text.append(json_string(self.plan_id.as_str()).as_str());
                text.append(",\"status\":\"completed\"}]}");
                text
            },
            DogfoodCall::CompleteGoal => "{\"status\":\"complete\"}".to_owned(),
            _ => "{}".to_owned(),
        }
    }

    /// Closes the turn.
    fn close(&self) -> (res: DogfoodStep)
        ensures
            res@ == closing(self@),
    {
        let final_text = if self.call == DogfoodCall::CompleteGoal {
            "{\"phase\":2,\"recovered\":true}".to_owned()
        } else {
            let mut text = "{\"event_id\":".to_owned();
            text.append(json_string(self.event_id.as_str()).as_str());
            text.append(",\"goal_id\":");
            text.append(json_string(self.goal_id.as_str()).as_str());
            text.append(",\"phase\":1,\"plan_id\":");
            text.append(json_string(self.plan_id.as_str()).as_str());
            text.append("}");
            text
        };
        DogfoodStep::Close {
            final_text,
            provider_session_id: Some("canonical-dogfood".to_owned()),
        }
    }

    /// Goes on to a call.
    fn go_on(&mut self, call: DogfoodCall) -> (res: Result<DogfoodStep, DogfoodError>)
        ensures
            final(self)@ == (DogfoodTurnView { call, ..old(self)@ }),
            res matches Ok(step) && step@ == (DogfoodStepView::Call { call }),
    {
        self.call = call;
        Ok(DogfoodStep::Call { call })
    }

    /// Takes in what the call returned that the turn waits for, and says what it
    /// does next. Where the turn gives up it stays as it was.
    pub fn on_reply(&mut self, reply: ToolReply) -> (res: Result<DogfoodStep, DogfoodError>)
        ensures
            match advanced(old(self)@, reply@) {
                Ok((after, step)) => final(self)@ == after && (res matches Ok(next) && next@
                    == step),
                Err(error) => final(self)@ == old(self)@ && (res matches Err(reason) && reason
                    == error),
            },
    {
        match self.call {
            DogfoodCall::CreateGoal => match reply.text {
                Some(goal_id) => {
                    self.goal_id = goal_id;
                    self.go_on(DogfoodCall::StartPlan)
                },
                None => Err(DogfoodError::NoGoalId),
            },
            DogfoodCall::StartPlan => match reply.text {
                Some(plan_id) => {
                    self.plan_id = plan_id;
                    self.go_on(DogfoodCall::IndexHistory)
                },
                None => Err(DogfoodError::NoPlanId),
            },
            DogfoodCall::IndexHistory => match find_prompt(&reply.documents) {
                Some(event_id) => {
                    self.event_id = event_id;
                    self.cursor = reply.cursor;
                    self.go_on(DogfoodCall::CreateAdapter)
                },
                None => Err(DogfoodError::PromptNotIndexed),
            },
            DogfoodCall::CreateAdapter => match reply.text {
                Some(adapter_revision) => {
                    self.adapter_revision = adapter_revision;
                    self.go_on(DogfoodCall::TestAdapter)
                },
                None => Err(DogfoodError::NoRevision),
            },
            DogfoodCall::TestAdapter => if reply.flag {
                self.go_on(DogfoodCall::Retrieve)
            } else {
                Err(DogfoodError::AdapterTestFailed)
            },
            DogfoodCall::Retrieve => match reply.text {
                Some(found) => if found == self.event_id {
                    self.go_on(DogfoodCall::Resolve)
                } else {
                    Err(DogfoodError::LocatorChanged)
                },
                None => Err(DogfoodError::NoEventId),
            },
            DogfoodCall::Resolve => if reply.flag {
                self.go_on(DogfoodCall::Checkpoint)
            } else {
                Err(DogfoodError::LocatorUnresolved)
            },
            DogfoodCall::Checkpoint => if is_text(&reply.text, "canonical-dogfood") {
                Ok(self.close())
            } else {
                Err(DogfoodError::CheckpointLost)
            },
            DogfoodCall::GetGoal => if is_text(&reply.text, "active") {
                self.go_on(DogfoodCall::GetPlan)
            } else {
                Err(DogfoodError::GoalNotActive)
            },
            DogfoodCall::GetPlan => match reply.text {
                Some(plan_id) => {
                    self.plan_id = plan_id;
                    self.go_on(DogfoodCall::RuntimeStatus)
                },
                None => Err(DogfoodError::PlanLost),
            },
            DogfoodCall::RuntimeStatus => if reply.flag {
                self.go_on(DogfoodCall::ReadPlanId)
            } else {
                Err(DogfoodError::NotRecovered)
            },
            DogfoodCall::ReadPlanId => if is_text(&reply.text, self.plan_id.as_str()) {
                self.go_on(DogfoodCall::Restore)
            } else {
                Err(DogfoodError::NotRehydrated)
            },
            DogfoodCall::Restore => if is_text(&reply.text, self.plan_id.as_str()) {
                self.go_on(DogfoodCall::RetrieveAgain)
            } else {
                Err(DogfoodError::NotRestored)
            },
            DogfoodCall::RetrieveAgain => if reply.flag {
                self.go_on(DogfoodCall::CompletePlan)
            } else {
                Err(DogfoodError::AdapterLost)
            },
            DogfoodCall::CompletePlan => self.go_on(DogfoodCall::CompleteGoal),
            DogfoodCall::CompleteGoal => if is_text(&reply.text, "complete") {
                Ok(self.close())
            } else {
                Err(DogfoodError::GoalNotComplete)
            },
        }
    }
}

/// The script, which counts its turns.
#[derive(Debug)]
pub struct CanonicalDogfoodExecutor {
    pub phase: usize,
}

impl CanonicalDogfoodExecutor {
    /// A script whose first turn comes next.
    pub fn new() -> (res: CanonicalDogfoodExecutor)
        ensures
            res.phase == 0,
    {
        CanonicalDogfoodExecutor { phase: 0 }
    }

    /// Begins the next turn: it is announced first, whatever comes of it. There are
    /// two turns; past them nothing but the announcement and the error is left. The
    /// count goes on all the same, and starts over once it is as large as it can be.
    pub fn begin(&mut self) -> (res: (DogfoodStep, Result<DogfoodTurn, DogfoodError>))
        ensures
            final(self).phase == (if old(self).phase == usize::MAX {
                0
            } else {
                old(self).phase + 1
            }),
            res.0@ == announcement(),
            match opened(old(self).phase as nat) {
                Some(turn) => res.1 matches Ok(begun) && begun@ == turn,
                None => res.1 matches Err(error) && error == (DogfoodError::UnexpectedPhase {
                    phase: old(self).phase,
                }),
            },
    {
        let phase: usize = self.phase;
        self.phase = if phase == usize::MAX {
            0
        } else {
            phase + 1
        };
        let announced = DogfoodStep::Announce {
            provider: CodingProvider::Codex,
            kind: "test_turn_started".to_owned(),
        };
        if phase > 1 {
            return (announced, Err(DogfoodError::UnexpectedPhase { phase }));
        }
        let call = if phase == 0 {
            DogfoodCall::CreateGoal
        } else {
            DogfoodCall::GetGoal
        };
        let turn = DogfoodTurn {
            call,
            goal_id: String::new(),
            plan_id: String::new(),
            adapter_revision: String::new(),
            event_id: String::new(),
            cursor: String::new(),
        };
        assert(turn@ =~= fresh_turn(call));
        (announced, Ok(turn))
    }
}

/// Whether what a session reports is the success of a turn, of the one that
/// answers a given message where one is named.
pub open spec fn turn_succeeded(kind: SessionEventKind, message_id: Option<Uuid>) -> bool {
    match kind {
        SessionEventKind::TurnCompleted { message_id: completed_id, error, .. } => error is None
            && (message_id is None || message_id == Some(completed_id)),
        _ => false,
    }
}

/// Whether what a session reports is the success of a turn, of the one that
/// answers a given message where one is named.
pub fn turn_completed(kind: &SessionEventKind, message_id: Option<Uuid>) -> (res: bool)
    ensures
        res == turn_succeeded(*kind, message_id),
{
    match kind {
        SessionEventKind::TurnCompleted { message_id: completed_id, error, .. } => {
            error.is_none() && match message_id {
                Some(wanted) => wanted == *completed_id,
                None => true,
            }
        },
        _ => false,
    }
}

/// A turn makes its calls one after the other, none of them twice, and is closed
/// after the last one and no other, with its final text and the session that it
/// ran in.
pub proof fn law_turns_end(turn: DogfoodTurnView, reply: ToolReplyView)
    ensures
        advanced(turn, reply) matches Ok((after, step)) ==> {
            &&& turn.call.left() == 1 <==> step is Close
            &&& match step {
                DogfoodStepView::Announce { .. } => false,
                DogfoodStepView::Call { call } => call == after.call && call.left() + 1
                    == turn.call.left(),
                DogfoodStepView::Close { final_text, provider_session_id } => final_text
                    == closing_text(turn) && provider_session_id == Some("canonical-dogfood"@),
            }
        },
{
}

/// The steps of a turn that waits for a call, as far as replies have come in.
pub open spec fn steps_of(turn: DogfoodTurnView, replies: Seq<ToolReplyView>) -> Seq<
    DogfoodStepView,
>
    decreases replies.len(),
{
    let call = seq![DogfoodStepView::Call { call: turn.call }];
    if replies.len() == 0 {
        call
    } else {
        match advanced(turn, replies.first()) {
            Err(_) => call,
            Ok((after, DogfoodStepView::Call { .. })) => call + steps_of(
                after,
                replies.drop_first(),
            ),
            Ok((_, step)) => call.push(step),
        }
    }
}

/// The steps of a whole run in a phase, as far as replies have come in.
pub open spec fn run_steps(phase: nat, replies: Seq<ToolReplyView>) -> Seq<DogfoodStepView> {
    let announced = seq![announcement()];
    match opened(phase) {
        Some(turn) => announced + steps_of(turn, replies),
        None => announced,
    }
}

/// Behind the announcement come calls alone, and at most one step that closes the
/// turn, which is the last.
proof fn lemma_steps_of(turn: DogfoodTurnView, replies: Seq<ToolReplyView>)
    ensures
        1 <= steps_of(turn, replies).len() <= turn.call.left() + 1,
        forall|i: int|
            0 <= i < steps_of(turn, replies).len() - 1 ==> (#[trigger] steps_of(
                turn,
                replies,
            )[i]) is Call,
        !(steps_of(turn, replies).last() is Announce),
        steps_of(turn, replies).last() is Close ==> replies.len() >= turn.call.left(),
        steps_of(turn, replies).last() matches DogfoodStepView::Close {
            provider_session_id,
            ..
        } ==> provider_session_id == Some("canonical-dogfood"@),
    decreases replies.len(),
{
    let steps = steps_of(turn, replies);
    if replies.len() > 0 {
        law_turns_end(turn, replies.first());
        if let Ok((after, DogfoodStepView::Call { .. })) = advanced(turn, replies.first()) {
            let rest = steps_of(after, replies.drop_first());
            lemma_steps_of(after, replies.drop_first());
            assert(steps.last() == rest.last());
            assert forall|i: int| 0 <= i < steps.len() - 1 implies (#[trigger] steps[i]) is Call by {
                if i > 0 {
                    assert(steps[i] == rest[i - 1]);
                }
            }
        }
    }
}

/// A run announces itself first and once, whatever comes of it. Behind that it
/// makes at most eight calls, and closes at most once, as the last thing it does.
/// So it sends the announcement and at most one message. Past the two turns the
/// announcement is all there is.
pub proof fn law_a_run_announces_and_closes_once(phase: nat, replies: Seq<ToolReplyView>)
    ensures
        ({
            let steps = run_steps(phase, replies);
            &&& 1 <= steps.len() <= 10
            &&& steps[0] == announcement()
            &&& forall|i: int| 1 <= i < steps.len() - 1 ==> (#[trigger] steps[i]) is Call
            &&& steps.len() > 1 ==> !(steps.last() is Announce)
            &&& steps.last() matches DogfoodStepView::Close { provider_session_id, .. }
                ==> provider_session_id == Some("canonical-dogfood"@) && replies.len() >= 8
            &&& phase > 1 ==> steps.len() == 1
        }),
{
    let steps = run_steps(phase, replies);
    if let Some(turn) = opened(phase) {
        let own = steps_of(turn, replies);
        lemma_steps_of(turn, replies);
        assert(steps.last() == own.last());
        assert forall|i: int| 1 <= i < steps.len() - 1 implies (#[trigger] steps[i]) is Call by {
            assert(steps[i] == own[i - 1]);
        }
    }
}

/// A turn forgets nothing that it has learned, except that what a call returns
/// replaces what that same call is asked for.
pub proof fn law_turns_remember(turn: DogfoodTurnView, reply: ToolReplyView)
    ensures
        advanced(turn, reply) matches Ok((after, _)) ==> {
            &&& after.goal_id != turn.goal_id ==> turn.call == DogfoodCall::CreateGoal
            &&& after.plan_id != turn.plan_id ==> turn.call == DogfoodCall::StartPlan || turn.call
                == DogfoodCall::GetPlan
            &&& after.event_id != turn.event_id ==> turn.call == DogfoodCall::IndexHistory
            &&& after.cursor != turn.cursor ==> turn.call == DogfoodCall::IndexHistory
            &&& after.adapter_revision != turn.adapter_revision ==> turn.call
                == DogfoodCall::CreateAdapter
        },
{
}

} // verus!
