//! What the scripted agent does, and where ready-made values stand, said of what goes
//! in and what comes out.

use crate::directory::{local_human_id, with_member};
use crate::dogfood::{
    advanced, announcement, arguments_text, checkpoint_text, closing_text, holds_prompt, indexed_event, opened,
    plan_text, program_text, turn_succeeded, DogfoodCall, DogfoodError, DogfoodStepView, DogfoodTurnView,
    HistoryDocumentView, ToolReplyView,
};
use crate::fixtures::{p95_position, team_bound};
use crate::laws_text::law_texts_hold_their_pieces;
use crate::model::{lemma_position, position};
use crate::outside::quoted_text;
use crate::session::{CodingProvider, SessionEventKind};
use crate::store::{member_is, StoreState};
use crate::text::{holds, stands_at};
use crate::time::Timestamp;
use crate::workspace::{Uuid, WorkspaceMembership, WorkspaceRole};
use vstd::prelude::*;

verus! {

/// Whether a document is the prompt's: it has an identity and says the word.
pub open spec fn is_the_prompt(document: HistoryDocumentView) -> bool {
    document.event_id is Some && document.content is Some && holds(
        document.content->Some_0,
        "lossless-dogfood"@,
    )
}

/// The prompt is indexed as the first document that is the prompt's, and not at all
/// where none is.
pub proof fn law_the_prompt_is_the_first_that_says_it(
    documents: Seq<HistoryDocumentView>,
    k: int,
)
    requires
        0 <= k < documents.len(),
        is_the_prompt(documents[k]),
        forall|i: int| 0 <= i < k ==> !is_the_prompt(#[trigger] documents[i]),
    ensures
        indexed_event(documents) == documents[k].event_id,
        indexed_event(documents.take(k)) is None,
{
    lemma_position(documents, holds_prompt());
    lemma_position(documents.take(k), holds_prompt());
    assert(holds_prompt()(documents[k]));
    if let Some(index) = position(documents, holds_prompt()) {
        if index < k {
            assert(is_the_prompt(documents[index]));
        }
    }
    if let Some(index) = position(documents.take(k), holds_prompt()) {
        assert(documents.take(k)[index] == documents[index]);
        assert(is_the_prompt(documents[index]));
    }
}

/// A turn goes on exactly where the reply is what its call is made for: an identity or
/// a revision where one is asked for, yes where a yes is needed, and the very text that
/// is expected where one is.
pub proof fn law_turns_go_on_where_replies_are_good(turn: DogfoodTurnView, reply: ToolReplyView)
    ensures
        ({
            let call = turn.call;
            let goes_on = advanced(turn, reply) is Ok;
            &&& call == DogfoodCall::CreateGoal || call == DogfoodCall::StartPlan || call
                == DogfoodCall::CreateAdapter || call == DogfoodCall::GetPlan ==> goes_on
                == reply.text is Some
            &&& call == DogfoodCall::TestAdapter || call == DogfoodCall::Resolve || call
                == DogfoodCall::RuntimeStatus || call == DogfoodCall::RetrieveAgain ==> goes_on
                == reply.flag
            &&& call == DogfoodCall::ReadPlanId || call == DogfoodCall::Restore ==> goes_on == (
            reply.text == Some(turn.plan_id))
            &&& call == DogfoodCall::Retrieve ==> goes_on == (reply.text == Some(turn.event_id))
            &&& call == DogfoodCall::Checkpoint ==> goes_on == (reply.text == Some(
                "canonical-dogfood"@,
            ))
            &&& call == DogfoodCall::GetGoal ==> goes_on == (reply.text == Some("active"@))
            &&& call == DogfoodCall::CompleteGoal ==> goes_on == (reply.text == Some("complete"@))
            &&& call == DogfoodCall::CompletePlan ==> goes_on
            &&& call == DogfoodCall::IndexHistory ==> goes_on == indexed_event(reply.documents) is Some
        }),
{
}

/// A turn that looks for the prompt goes on where some document is the prompt's.
pub proof fn law_prompts_that_are_indexed_are_found(
    turn: DogfoodTurnView,
    reply: ToolReplyView,
    k: int,
)
    requires
        turn.call == DogfoodCall::IndexHistory,
        0 <= k < reply.documents.len(),
        is_the_prompt(reply.documents[k]),
        forall|i: int| 0 <= i < k ==> !is_the_prompt(#[trigger] reply.documents[i]),
    ensures
        advanced(turn, reply) matches Ok((after, step)) && Some(after.event_id)
            == reply.documents[k].event_id && after.cursor == reply.cursor && step == (
        DogfoodStepView::Call { call: DogfoodCall::CreateAdapter }),
{
    law_the_prompt_is_the_first_that_says_it(reply.documents, k);
}

/// What a call returns is kept: the identities of the goal, the plan and the indexed
/// event, the revision, and where the history goes on.
pub proof fn law_turns_learn(turn: DogfoodTurnView, reply: ToolReplyView)
    ensures
        advanced(turn, reply) matches Ok((after, _)) ==> {
            &&& turn.call == DogfoodCall::CreateGoal ==> Some(after.goal_id) == reply.text
            &&& turn.call == DogfoodCall::StartPlan || turn.call == DogfoodCall::GetPlan ==> Some(
                after.plan_id,
            ) == reply.text
            &&& turn.call == DogfoodCall::CreateAdapter ==> Some(after.adapter_revision)
                == reply.text
            &&& turn.call == DogfoodCall::IndexHistory ==> Some(after.event_id) == indexed_event(
                reply.documents,
            ) && after.cursor == reply.cursor
        },
{
}

/// The first turn creates its goal before its plan, indexes the history, has an
/// adapter made and tested, retrieves by it and resolves what it found before it leaves
/// a checkpoint. The second finds goal, plan, recovery and namespace again before it
/// restores, retrieves once more and completes its plan and then its goal.
pub proof fn law_calls_come_in_order(
    turn: DogfoodTurnView,
    reply: ToolReplyView,
    first: Seq<DogfoodCall>,
    second: Seq<DogfoodCall>,
    k: int,
)
    requires
        first == seq![
            DogfoodCall::CreateGoal,
            DogfoodCall::StartPlan,
            DogfoodCall::IndexHistory,
            DogfoodCall::CreateAdapter,
            DogfoodCall::TestAdapter,
            DogfoodCall::Retrieve,
            DogfoodCall::Resolve,
            DogfoodCall::Checkpoint,
        ],
        second == seq![
            DogfoodCall::GetGoal,
            DogfoodCall::GetPlan,
            DogfoodCall::RuntimeStatus,
            DogfoodCall::ReadPlanId,
            DogfoodCall::Restore,
            DogfoodCall::RetrieveAgain,
            DogfoodCall::CompletePlan,
            DogfoodCall::CompleteGoal,
        ],
        0 <= k < 8,
        advanced(turn, reply) is Ok,
    ensures
        ({
            let (after, step) = advanced(turn, reply)->Ok_0;
            &&& turn.call == first[k] && k < 7 ==> step == (DogfoodStepView::Call {
                call: first[k + 1],
            }) && after.call == first[k + 1]
            &&& turn.call == second[k] && k < 7 ==> step == (DogfoodStepView::Call {
                call: second[k + 1],
            }) && after.call == second[k + 1]
            &&& k == 7 && (turn.call == first[k] || turn.call == second[k]) ==> step is Close
                && after == turn
        }),
        opened(0)->Some_0.call == first[0],
        opened(1)->Some_0.call == second[0],
{
}

/// A turn that gives up tells which of its calls it was that failed it, and where a
/// retrieved event was another one, that it was.
pub proof fn law_turns_tell_what_failed(turn: DogfoodTurnView, reply: ToolReplyView)
    ensures
        advanced(turn, reply) matches Err(error) ==> {
            &&& error == DogfoodError::NoGoalId <==> turn.call == DogfoodCall::CreateGoal
            &&& error == DogfoodError::NoPlanId <==> turn.call == DogfoodCall::StartPlan
            &&& error == DogfoodError::PromptNotIndexed <==> turn.call == DogfoodCall::IndexHistory
            &&& error == DogfoodError::NoRevision <==> turn.call == DogfoodCall::CreateAdapter
            &&& error == DogfoodError::AdapterTestFailed <==> turn.call == DogfoodCall::TestAdapter
            &&& error == DogfoodError::NoEventId <==> turn.call == DogfoodCall::Retrieve
                && reply.text is None
            &&& error == DogfoodError::LocatorChanged <==> turn.call == DogfoodCall::Retrieve
                && reply.text is Some
            &&& error == DogfoodError::LocatorUnresolved <==> turn.call == DogfoodCall::Resolve
            &&& error == DogfoodError::CheckpointLost <==> turn.call == DogfoodCall::Checkpoint
            &&& error == DogfoodError::GoalNotActive <==> turn.call == DogfoodCall::GetGoal
            &&& error == DogfoodError::PlanLost <==> turn.call == DogfoodCall::GetPlan
            &&& error == DogfoodError::NotRecovered <==> turn.call == DogfoodCall::RuntimeStatus
            &&& error == DogfoodError::NotRehydrated <==> turn.call == DogfoodCall::ReadPlanId
            &&& error == DogfoodError::NotRestored <==> turn.call == DogfoodCall::Restore
            &&& error == DogfoodError::AdapterLost <==> turn.call == DogfoodCall::RetrieveAgain
            &&& error == DogfoodError::GoalNotComplete <==> turn.call == DogfoodCall::CompleteGoal
        },
{
}

/// There are two turns, which begin with nothing learned, and every run is announced
/// as a turn of the same provider.
pub proof fn law_there_are_two_turns(phase: nat)
    ensures
        opened(phase) is Some <==> phase < 2,
        opened(phase) matches Some(turn) ==> turn.goal_id.len() == 0 && turn.plan_id.len() == 0
            && turn.adapter_revision.len() == 0 && turn.event_id.len() == 0 && turn.cursor.len()
            == 0,
        announcement() == (DogfoodStepView::Announce {
            provider: CodingProvider::Codex,
            kind: "test_turn_started"@,
        }),
{
}

/// A program is handed over with the call that runs it, and so is everything that a
/// turn has learned with its checkpoint.
pub proof fn law_calls_say_what_they_are_for(turn: DogfoodTurnView)
    ensures
        program_text(turn) matches Some(program) ==> holds(
            arguments_text(turn),
            quoted_text(program),
        ),
        turn.call == DogfoodCall::Resolve ==> holds(
            arguments_text(turn),
            quoted_text(turn.event_id),
        ),
        turn.call == DogfoodCall::CompletePlan ==> holds(
            arguments_text(turn),
            quoted_text(turn.plan_id),
        ),
        turn.call == DogfoodCall::Checkpoint ==> {
            &&& program_text(turn) is Some
            &&& holds(program_text(turn)->Some_0, quoted_text(turn.adapter_revision))
            &&& holds(program_text(turn)->Some_0, turn.cursor)
            &&& holds(program_text(turn)->Some_0, quoted_text(turn.goal_id))
            &&& holds(program_text(turn)->Some_0, quoted_text(turn.event_id))
            &&& holds(program_text(turn)->Some_0, quoted_text(turn.plan_id))
        },
{
    lemma_arguments_hold(turn);
    lemma_checkpoint_holds(turn);
}

proof fn lemma_held(before: Seq<char>, piece: Seq<char>, behind: Seq<char>, whole: Seq<char>)
    requires
        whole =~= before + piece + behind,
    ensures
        holds(whole, piece),
{
    law_texts_hold_their_pieces(before, piece, behind, whole);
}

proof fn lemma_arguments_hold(turn: DogfoodTurnView)
    ensures
        program_text(turn) matches Some(program) ==> holds(
            arguments_text(turn),
            quoted_text(program),
        ),
        turn.call == DogfoodCall::Resolve ==> holds(
            arguments_text(turn),
            quoted_text(turn.event_id),
        ),
        turn.call == DogfoodCall::CompletePlan ==> holds(
            arguments_text(turn),
            quoted_text(turn.plan_id),
        ),
{
    let whole = arguments_text(turn);
    if let Some(program) = program_text(turn) {
        lemma_held("{\"code\":"@, quoted_text(program), ",\"runtime\":\"python\"}"@, whole);
    } else if turn.call == DogfoodCall::Resolve {
        lemma_held("{\"event_id\":"@, quoted_text(turn.event_id), ",\"limit\":1}"@, whole);
    } else if turn.call == DogfoodCall::CompletePlan {
        lemma_held(
            "{\"plan\":[{"@ + plan_text() + ",\"id\":"@,
            quoted_text(turn.plan_id),
            ",\"status\":\"completed\"}]}"@,
            whole,
        );
    }
}

proof fn lemma_more(text: Seq<char>, more: Seq<char>, piece: Seq<char>)
    requires
        holds(text, piece),
    ensures
        holds(text + more, piece),
{
    let start = choose|start: int| #[trigger] stands_at(text, piece, start);
    assert((text + more).subrange(start, start + piece.len()) =~= text.subrange(
        start,
        start + piece.len(),
    ));
    assert(stands_at(text + more, piece, start));
}

proof fn lemma_last(text: Seq<char>, piece: Seq<char>)
    ensures
        holds(text + piece, piece),
{
    lemma_held(text, piece, Seq::empty(), text + piece);
}

proof fn lemma_before(before: Seq<char>, text: Seq<char>, piece: Seq<char>)
    requires
        holds(text, piece),
    ensures
        holds(before + text, piece),
{
    let start = choose|start: int| #[trigger] stands_at(text, piece, start);
    let at = before.len() + start;
    assert((before + text).subrange(at, at + piece.len()) =~= text.subrange(
        start,
        start + piece.len(),
    ));
    assert(stands_at(before + text, piece, at));
}

/// A state that is left behind holds everything that the turn has learned.
proof fn lemma_state_holds(turn: DogfoodTurnView)
    ensures
        holds(checkpoint_text(turn), quoted_text(turn.adapter_revision)),
        holds(checkpoint_text(turn), turn.cursor),
        holds(checkpoint_text(turn), quoted_text(turn.goal_id)),
        holds(checkpoint_text(turn), quoted_text(turn.event_id)),
        holds(checkpoint_text(turn), quoted_text(turn.plan_id)),
{
    let revision = quoted_text(turn.adapter_revision);
    let goal = quoted_text(turn.goal_id);
    let event = quoted_text(turn.event_id);
    let plan = quoted_text(turn.plan_id);
    let a = "{\"adapter_revision\":"@;
    let b = a + revision + ",\"cursor\":"@;
    let c = b + turn.cursor + ",\"goal_id\":"@;
    let d = c + goal + ",\"history_event_id\":"@;
    let e = d + event + ",\"plan_id\":"@;
    lemma_last(a, revision);
    lemma_last(b, turn.cursor);
    lemma_last(c, goal);
    lemma_last(d, event);
    lemma_last(e, plan);
    lemma_more(a + revision, ",\"cursor\":"@, revision);
    lemma_more(b, turn.cursor, revision);
    lemma_more(b + turn.cursor, ",\"goal_id\":"@, revision);
    lemma_more(b + turn.cursor, ",\"goal_id\":"@, turn.cursor);
    lemma_more(c, goal, revision);
    lemma_more(c, goal, turn.cursor);
    lemma_more(c + goal, ",\"history_event_id\":"@, revision);
    lemma_more(c + goal, ",\"history_event_id\":"@, turn.cursor);
    lemma_more(c + goal, ",\"history_event_id\":"@, goal);
    lemma_more(d, event, revision);
    lemma_more(d, event, turn.cursor);
    lemma_more(d, event, goal);
    lemma_more(d + event, ",\"plan_id\":"@, revision);
    lemma_more(d + event, ",\"plan_id\":"@, turn.cursor);
    lemma_more(d + event, ",\"plan_id\":"@, goal);
    lemma_more(d + event, ",\"plan_id\":"@, event);
    lemma_more(e, plan, revision);
    lemma_more(e, plan, turn.cursor);
    lemma_more(e, plan, goal);
    lemma_more(e, plan, event);
    lemma_more(e + plan, "}"@, revision);
    lemma_more(e + plan, "}"@, turn.cursor);
    lemma_more(e + plan, "}"@, goal);
    lemma_more(e + plan, "}"@, event);
    lemma_more(e + plan, "}"@, plan);
}

proof fn lemma_in_checkpoint(turn: DogfoodTurnView, piece: Seq<char>)
    requires
        turn.call == DogfoodCall::Checkpoint,
        holds(checkpoint_text(turn), piece),
    ensures
        program_text(turn) is Some,
        holds(program_text(turn)->Some_0, piece),
{
    let start = "borg.checkpoint('canonical-dogfood', "@;
    lemma_before(start, checkpoint_text(turn), piece);
    lemma_more(start + checkpoint_text(turn), ")"@, piece);
}

proof fn lemma_checkpoint_holds(turn: DogfoodTurnView)
    ensures
        turn.call == DogfoodCall::Checkpoint ==> {
            &&& program_text(turn) is Some
            &&& holds(program_text(turn)->Some_0, quoted_text(turn.adapter_revision))
            &&& holds(program_text(turn)->Some_0, turn.cursor)
            &&& holds(program_text(turn)->Some_0, quoted_text(turn.goal_id))
            &&& holds(program_text(turn)->Some_0, quoted_text(turn.event_id))
            &&& holds(program_text(turn)->Some_0, quoted_text(turn.plan_id))
        },
{
    if turn.call == DogfoodCall::Checkpoint {
        lemma_state_holds(turn);
        lemma_in_checkpoint(turn, quoted_text(turn.adapter_revision));
        lemma_in_checkpoint(turn, turn.cursor);
        lemma_in_checkpoint(turn, quoted_text(turn.goal_id));
        lemma_in_checkpoint(turn, quoted_text(turn.event_id));
        lemma_in_checkpoint(turn, quoted_text(turn.plan_id));
    }
}

/// The final text of the first turn holds what it has learned, and that of the second
/// says that it was found again, whatever it was.
pub proof fn law_final_texts_hold_what_was_learned(turn: DogfoodTurnView)
    ensures
        turn.call == DogfoodCall::Checkpoint ==> holds(
            closing_text(turn),
            quoted_text(turn.event_id),
        ) && holds(closing_text(turn), quoted_text(turn.goal_id)) && holds(
            closing_text(turn),
            quoted_text(turn.plan_id),
        ),
        turn.call == DogfoodCall::CompleteGoal ==> closing_text(turn)
            == "{\"phase\":2,\"recovered\":true}"@,
{
    if turn.call == DogfoodCall::Checkpoint {
        let whole = closing_text(turn);
        let a = "{\"event_id\":"@;
        let b = a + quoted_text(turn.event_id) + ",\"goal_id\":"@;
        let c = b + quoted_text(turn.goal_id) + ",\"phase\":1,\"plan_id\":"@;
        let c_end = quoted_text(turn.plan_id) + "}"@;
        let b_end = quoted_text(turn.goal_id) + ",\"phase\":1,\"plan_id\":"@ + c_end;
        lemma_held(a, quoted_text(turn.event_id), ",\"goal_id\":"@ + b_end, whole);
        lemma_held(b, quoted_text(turn.goal_id), ",\"phase\":1,\"plan_id\":"@ + c_end, whole);
        lemma_held(c, quoted_text(turn.plan_id), "}"@, whole);
    }
}

/// A turn that ended without an error is a success, for whoever waits for any turn and
/// for whoever waits for the one that answers its message, and for nobody else. Nothing
/// but the end of a turn is one.
pub proof fn law_turns_succeed_without_an_error(
    kind: SessionEventKind,
    message_id: Uuid,
)
    ensures
        turn_succeeded(kind, None) ==> kind is TurnCompleted && kind->TurnCompleted_error is None,
        kind is TurnCompleted && kind->TurnCompleted_error is None ==> turn_succeeded(kind, None)
            && (turn_succeeded(kind, Some(message_id)) <==> kind->TurnCompleted_message_id
            == message_id),
        turn_succeeded(kind, Some(message_id)) ==> turn_succeeded(kind, None),
{
}

/// The 95th percentile is the first sample that 95 of 100 samples do not lie above.
pub proof fn law_percentiles_are_placed(count: nat)
    requires
        count > 0,
    ensures
        0 <= p95_position(count) < count,
        (p95_position(count) + 1) * 100 >= count * 95,
        p95_position(count) * 100 < count * 95,
{
}

/// Making sure of a member leaves everybody a member who was one, and makes that one a
/// member.
proof fn lemma_joined(
    rows: Seq<WorkspaceMembership>,
    offered: WorkspaceMembership,
    refresh_role: bool,
    workspace_id: Uuid,
    id: Uuid,
)
    ensures
        joins(with_member(rows, offered, refresh_role), workspace_id, id) <==> joins(
            rows,
            workspace_id,
            id,
        ) || (offered.workspace_id == workspace_id && offered.participant_id == id),
{
    let selected = member_is(offered.workspace_id, offered.participant_id);
    let after = with_member(rows, offered, refresh_role);
    lemma_position(rows, selected);
    if joins(rows, workspace_id, id) {
        let k = choose|k: int|
            0 <= k < rows.len() && (#[trigger] rows[k]).workspace_id == workspace_id
                && rows[k].participant_id == id;
        assert(after[k].workspace_id == workspace_id && after[k].participant_id == id);
    }
    match position(rows, selected) {
        Some(index) => {
            assert(after[index].workspace_id == offered.workspace_id && after[index].participant_id
                == offered.participant_id);
            assert(selected(rows[index]));
        },
        None => {
            assert(after[rows.len() as int] == offered);
        },
    }
    if joins(after, workspace_id, id) {
        let k = choose|k: int|
            0 <= k < after.len() && (#[trigger] after[k]).workspace_id == workspace_id
                && after[k].participant_id == id;
        if k < rows.len() {
            assert(rows[k].workspace_id == workspace_id && rows[k].participant_id == id);
        }
    }
}

/// Whether somebody is among the members of a workspace.
pub open spec fn joins(rows: Seq<WorkspaceMembership>, workspace_id: Uuid, id: Uuid) -> bool {
    exists|k: int|
        0 <= k < rows.len() && (#[trigger] rows[k]).workspace_id == workspace_id
            && rows[k].participant_id == id
}

/// A team that shares the workspace of its root is made of the root, the human and the
/// children, of whoever was a member before, and of nobody else. Other workspaces keep
/// their members.
pub proof fn law_teams_share_the_workspace_of_their_root(
    state: StoreState,
    root: Uuid,
    children: Seq<Uuid>,
    count: nat,
    now: Timestamp,
    workspace_id: Uuid,
    id: Uuid,
)
    requires
        count <= children.len(),
    ensures
        joins(team_bound(state, root, children, count, now).members, workspace_id, id) <==> {
            ||| joins(state.members, workspace_id, id)
            ||| workspace_id == root && (id == root || id == local_human_id("Human"@)
                || children.take(count as int).contains(id))
        },
        team_bound(state, root, children, count, now).events == state.events,
        team_bound(state, root, children, count, now).deliveries == state.deliveries,
        team_bound(state, root, children, count, now).instances == state.instances,
    decreases count,
{
    let human = local_human_id("Human"@);
    let before = if count == 0 {
        state
    } else {
        team_bound(state, root, children, (count - 1) as nat, now)
    };
    let agent = if count == 0 {
        root
    } else {
        children[count - 1]
    };
    let owner = WorkspaceMembership {
        workspace_id: root,
        participant_id: human,
        role: WorkspaceRole::Owner,
        joined_at: now,
    };
    let editor = WorkspaceMembership {
        workspace_id: root,
        participant_id: agent,
        role: WorkspaceRole::Editor,
        joined_at: now,
    };
    lemma_joined(before.members, owner, true, workspace_id, id);
    lemma_joined(with_member(before.members, owner, true), editor, true, workspace_id, id);
    if count > 0 {
        law_teams_share_the_workspace_of_their_root(
            state,
            root,
            children,
            (count - 1) as nat,
            now,
            workspace_id,
            id,
        );
        let front = children.take(count - 1);
        assert(children.take(count as int) =~= front.push(agent));
        assert(children.take(count as int)[count - 1] == agent);
        if front.contains(id) {
            let k = choose|k: int| 0 <= k < front.len() && front[k] == id;
            assert(children.take(count as int)[k] == id);
        }
    }
}

} // verus!
