//! Ready-made values that exercise the runtime.

use crate::directory::{local_human_id, local_human_participant_id, with_execution_workspace};
use crate::model::views;
use crate::outside::{is_random_uuid, new_v4, utc_now};
use crate::session::{
    CodingProvider, EventActor, LaunchSession, MessageStatus, PermissionMode, PromptDelivery,
    ProviderAuthMethod, ProviderCapability, ProviderCapabilityView, ResponseLanguage, SessionEvent,
    SessionEventKind, SubagentActivityKind, SubagentSnapshot, SubagentSnapshotView, SubagentStatus,
};
use crate::store::{StoreState, WorkspaceTables};
use crate::text::{decimal, decimal_text};
use crate::time::Timestamp;
use crate::workspace::Uuid;
use vstd::prelude::*;
use vstd::seq_lib::{to_multiset_build, to_multiset_insert};
use vstd::string::StringExecFns;
use vstd::utf8::encode_utf8;

verus! {

/// The configuration of a session that may do everything in a directory.
pub fn configured(directory: &str) -> (res: SessionEventKind)
    ensures
        res matches SessionEventKind::SessionConfigured {
            cwd,
            provider,
            model,
            effort,
            fast,
            response_language,
            permission_mode,
        } && cwd@ == directory@ && provider == CodingProvider::Codex && model is Some
            && model->Some_0@ == "gpt-test"@ && effort is Some && effort->Some_0@ == "high"@
            && !fast && response_language == ResponseLanguage::Auto && permission_mode
            == PermissionMode::FullAccess,
{
    SessionEventKind::SessionConfigured {
        cwd: directory.to_owned(),
        provider: CodingProvider::Codex,
        model: Some("gpt-test".to_owned()),
        effort: Some("high".to_owned()),
        fast: false,
        response_language: ResponseLanguage::Auto,
        permission_mode: PermissionMode::FullAccess,
    }
}

/// The configuration of a session on a routed model.
pub fn opencode_configured(model: &str) -> (res: SessionEventKind)
    ensures
        res matches SessionEventKind::SessionConfigured {
            cwd,
            provider,
            model: chosen,
            effort,
            fast,
            response_language,
            permission_mode,
        } && cwd@ == "/tmp"@ && provider == CodingProvider::OpenCode && chosen is Some
            && chosen->Some_0@ == model@ && effort is None && !fast && response_language
            == ResponseLanguage::Auto && permission_mode == PermissionMode::Auto,
{
    SessionEventKind::SessionConfigured {
        cwd: "/tmp".to_owned(),
        provider: CodingProvider::OpenCode,
        model: Some(model.to_owned()),
        effort: None,
        fast: false,
        response_language: ResponseLanguage::default(),
        permission_mode: PermissionMode::Auto,
    }
}

/// A whole message of the user that steers a running turn.
pub fn message(message_id: Uuid, text: &str) -> (res: SessionEventKind)
    ensures
        res matches SessionEventKind::Message { message_id: id, actor, text: said, status, delivery }
            && id == message_id && actor == EventActor::User && said@ == text@ && status
            == MessageStatus::Complete && delivery == Some(PromptDelivery::Steer),
{
    SessionEventKind::Message {
        message_id,
        actor: EventActor::User,
        text: text.to_owned(),
        status: MessageStatus::Complete,
        delivery: Some(PromptDelivery::Steer),
    }
}

/// Whether a journal entry is what is recorded of a child that moved to a status.
/// When it did is left open.
pub open spec fn records_move(
    kind: SessionEventKind,
    child_id: Uuid,
    parent_id: Uuid,
    task: Seq<char>,
    status: SubagentStatus,
) -> bool {
    kind matches SessionEventKind::SubagentActivity { activity, agent } && activity
        == SubagentActivityKind::Updated && agent@ == (SubagentSnapshotView {
        session_id: child_id,
        parent_session_id: parent_id,
        task_name: task,
        status,
        provider: CodingProvider::Claude,
        model: None,
        effort: None,
        cwd: "/tmp"@,
        created_at: agent.created_at,
        updated_at: agent.created_at,
        detail: None,
        final_text: None,
    })
}

/// What a journal records of a child that moved to a status.
pub fn subagent_activity(child_id: Uuid, parent_id: Uuid, task: &str, status: SubagentStatus) -> (res:
    SessionEventKind)
    ensures
        records_move(res, child_id, parent_id, task@, status),
{
    let now = utc_now();
    SessionEventKind::SubagentActivity {
        activity: SubagentActivityKind::Updated,
        agent: SubagentSnapshot {
            session_id: child_id,
            parent_session_id: parent_id,
            task_name: task.to_owned(),
            status,
            provider: CodingProvider::Claude,
            model: None,
            effort: None,
            cwd: "/tmp".to_owned(),
            created_at: now,
            updated_at: now,
            detail: None,
            final_text: None,
        },
    }
}

/// The identities of events, in order.
pub fn event_ids(events: &[SessionEvent]) -> (res: Vec<Uuid>)
    ensures
        res@ == events@.map_values(|event: SessionEvent| event.id),
{
    let mut res: Vec<Uuid> = Vec::new();
    let mut index: usize = 0;
    while index < events.len()
        invariant
            index <= events.len(),
            res.len() == index,
            forall|i: int| 0 <= i < index ==> #[trigger] res@[i] == events@[i].id,
        decreases events.len() - index,
    {
        res.push(events[index].id);
        index = index + 1;
    }
    assert(res@ =~= events@.map_values(|event: SessionEvent| event.id));
    res
}

/// Non-decreasing numbers.
pub open spec fn ascending(samples: Seq<u64>) -> bool {
    forall|i: int, j: int| 0 <= i < j < samples.len() ==> samples[i] <= samples[j]
}

/// The position of the 95th percentile among `count` sorted samples.
pub open spec fn p95_position(count: nat) -> int {
    let above = (count * 95 + 99) / 100;
    if above > 0 {
        above - 1
    } else {
        0
    }
}

/// Sorts durations, given in nanoseconds, and returns their 95th percentile.
pub fn duration_p95(samples: &mut Vec<u64>) -> (res: u64)
    requires
        0 < old(samples)@.len(),
        old(samples)@.len() * 95 <= usize::MAX,
    ensures
        ascending(final(samples)@),
        final(samples)@.to_multiset() == old(samples)@.to_multiset(),
        res == final(samples)@[p95_position(old(samples)@.len())],
{
    let ghost before = samples@;
    let mut sorted: Vec<u64> = Vec::new();
    let mut index: usize = 0;
    assert(before.take(0) =~= sorted@);
    while index < samples.len()
        invariant
            index <= samples.len(),
            before == samples@,
            ascending(sorted@),
            sorted@.to_multiset() == before.take(index as int).to_multiset(),
            sorted@.len() == index,
        decreases samples.len() - index,
    {
        let sample: u64 = samples[index];
        let mut at: usize = sorted.len();
        while at > 0 && sorted[at - 1] > sample
            invariant
                at <= sorted.len(),
                forall|i: int| at <= i < sorted.len() ==> sample <= #[trigger] sorted@[i],
            decreases at,
        {
            at = at - 1;
        }
        let ghost prior = sorted@;
        sorted.insert(at, sample);
        proof {
            to_multiset_insert(prior, at as int, sample);
            assert(before.take(index + 1) =~= before.take(index as int).push(sample));
            to_multiset_build(before.take(index as int), sample);
            assert forall|i: int, j: int| 0 <= i < j < sorted@.len() implies sorted@[i]
                <= sorted@[j] by {
                if j < at {
                    assert(prior[i] <= prior[j]);
                } else if j == at {
                    assert(prior[i] <= prior[at - 1]);
                } else if i < at {
                    assert(prior[i] <= prior[j - 1]);
                } else if i > at {
                    assert(prior[i - 1] <= prior[j - 1]);
                }
            }
        }
        index = index + 1;
    }
    assert(before.take(index as int) =~= before);
    let count: usize = sorted.len();
    *samples = sorted;
    let scaled: usize = count * 95;
    let above: usize = if scaled % 100 > 0 {
        scaled / 100 + 1
    } else {
        scaled / 100
    };
    let position: usize = if above > 0 {
        above - 1
    } else {
        0
    };
    samples[position]
}

/// What a test installation knows of one provider.
pub open spec fn tested(provider: CodingProvider) -> ProviderCapabilityView {
    ProviderCapabilityView {
        provider,
        installed: true,
        version: Some("test"@),
        authenticated: true,
        auth_detail: Some("test credentials"@),
        auth_methods: seq![ProviderAuthMethod::Subscription],
        can_spawn: true,
    }
}

/// What a test installation knows of one provider.
fn test_capability(provider: CodingProvider) -> (res: ProviderCapability)
    ensures
        res@ == tested(provider),
{
    let res = ProviderCapability {
        provider,
        installed: true,
        version: Some("test".to_owned()),
        authenticated: true,
        auth_detail: Some("test credentials".to_owned()),
        auth_methods: vec![ProviderAuthMethod::Subscription],
        can_spawn: true,
    };
    assert(res@ =~= tested(provider));
    res
}

/// What a test installation knows of its providers.
pub fn test_provider_capabilities() -> (res: Vec<ProviderCapability>)
    ensures
        views(res@) == seq![
            tested(CodingProvider::Codex),
            tested(CodingProvider::Claude),
            tested(CodingProvider::OpenRouter),
            tested(CodingProvider::OpenAiCompatible),
        ],
{
    let res = vec![
        test_capability(CodingProvider::Codex),
        test_capability(CodingProvider::Claude),
        test_capability(CodingProvider::OpenRouter),
        test_capability(CodingProvider::OpenAiCompatible),
    ];
    assert(views(res@) =~= seq![
        tested(CodingProvider::Codex),
        tested(CodingProvider::Claude),
        tested(CodingProvider::OpenRouter),
        tested(CodingProvider::OpenAiCompatible),
    ]);
    res
}

/// A session that is launched in a workspace by hand.
pub fn launch() -> (res: LaunchSession)
    ensures
        is_random_uuid(res.request_id),
        res.cwd@ == "/workspace"@,
        res.provider == CodingProvider::Codex,
        res@.model == Some("gpt-test"@),
        res@.effort == Some("high"@),
        res.fast == Some(false),
        res.response_language == ResponseLanguage::Auto,
        res.permission_mode == PermissionMode::Manual,
        res.name is None,
        res.initial_prompt is None,
        res@.provider_capabilities == seq![
            tested(CodingProvider::Codex),
            tested(CodingProvider::Claude),
            tested(CodingProvider::OpenRouter),
            tested(CodingProvider::OpenAiCompatible),
        ],
        res.team_policy is None,
{
    LaunchSession {
        request_id: new_v4(),
        cwd: "/workspace".to_owned(),
        provider: CodingProvider::Codex,
        model: Some("gpt-test".to_owned()),
        effort: Some("high".to_owned()),
        fast: Some(false),
        response_language: ResponseLanguage::Auto,
        permission_mode: PermissionMode::Manual,
        name: None,
        initial_prompt: None,
        provider_capabilities: test_provider_capabilities(),
        team_policy: None,
    }
}

/// How many journal entries a recovery profile has before its boundary.
pub const RECOVERY_PROFILE_OBSOLETE_EVENTS: u64 = 25_000;

/// How many journal entries a recovery profile has after its boundary.
pub const RECOVERY_PROFILE_RETAINED_EVENTS: u64 = 100;

/// Whether a journal entry is a whole message of the assistant.
pub open spec fn says(kind: SessionEventKind, message_id: Uuid, text: Seq<char>) -> bool {
    kind matches SessionEventKind::Message { message_id: id, actor, text: said, status, delivery }
        && id == message_id && actor == EventActor::Assistant && said@ == text && status
        == MessageStatus::Complete && delivery is None
}

/// Whether a journal entry is the one that a recovery profile has under a
/// sequence: messages, then one completed turn, the boundary, and messages again.
pub open spec fn profiles(
    kind: Option<SessionEventKind>,
    sequence: u64,
    message_id: Uuid,
    completed_message_id: Uuid,
) -> bool {
    if 1 <= sequence < RECOVERY_PROFILE_OBSOLETE_EVENTS - 1 {
        kind is Some && says(
            kind->Some_0,
            message_id,
            "obsolete recovery context "@ + decimal_text(sequence as nat),
        )
    } else if sequence == RECOVERY_PROFILE_OBSOLETE_EVENTS - 1 {
        kind matches Some(
            SessionEventKind::TurnStarted { message_id: id, provider, model, effort, fast },
        ) && id == completed_message_id && provider == CodingProvider::Codex && model is Some
            && model->Some_0@ == "gpt-profile"@ && effort is None && !fast
    } else if sequence == RECOVERY_PROFILE_OBSOLETE_EVENTS {
        kind matches Some(
            SessionEventKind::TurnCompleted {
                message_id: id,
                provider_session_id,
                final_text,
                error,
            },
        ) && id == completed_message_id && provider_session_id is None && final_text@
            == Seq::<char>::empty() && error is None
    } else if RECOVERY_PROFILE_OBSOLETE_EVENTS + 1 < sequence <= RECOVERY_PROFILE_OBSOLETE_EVENTS
        + 1 + RECOVERY_PROFILE_RETAINED_EVENTS {
        kind is Some && says(
            kind->Some_0,
            message_id,
            "retained recovery context "@ + decimal_text(sequence as nat),
        )
    } else {
        kind is None
    }
}

/// A whole message of the assistant that names its sequence.
fn numbered_message(message_id: Uuid, text: &str, sequence: u64) -> (res: SessionEventKind)
    ensures
        says(res, message_id, text@ + decimal_text(sequence as nat)),
{
    let mut said = text.to_owned();
    said.append(decimal(sequence).as_str());
    SessionEventKind::Message {
        message_id,
        actor: EventActor::Assistant,
        text: said,
        status: MessageStatus::Complete,
        delivery: None,
    }
}

/// The journal entry that a recovery profile has under a sequence, except at its
/// boundary, which the profile is made for.
pub fn recovery_profile_kind(sequence: u64, message_id: Uuid, completed_message_id: Uuid) -> (res:
    Option<SessionEventKind>)
    ensures
        profiles(res, sequence, message_id, completed_message_id),
{
    if sequence == 0 {
        None
    } else if sequence < RECOVERY_PROFILE_OBSOLETE_EVENTS - 1 {
        Some(numbered_message(message_id, "obsolete recovery context ", sequence))
    } else if sequence == RECOVERY_PROFILE_OBSOLETE_EVENTS - 1 {
        Some(
            SessionEventKind::TurnStarted {
                message_id: completed_message_id,
                provider: CodingProvider::Codex,
                model: Some("gpt-profile".to_owned()),
                effort: None,
                fast: false,
            },
        )
    } else if sequence == RECOVERY_PROFILE_OBSOLETE_EVENTS {
        let final_text = String::new();
        assert(final_text@ =~= Seq::<char>::empty());
        Some(
            SessionEventKind::TurnCompleted {
                message_id: completed_message_id,
                provider_session_id: None,
                final_text,
                error: None,
            },
        )
    } else if sequence == RECOVERY_PROFILE_OBSOLETE_EVENTS + 1 {
        None
    } else if sequence <= RECOVERY_PROFILE_OBSOLETE_EVENTS + 1 + RECOVERY_PROFILE_RETAINED_EVENTS {
        Some(numbered_message(message_id, "retained recovery context ", sequence))
    } else {
        None
    }
}

/// The name of a numbered task.
pub open spec fn task_text(index: int) -> Seq<char> {
    "task_"@ + decimal_text(index as nat)
}

/// Whether journal entries say that children started and ran, one after the
/// other.
pub open spec fn children_started(
    kinds: Seq<SessionEventKind>,
    session_id: Uuid,
    children: Seq<Uuid>,
    count: int,
) -> bool {
    forall|i: int|
        0 <= i < count ==> records_move(
            #[trigger] kinds[2 * i],
            children[i],
            session_id,
            task_text(i),
            SubagentStatus::Starting,
        ) && records_move(
            kinds[2 * i + 1],
            children[i],
            session_id,
            task_text(i),
            SubagentStatus::Running,
        )
}

/// What is appended to a journal before it is recovered: children that run, a
/// prompt, a prompt that was recalled, and one call of a tool.
pub fn recovery_fixture(session_id: Uuid, children: &[Uuid], queued_id: Uuid, recalled_id: Uuid) -> (res:
    Vec<SessionEventKind>)
    requires
        2 * children@.len() + 4 <= usize::MAX,
    ensures
        res@.len() == 2 * children@.len() + 4,
        children_started(res@, session_id, children@, children@.len() as int),
        ({
            let first = 2 * children@.len() as int;
            &&& res@[first] matches SessionEventKind::Message {
                message_id,
                actor,
                text,
                status,
                delivery,
            } && message_id == queued_id && actor == EventActor::User && text@ == "queued prompt"@
                && status == MessageStatus::Complete && delivery == Some(PromptDelivery::Steer)
            &&& res@[first + 1] matches SessionEventKind::PromptRecalled { message_id, text }
                && message_id == recalled_id && text@ == "recalled prompt"@
            &&& res@[first + 2] matches SessionEventKind::ToolStarted { tool_call_id, name, input }
                && tool_call_id@ == "tool-1"@ && name@ == "read_file"@ && input@
                == "{\"path\":\"/tmp/a\"}"@
            &&& res@[first + 3] matches SessionEventKind::ToolCompleted {
                tool_call_id,
                output,
                is_error,
            } && tool_call_id@ == "tool-1"@ && output@ == "ok"@ && !is_error
        }),
{
    let mut kinds: Vec<SessionEventKind> = Vec::new();
    let mut index: usize = 0;
    while index < children.len()
        invariant
            index <= children.len(),
            kinds@.len() == 2 * index,
            children_started(kinds@, session_id, children@, index as int),
        decreases children.len() - index,
    {
        let ghost before = kinds@;
        let mut task = "task_".to_owned();
        task.append(decimal(index as u64).as_str());
        kinds.push(
            subagent_activity(children[index], session_id, task.as_str(), SubagentStatus::Starting),
        );
        kinds.push(
            subagent_activity(children[index], session_id, task.as_str(), SubagentStatus::Running),
        );
        assert forall|i: int| 0 <= i < index + 1 implies records_move(
            #[trigger] kinds@[2 * i],
            children@[i],
            session_id,
            task_text(i),
            SubagentStatus::Starting,
        ) && records_move(
            kinds@[2 * i + 1],
            children@[i],
            session_id,
            task_text(i),
            SubagentStatus::Running,
        ) by {
            if i < index {
                assert(kinds@[2 * i] == before[2 * i]);
                assert(kinds@[2 * i + 1] == before[2 * i + 1]);
            }
        }
        index = index + 1;
    }
    let ghost started = kinds@;
    kinds.push(message(queued_id, "queued prompt"));
    kinds.push(
        SessionEventKind::PromptRecalled {
            message_id: recalled_id,
            text: "recalled prompt".to_owned(),
        },
    );
    kinds.push(
        SessionEventKind::ToolStarted {
            tool_call_id: "tool-1".to_owned(),
            name: "read_file".to_owned(),
            input: "{\"path\":\"/tmp/a\"}".to_owned(),
        },
    );
    kinds.push(
        SessionEventKind::ToolCompleted {
            tool_call_id: "tool-1".to_owned(),
            output: "ok".to_owned(),
            is_error: false,
        },
    );
    assert forall|i: int| 0 <= i < children@.len() implies records_move(
        #[trigger] kinds@[2 * i],
        children@[i],
        session_id,
        task_text(i),
        SubagentStatus::Starting,
    ) && records_move(
        kinds@[2 * i + 1],
        children@[i],
        session_id,
        task_text(i),
        SubagentStatus::Running,
    ) by {
        assert(kinds@[2 * i] == started[2 * i]);
        assert(kinds@[2 * i + 1] == started[2 * i + 1]);
    }
    kinds
}

/// The tables once the first `count` children of a root session share its
/// workspace.
pub open spec fn team_bound(
    state: StoreState,
    root: Uuid,
    children: Seq<Uuid>,
    count: nat,
    now: Timestamp,
) -> StoreState
    decreases count,
{
    let human = local_human_id("Human"@);
    if count == 0 {
        with_execution_workspace(
            state,
            root,
            "test team"@,
            human,
            "Human"@,
            root,
            "Director"@,
            now,
        )
    } else {
        with_execution_workspace(
            team_bound(state, root, children, (count - 1) as nat, now),
            root,
            "test team"@,
            human,
            "Human"@,
            children[count - 1],
            "Worker"@,
            now,
        )
    }
}

/// Lets a root session and its children share the workspace of the root.
pub fn bind_test_team(tables: &mut WorkspaceTables, root: Uuid, children: &[Uuid], now: Timestamp)
    requires
        old(tables)@.wf(),
    ensures
        final(tables)@ == team_bound(old(tables)@, root, children@, children@.len(), now),
        final(tables)@.wf(),
{
    let human = local_human_participant_id("Human");
    let ghost before = tables@;
    tables.ensure_execution_workspace(root, "test team", human, "Human", root, "Director", now);
    let mut index: usize = 0;
    while index < children.len()
        invariant
            index <= children.len(),
            human == local_human_id("Human"@),
            before == old(tables)@,
            tables@.wf(),
            tables@ == team_bound(before, root, children@, index as nat, now),
        decreases children.len() - index,
    {
        tables.ensure_execution_workspace(
            root,
            "test team",
            human,
            "Human",
            children[index],
            "Worker",
            now,
        );
        index = index + 1;
    }
}

/// The signature that a PNG image starts with.
pub open spec fn png_signature() -> Seq<u8> {
    seq![0x89u8, 0x50, 0x4e, 0x47, 0x0d, 0x0a, 0x1a, 0x0a]
}

/// Bytes that pass for a PNG image by their signature.
pub fn sample_png() -> (res: Vec<u8>)
    ensures
        res@ == png_signature() + encode_utf8("fake IDAT payload for tests"@),
{
    let mut bytes: Vec<u8> = vec![0x89, 0x50, 0x4e, 0x47, 0x0d, 0x0a, 0x1a, 0x0a];
    let ghost signature = bytes@;
    assert(signature =~= png_signature());
    bytes.extend_from_slice("fake IDAT payload for tests".as_bytes());
    assert(bytes@ =~= signature + encode_utf8("fake IDAT payload for tests"@));
    bytes
}

} // verus!
