//! Sessions: how they are launched, what their journal records, and the
//! children they run.

use crate::model::{lemma_items_equal, lemma_views_equal, option_view, same_text, views};
use crate::time::Timestamp;
use crate::workspace::Uuid;
use vstd::prelude::*;
use vstd::std_specs::cmp::PartialEqSpecImpl;

verus! {

/// Who runs a session's turns.
#[derive(Debug, Clone, Copy, PartialEq, Eq, Structural)]
pub enum CodingProvider {
    Codex,
    Claude,
    OpenRouter,
    OpenAiCompatible,
    OpenCode,
    Kimi,
    Glm,
}

/// What a session may do unasked.
#[derive(Debug, Clone, Copy, PartialEq, Eq, Structural)]
pub enum PermissionMode {
    Manual,
    Auto,
    FullAccess,
}

/// The language that a session answers in.
#[derive(Debug, Clone, Copy, PartialEq, Eq, Structural)]
pub enum ResponseLanguage {
    Auto,
}

impl Default for ResponseLanguage {
    fn default() -> (res: ResponseLanguage)
        ensures
            res == ResponseLanguage::Auto,
    {
        ResponseLanguage::Auto
    }
}

/// How a provider is paid.
#[derive(Debug, Clone, Copy)]
pub enum ProviderAuthMethod {
    Subscription,
    ApiKey,
}

impl PartialEq for ProviderAuthMethod {
    fn eq(&self, other: &Self) -> (res: bool) {
        match (self, other) {
            (ProviderAuthMethod::Subscription, ProviderAuthMethod::Subscription) => true,
            (ProviderAuthMethod::ApiKey, ProviderAuthMethod::ApiKey) => true,
            _ => false,
        }
    }
}

impl PartialEqSpecImpl for ProviderAuthMethod {
    open spec fn obeys_eq_spec() -> bool {
        true
    }

    open spec fn eq_spec(&self, other: &Self) -> bool {
        *self == *other
    }
}

impl Eq for ProviderAuthMethod {

}

/// Who a journalled message comes from.
#[derive(Debug, Clone, Copy, PartialEq, Eq, Structural)]
pub enum EventActor {
    User,
    Assistant,
    System,
}

/// Whether a journalled message is whole.
#[derive(Debug, Clone, Copy, PartialEq, Eq, Structural)]
pub enum MessageStatus {
    Queued,
    InProgress,
    Complete,
    Failed,
}

/// How a prompt reaches a running turn.
#[derive(Debug, Clone, Copy, PartialEq, Eq, Structural)]
pub enum PromptDelivery {
    Steer,
    Queue,
}

/// How far a session has come.
#[derive(Debug, Clone, Copy, PartialEq, Eq, Structural)]
pub enum SessionStatus {
    Running,
    Ready,
    Stopped,
}

/// How far a child has come.
#[derive(Debug, Clone, Copy, PartialEq, Eq, Structural)]
pub enum SubagentStatus {
    Starting,
    Running,
    WaitingForApproval,
    Ready,
    Stopped,
    Failed,
}

/// What happened to a child.
#[derive(Debug, Clone, Copy, PartialEq, Eq, Structural)]
pub enum SubagentActivityKind {
    Started,
    Updated,
    Completed,
    Stopped,
}

/// What is known of a provider on this machine.
#[derive(Debug)]
pub struct ProviderCapability {
    pub provider: CodingProvider,
    pub installed: bool,
    pub version: Option<String>,
    pub authenticated: bool,
    pub auth_detail: Option<String>,
    pub auth_methods: Vec<ProviderAuthMethod>,
    pub can_spawn: bool,
}

/// The mathematical content of a [`ProviderCapability`].
#[verifier::ext_equal]
pub struct ProviderCapabilityView {
    pub provider: CodingProvider,
    pub installed: bool,
    pub version: Option<Seq<char>>,
    pub authenticated: bool,
    pub auth_detail: Option<Seq<char>>,
    pub auth_methods: Seq<ProviderAuthMethod>,
    pub can_spawn: bool,
}

impl View for ProviderCapability {
    type V = ProviderCapabilityView;

    open spec fn view(&self) -> ProviderCapabilityView {
        ProviderCapabilityView {
            provider: self.provider,
            installed: self.installed,
            version: option_view(self.version),
            authenticated: self.authenticated,
            auth_detail: option_view(self.auth_detail),
            auth_methods: self.auth_methods@,
            can_spawn: self.can_spawn,
        }
    }
}

impl Clone for ProviderCapability {
    fn clone(&self) -> (res: Self)
        ensures
            res@ == self@,
    {
        let res = ProviderCapability {
            provider: self.provider,
            installed: self.installed,
            version: self.version.clone(),
            authenticated: self.authenticated,
            auth_detail: self.auth_detail.clone(),
            auth_methods: self.auth_methods.clone(),
            can_spawn: self.can_spawn,
        };
        assert(res.auth_methods@ =~= self.auth_methods@);
        res
    }
}

impl PartialEq for ProviderCapability {
    fn eq(&self, other: &Self) -> (res: bool) {
        proof {
            lemma_items_equal(self.auth_methods@, other.auth_methods@);
        }
        self.provider == other.provider
            && self.installed == other.installed
            && same_text(&self.version, &other.version)
            && self.authenticated == other.authenticated
            && same_text(&self.auth_detail, &other.auth_detail)
            && self.auth_methods == other.auth_methods
            && self.can_spawn == other.can_spawn
    }
}

impl PartialEqSpecImpl for ProviderCapability {
    open spec fn obeys_eq_spec() -> bool {
        true
    }

    open spec fn eq_spec(&self, other: &Self) -> bool {
        self@ == other@
    }
}

impl Eq for ProviderCapability {

}

/// How an autonomous team works.
#[derive(Debug)]
pub struct TeamPolicy {
    pub team_id: Uuid,
    pub director_id: Uuid,
    pub session_id: Uuid,
    pub provider: String,
    pub worker_effort: String,
}

/// The mathematical content of a [`TeamPolicy`].
#[verifier::ext_equal]
pub struct TeamPolicyView {
    pub team_id: Uuid,
    pub director_id: Uuid,
    pub session_id: Uuid,
    pub provider: Seq<char>,
    pub worker_effort: Seq<char>,
}

impl View for TeamPolicy {
    type V = TeamPolicyView;

    open spec fn view(&self) -> TeamPolicyView {
        TeamPolicyView {
            team_id: self.team_id,
            director_id: self.director_id,
            session_id: self.session_id,
            provider: self.provider@,
            worker_effort: self.worker_effort@,
        }
    }
}

impl Clone for TeamPolicy {
    fn clone(&self) -> (res: Self)
        ensures
            res@ == self@,
    {
        TeamPolicy {
            team_id: self.team_id,
            director_id: self.director_id,
            session_id: self.session_id,
            provider: self.provider.clone(),
            worker_effort: self.worker_effort.clone(),
        }
    }
}

impl PartialEq for TeamPolicy {
    fn eq(&self, other: &Self) -> (res: bool) {
        self.team_id == other.team_id
            && self.director_id == other.director_id
            && self.session_id == other.session_id
            && self.provider == other.provider
            && self.worker_effort == other.worker_effort
    }
}

impl PartialEqSpecImpl for TeamPolicy {
    open spec fn obeys_eq_spec() -> bool {
        true
    }

    open spec fn eq_spec(&self, other: &Self) -> bool {
        self@ == other@
    }
}

impl Eq for TeamPolicy {

}

/// What a session is launched with.
#[derive(Debug)]
pub struct LaunchSession {
    pub request_id: Uuid,
    pub cwd: String,
    pub provider: CodingProvider,
    pub model: Option<String>,
    pub effort: Option<String>,
    pub fast: Option<bool>,
    pub response_language: ResponseLanguage,
    pub permission_mode: PermissionMode,
    pub name: Option<String>,
    pub initial_prompt: Option<String>,
    pub provider_capabilities: Vec<ProviderCapability>,
    pub team_policy: Option<TeamPolicy>,
}

/// The mathematical content of a [`LaunchSession`].
#[verifier::ext_equal]
pub struct LaunchSessionView {
    pub request_id: Uuid,
    pub cwd: Seq<char>,
    pub provider: CodingProvider,
    pub model: Option<Seq<char>>,
    pub effort: Option<Seq<char>>,
    pub fast: Option<bool>,
    pub response_language: ResponseLanguage,
    pub permission_mode: PermissionMode,
    pub name: Option<Seq<char>>,
    pub initial_prompt: Option<Seq<char>>,
    pub provider_capabilities: Seq<ProviderCapabilityView>,
    pub team_policy: Option<TeamPolicyView>,
}

impl View for LaunchSession {
    type V = LaunchSessionView;

    open spec fn view(&self) -> LaunchSessionView {
        LaunchSessionView {
            request_id: self.request_id,
            cwd: self.cwd@,
            provider: self.provider,
            model: option_view(self.model),
            effort: option_view(self.effort),
            fast: self.fast,
            response_language: self.response_language,
            permission_mode: self.permission_mode,
            name: option_view(self.name),
            initial_prompt: option_view(self.initial_prompt),
            provider_capabilities: views(self.provider_capabilities@),
            team_policy: option_view(self.team_policy),
        }
    }
}

impl Clone for LaunchSession {
    fn clone(&self) -> (res: Self)
        ensures
            res@ == self@,
    {
        let res = LaunchSession {
            request_id: self.request_id,
            cwd: self.cwd.clone(),
            provider: self.provider,
            model: self.model.clone(),
            effort: self.effort.clone(),
            fast: self.fast,
            response_language: self.response_language,
            permission_mode: self.permission_mode,
            name: self.name.clone(),
            initial_prompt: self.initial_prompt.clone(),
            provider_capabilities: self.provider_capabilities.clone(),
            team_policy: self.team_policy.clone(),
        };
        assert(views(res.provider_capabilities@) =~= views(self.provider_capabilities@));
        res
    }
}

impl PartialEq for LaunchSession {
    fn eq(&self, other: &Self) -> (res: bool) {
        proof {
            lemma_views_equal(self.provider_capabilities@, other.provider_capabilities@);
        }
        self.request_id == other.request_id
            && self.cwd == other.cwd
            && self.provider == other.provider
            && same_text(&self.model, &other.model)
            && same_text(&self.effort, &other.effort)
            && self.fast == other.fast
            && self.response_language == other.response_language
            && self.permission_mode == other.permission_mode
            && same_text(&self.name, &other.name)
            && same_text(&self.initial_prompt, &other.initial_prompt)
            && self.provider_capabilities == other.provider_capabilities
            && self.team_policy == other.team_policy
    }
}

impl PartialEqSpecImpl for LaunchSession {
    open spec fn obeys_eq_spec() -> bool {
        true
    }

    open spec fn eq_spec(&self, other: &Self) -> bool {
        self@ == other@
    }
}

impl Eq for LaunchSession {

}

/// What is known of a child.
#[derive(Debug)]
pub struct SubagentSnapshot {
    pub session_id: Uuid,
    pub parent_session_id: Uuid,
    pub task_name: String,
    pub status: SubagentStatus,
    pub provider: CodingProvider,
    pub model: Option<String>,
    pub effort: Option<String>,
    pub cwd: String,
    pub created_at: Timestamp,
    pub updated_at: Timestamp,
    pub detail: Option<String>,
    pub final_text: Option<String>,
}

/// The mathematical content of a [`SubagentSnapshot`].
#[verifier::ext_equal]
pub struct SubagentSnapshotView {
    pub session_id: Uuid,
    pub parent_session_id: Uuid,
    pub task_name: Seq<char>,
    pub status: SubagentStatus,
    pub provider: CodingProvider,
    pub model: Option<Seq<char>>,
    pub effort: Option<Seq<char>>,
    pub cwd: Seq<char>,
    pub created_at: Timestamp,
    pub updated_at: Timestamp,
    pub detail: Option<Seq<char>>,
    pub final_text: Option<Seq<char>>,
}

impl View for SubagentSnapshot {
    type V = SubagentSnapshotView;

    open spec fn view(&self) -> SubagentSnapshotView {
        SubagentSnapshotView {
            session_id: self.session_id,
            parent_session_id: self.parent_session_id,
            task_name: self.task_name@,
            status: self.status,
            provider: self.provider,
            model: option_view(self.model),
            effort: option_view(self.effort),
            cwd: self.cwd@,
            created_at: self.created_at,
            updated_at: self.updated_at,
            detail: option_view(self.detail),
            final_text: option_view(self.final_text),
        }
    }
}

impl Clone for SubagentSnapshot {
    fn clone(&self) -> (res: Self)
        ensures
            res@ == self@,
    {
        SubagentSnapshot {
            session_id: self.session_id,
            parent_session_id: self.parent_session_id,
            task_name: self.task_name.clone(),
            status: self.status,
            provider: self.provider,
            model: self.model.clone(),
            effort: self.effort.clone(),
            cwd: self.cwd.clone(),
            created_at: self.created_at,
            updated_at: self.updated_at,
            detail: self.detail.clone(),
            final_text: self.final_text.clone(),
        }
    }
}

impl PartialEq for SubagentSnapshot {
    fn eq(&self, other: &Self) -> (res: bool) {
        self.session_id == other.session_id
            && self.parent_session_id == other.parent_session_id
            && self.task_name == other.task_name
            && self.status == other.status
            && self.provider == other.provider
            && same_text(&self.model, &other.model)
            && same_text(&self.effort, &other.effort)
            && self.cwd == other.cwd
            && self.created_at == other.created_at
            && self.updated_at == other.updated_at
            && same_text(&self.detail, &other.detail)
            && same_text(&self.final_text, &other.final_text)
    }
}

impl PartialEqSpecImpl for SubagentSnapshot {
    open spec fn obeys_eq_spec() -> bool {
        true
    }

    open spec fn eq_spec(&self, other: &Self) -> bool {
        self@ == other@
    }
}

impl Eq for SubagentSnapshot {

}

/// What a session journal records.
#[derive(Debug)]
pub enum SessionEventKind {
    SessionConfigured {
        cwd: String,
        provider: CodingProvider,
        model: Option<String>,
        effort: Option<String>,
        fast: bool,
        response_language: ResponseLanguage,
        permission_mode: PermissionMode,
    },
    Message {
        message_id: Uuid,
        actor: EventActor,
        text: String,
        status: MessageStatus,
        delivery: Option<PromptDelivery>,
    },
    ReasoningDelta { text: String },
    PromptRecalled { message_id: Uuid, text: String },
    StatusChanged { to: SessionStatus, detail: Option<String> },
    ApprovalRequested { request_id: Uuid, detail: Option<String> },
    TurnStarted {
        message_id: Uuid,
        provider: CodingProvider,
        model: Option<String>,
        effort: Option<String>,
        fast: bool,
    },
    TurnCompleted {
        message_id: Uuid,
        provider_session_id: Option<String>,
        final_text: String,
        error: Option<String>,
    },
    ContextCleared,
    /// Something that only the provider knows, with its payload in JSON.
    ProviderEvent { provider: CodingProvider, kind: String, payload: String },
    /// A tool was called, with its input in JSON.
    ToolStarted { tool_call_id: String, name: String, input: String },
    ToolCompleted { tool_call_id: String, output: String, is_error: bool },
    SubagentActivity { activity: SubagentActivityKind, agent: SubagentSnapshot },
}

/// One entry of a session journal.
#[derive(Debug)]
pub struct SessionEvent {
    pub id: Uuid,
    pub session_id: Uuid,
    pub sequence: u64,
    pub kind: SessionEventKind,
}

/// What a parent is told of its children.
#[derive(Debug)]
pub enum SubagentActivity {
    Started { agent: SubagentSnapshot },
    Updated { agent: SubagentSnapshot },
    Completed { agent: SubagentSnapshot },
    Stopped { agent: SubagentSnapshot },
    SessionEvent { session_id: Uuid, event: SessionEvent },
}

} // verus!
