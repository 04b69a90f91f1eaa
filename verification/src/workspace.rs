//! The participants, workspaces, messages and events of the multiplayer
//! workspace kernel.
//!
//! Execution lives in session events; a workspace records references to it.
//! Participants are global identities and workspace membership is durable.

use crate::model::{lemma_items_equal, lemma_views_equal, option_view, same_text, views};
use crate::time::Timestamp;
use vstd::prelude::*;
use vstd::std_specs::cmp::PartialEqSpecImpl;

verus! {

/// The 128 bits of a UUID, most significant byte first, so that integer order
/// is the order of the textual form.
pub type Uuid = u128;

/// What a participant is.
#[derive(Debug, Clone, Copy, PartialEq, Eq, Structural)]
pub enum ParticipantKind {
    Human,
    Agent,
    Service,
}

/// What a member may do in a workspace.
#[derive(Debug, Clone, Copy, PartialEq, Eq, Structural)]
pub enum WorkspaceRole {
    Owner,
    Admin,
    Editor,
    Contributor,
    Viewer,
}

/// How urgently a delivery reaches its recipient.
#[derive(Debug, Clone, Copy, PartialEq, Eq, Structural)]
pub enum DeliveryMode {
    Boundary,
    Wake,
    NextTurn,
    Notify,
}

/// How far one delivery has come.
#[derive(Debug, Clone, Copy, PartialEq, Eq, Structural)]
pub enum DeliveryState {
    Pending,
    /// Accepted by the remote relay for a recipient on another host; the
    /// recipient's own host reports admission and acknowledgement.
    Relayed,
    Admitted,
    Acknowledged,
    Failed,
    Recalled,
}

/// A global identity.
#[derive(Debug)]
pub struct Participant {
    pub id: Uuid,
    pub display_name: String,
    pub kind: ParticipantKind,
    pub created_at: Timestamp,
}

/// The mathematical content of a [`Participant`].
#[verifier::ext_equal]
pub struct ParticipantView {
    pub id: Uuid,
    pub display_name: Seq<char>,
    pub kind: ParticipantKind,
    pub created_at: Timestamp,
}

impl View for Participant {
    type V = ParticipantView;

    open spec fn view(&self) -> ParticipantView {
        ParticipantView {
            id: self.id,
            display_name: self.display_name@,
            kind: self.kind,
            created_at: self.created_at,
        }
    }
}

impl Clone for Participant {
    fn clone(&self) -> (res: Self)
        ensures
            res@ == self@,
    {
        Participant {
            id: self.id,
            display_name: self.display_name.clone(),
            kind: self.kind,
            created_at: self.created_at,
        }
    }
}

impl PartialEq for Participant {
    fn eq(&self, other: &Self) -> (res: bool) {
        self.id == other.id
            && self.display_name == other.display_name
            && self.kind == other.kind
            && self.created_at == other.created_at
    }
}

impl PartialEqSpecImpl for Participant {
    open spec fn obeys_eq_spec() -> bool {
        true
    }

    open spec fn eq_spec(&self, other: &Self) -> bool {
        self@ == other@
    }
}

impl Eq for Participant {

}

/// An agent participant together with what is known of its process.
#[derive(Debug)]
pub struct AgentInstance {
    pub participant: Participant,
    pub host_id: Option<Uuid>,
    pub workspace_id: Option<Uuid>,
    /// When this installation last saw the instance in local registration or
    /// an authenticated directory sync. Not a liveness guarantee.
    pub seen_at: Option<Timestamp>,
    /// The working directory the instance was launched against, which tells
    /// apart several sessions that share a display name.
    pub cwd: Option<String>,
    /// The owning host's lifecycle state as last reported by the directory
    /// sync: `running`, `ready`, `starting`, or `stopped`. Absent for a row no
    /// directory sync has covered.
    pub status: Option<String>,
    /// The owning OS process, recorded locally at launch. Absent for remote
    /// entries, whose pids are meaningless on this machine.
    pub pid: Option<i64>,
    /// When this installation observed the owner gone.
    pub exited_at: Option<Timestamp>,
}

/// The mathematical content of an [`AgentInstance`].
#[verifier::ext_equal]
pub struct AgentInstanceView {
    pub participant: ParticipantView,
    pub host_id: Option<Uuid>,
    pub workspace_id: Option<Uuid>,
    pub seen_at: Option<Timestamp>,
    pub cwd: Option<Seq<char>>,
    pub status: Option<Seq<char>>,
    pub pid: Option<i64>,
    pub exited_at: Option<Timestamp>,
}

impl View for AgentInstance {
    type V = AgentInstanceView;

    open spec fn view(&self) -> AgentInstanceView {
        AgentInstanceView {
            participant: self.participant@,
            host_id: self.host_id,
            workspace_id: self.workspace_id,
            seen_at: self.seen_at,
            cwd: option_view(self.cwd),
            status: option_view(self.status),
            pid: self.pid,
            exited_at: self.exited_at,
        }
    }
}

impl Clone for AgentInstance {
    fn clone(&self) -> (res: Self)
        ensures
            res@ == self@,
    {
        AgentInstance {
            participant: self.participant.clone(),
            host_id: self.host_id,
            workspace_id: self.workspace_id,
            seen_at: self.seen_at,
            cwd: self.cwd.clone(),
            status: self.status.clone(),
            pid: self.pid,
            exited_at: self.exited_at,
        }
    }
}

impl PartialEq for AgentInstance {
    fn eq(&self, other: &Self) -> (res: bool) {
        self.participant == other.participant
            && self.host_id == other.host_id
            && self.workspace_id == other.workspace_id
            && self.seen_at == other.seen_at
            && same_text(&self.cwd, &other.cwd)
            && same_text(&self.status, &other.status)
            && self.pid == other.pid
            && self.exited_at == other.exited_at
    }
}

impl PartialEqSpecImpl for AgentInstance {
    open spec fn obeys_eq_spec() -> bool {
        true
    }

    open spec fn eq_spec(&self, other: &Self) -> bool {
        self@ == other@
    }
}

impl Eq for AgentInstance {

}

/// One participant's place in one workspace.
#[derive(Debug, Clone, Copy, PartialEq, Eq, Structural)]
pub struct WorkspaceMembership {
    pub workspace_id: Uuid,
    pub participant_id: Uuid,
    pub role: WorkspaceRole,
    pub joined_at: Timestamp,
}

impl View for WorkspaceMembership {
    type V = WorkspaceMembership;

    open spec fn view(&self) -> WorkspaceMembership {
        *self
    }
}

/// A member as the roster of a workspace lists it.
#[derive(Debug)]
pub struct WorkspaceRosterEntry {
    pub participant: Participant,
    pub role: WorkspaceRole,
    pub joined_at: Timestamp,
}

/// The mathematical content of a [`WorkspaceRosterEntry`].
#[verifier::ext_equal]
pub struct WorkspaceRosterEntryView {
    pub participant: ParticipantView,
    pub role: WorkspaceRole,
    pub joined_at: Timestamp,
}

impl View for WorkspaceRosterEntry {
    type V = WorkspaceRosterEntryView;

    open spec fn view(&self) -> WorkspaceRosterEntryView {
        WorkspaceRosterEntryView {
            participant: self.participant@,
            role: self.role,
            joined_at: self.joined_at,
        }
    }
}

impl Clone for WorkspaceRosterEntry {
    fn clone(&self) -> (res: Self)
        ensures
            res@ == self@,
    {
        WorkspaceRosterEntry {
            participant: self.participant.clone(),
            role: self.role,
            joined_at: self.joined_at,
        }
    }
}

impl PartialEq for WorkspaceRosterEntry {
    fn eq(&self, other: &Self) -> (res: bool) {
        self.participant == other.participant
            && self.role == other.role
            && self.joined_at == other.joined_at
    }
}

impl PartialEqSpecImpl for WorkspaceRosterEntry {
    open spec fn obeys_eq_spec() -> bool {
        true
    }

    open spec fn eq_spec(&self, other: &Self) -> bool {
        self@ == other@
    }
}

impl Eq for WorkspaceRosterEntry {

}

/// A shared place for messages and work.
#[derive(Debug)]
pub struct Workspace {
    pub id: Uuid,
    pub name: String,
    pub created_at: Timestamp,
}

/// The mathematical content of a [`Workspace`].
#[verifier::ext_equal]
pub struct WorkspaceView {
    pub id: Uuid,
    pub name: Seq<char>,
    pub created_at: Timestamp,
}

impl View for Workspace {
    type V = WorkspaceView;

    open spec fn view(&self) -> WorkspaceView {
        WorkspaceView {
            id: self.id,
            name: self.name@,
            created_at: self.created_at,
        }
    }
}

impl Clone for Workspace {
    fn clone(&self) -> (res: Self)
        ensures
            res@ == self@,
    {
        Workspace {
            id: self.id,
            name: self.name.clone(),
            created_at: self.created_at,
        }
    }
}

impl PartialEq for Workspace {
    fn eq(&self, other: &Self) -> (res: bool) {
        self.id == other.id
            && self.name == other.name
            && self.created_at == other.created_at
    }
}

impl PartialEqSpecImpl for Workspace {
    open spec fn obeys_eq_spec() -> bool {
        true
    }

    open spec fn eq_spec(&self, other: &Self) -> bool {
        self@ == other@
    }
}

impl Eq for Workspace {

}

/// A conversation inside one workspace.
#[derive(Debug)]
pub struct Thread {
    pub id: Uuid,
    pub workspace_id: Uuid,
    pub title: String,
    pub created_at: Timestamp,
}

/// The mathematical content of a [`Thread`].
#[verifier::ext_equal]
pub struct ThreadView {
    pub id: Uuid,
    pub workspace_id: Uuid,
    pub title: Seq<char>,
    pub created_at: Timestamp,
}

impl View for Thread {
    type V = ThreadView;

    open spec fn view(&self) -> ThreadView {
        ThreadView {
            id: self.id,
            workspace_id: self.workspace_id,
            title: self.title@,
            created_at: self.created_at,
        }
    }
}

impl Clone for Thread {
    fn clone(&self) -> (res: Self)
        ensures
            res@ == self@,
    {
        Thread {
            id: self.id,
            workspace_id: self.workspace_id,
            title: self.title.clone(),
            created_at: self.created_at,
        }
    }
}

impl PartialEq for Thread {
    fn eq(&self, other: &Self) -> (res: bool) {
        self.id == other.id
            && self.workspace_id == other.workspace_id
            && self.title == other.title
            && self.created_at == other.created_at
    }
}

impl PartialEqSpecImpl for Thread {
    open spec fn obeys_eq_spec() -> bool {
        true
    }

    open spec fn eq_spec(&self, other: &Self) -> bool {
        self@ == other@
    }
}

impl Eq for Thread {

}

/// A participant mentioned in a message text.
#[derive(Debug, Clone, Copy)]
pub struct StructuredMention {
    pub participant_id: Uuid,
    pub start: u32,
    pub end: u32,
}

impl PartialEq for StructuredMention {
    fn eq(&self, other: &Self) -> (res: bool) {
        self.participant_id == other.participant_id && self.start == other.start && self.end
            == other.end
    }
}

impl PartialEqSpecImpl for StructuredMention {
    open spec fn obeys_eq_spec() -> bool {
        true
    }

    open spec fn eq_spec(&self, other: &Self) -> bool {
        *self == *other
    }
}

impl Eq for StructuredMention {

}

/// A durable reference to an image forwarded with a team message.
///
/// Carries a digest, never a path: a recipient resolves the digest inside its own
/// content-addressed store and never opens a location that the sender chose.
#[derive(Debug)]
pub struct MessageAttachment {
    /// Final path component of the sender's file, kept as a human label only.
    pub name: String,
    /// Sniffed from the leading bytes, never from the file extension.
    pub media_type: String,
    pub byte_len: u64,
    /// Lowercase hex SHA-256 of the captured bytes; the store address.
    pub sha256: String,
}

/// The mathematical content of a [`MessageAttachment`].
#[verifier::ext_equal]
pub struct MessageAttachmentView {
    pub name: Seq<char>,
    pub media_type: Seq<char>,
    pub byte_len: u64,
    pub sha256: Seq<char>,
}

impl View for MessageAttachment {
    type V = MessageAttachmentView;

    open spec fn view(&self) -> MessageAttachmentView {
        MessageAttachmentView {
            name: self.name@,
            media_type: self.media_type@,
            byte_len: self.byte_len,
            sha256: self.sha256@,
        }
    }
}

impl Clone for MessageAttachment {
    fn clone(&self) -> (res: Self)
        ensures
            res@ == self@,
    {
        MessageAttachment {
            name: self.name.clone(),
            media_type: self.media_type.clone(),
            byte_len: self.byte_len,
            sha256: self.sha256.clone(),
        }
    }
}

impl PartialEq for MessageAttachment {
    fn eq(&self, other: &Self) -> (res: bool) {
        self.name == other.name
            && self.media_type == other.media_type
            && self.byte_len == other.byte_len
            && self.sha256 == other.sha256
    }
}

impl PartialEqSpecImpl for MessageAttachment {
    open spec fn obeys_eq_spec() -> bool {
        true
    }

    open spec fn eq_spec(&self, other: &Self) -> bool {
        self@ == other@
    }
}

impl Eq for MessageAttachment {

}

/// What a message says.
#[derive(Debug)]
pub struct WorkspaceMessageBody {
    pub text: String,
    pub mentions: Vec<StructuredMention>,
    pub attachments: Vec<MessageAttachment>,
}

/// The mathematical content of a [`WorkspaceMessageBody`].
#[verifier::ext_equal]
pub struct WorkspaceMessageBodyView {
    pub text: Seq<char>,
    pub mentions: Seq<StructuredMention>,
    pub attachments: Seq<MessageAttachmentView>,
}

impl View for WorkspaceMessageBody {
    type V = WorkspaceMessageBodyView;

    open spec fn view(&self) -> WorkspaceMessageBodyView {
        WorkspaceMessageBodyView {
            text: self.text@,
            mentions: self.mentions@,
            attachments: views(self.attachments@),
        }
    }
}

impl Clone for WorkspaceMessageBody {
    fn clone(&self) -> (res: Self)
        ensures
            res@ == self@,
    {
        let res = WorkspaceMessageBody {
            text: self.text.clone(),
            mentions: self.mentions.clone(),
            attachments: self.attachments.clone(),
        };
        assert(res.mentions@ =~= self.mentions@);
        assert(views(res.attachments@) =~= views(self.attachments@));
        res
    }
}

impl PartialEq for WorkspaceMessageBody {
    fn eq(&self, other: &Self) -> (res: bool) {
        proof {
            lemma_items_equal(self.mentions@, other.mentions@);
            lemma_views_equal(self.attachments@, other.attachments@);
        }
        self.text == other.text
            && self.mentions == other.mentions
            && self.attachments == other.attachments
    }
}

impl PartialEqSpecImpl for WorkspaceMessageBody {
    open spec fn obeys_eq_spec() -> bool {
        true
    }

    open spec fn eq_spec(&self, other: &Self) -> bool {
        self@ == other@
    }
}

impl Eq for WorkspaceMessageBody {

}

/// Who must receive a message.
#[derive(Debug)]
pub enum Audience {
    Workspace,
    Participants { participants: Vec<Uuid> },
    Role { role: WorkspaceRole },
    Direct { participant: Uuid },
}

/// The mathematical content of an [`Audience`].
#[verifier::ext_equal]
pub enum AudienceView {
    Workspace,
    Participants { participants: Seq<Uuid> },
    Role { role: WorkspaceRole },
    Direct { participant: Uuid },
}

impl View for Audience {
    type V = AudienceView;

    open spec fn view(&self) -> AudienceView {
        match self {
            Audience::Workspace => AudienceView::Workspace,
            Audience::Participants { participants } => AudienceView::Participants {
                participants: participants@,
            },
            Audience::Role { role } => AudienceView::Role { role: *role },
            Audience::Direct { participant } => AudienceView::Direct { participant: *participant },
        }
    }
}

impl Clone for Audience {
    fn clone(&self) -> (res: Self)
        ensures
            res@ == self@,
    {
        match self {
            Audience::Workspace => Audience::Workspace,
            Audience::Participants { participants } => {
                let copy = participants.clone();
                assert(copy@ =~= participants@);
                Audience::Participants { participants: copy }
            },
            Audience::Role { role } => Audience::Role { role: *role },
            Audience::Direct { participant } => Audience::Direct { participant: *participant },
        }
    }
}

impl PartialEq for Audience {
    fn eq(&self, other: &Self) -> (res: bool) {
        match (self, other) {
            (Audience::Workspace, Audience::Workspace) => true,
            (
                Audience::Participants { participants: left },
                Audience::Participants { participants: right },
            ) => {
                proof {
                    lemma_items_equal(left@, right@);
                }
                *left == *right
            },
            (Audience::Role { role: left }, Audience::Role { role: right }) => *left == *right,
            (
                Audience::Direct { participant: left },
                Audience::Direct { participant: right },
            ) => *left == *right,
            _ => false,
        }
    }
}

impl PartialEqSpecImpl for Audience {
    open spec fn obeys_eq_spec() -> bool {
        true
    }

    open spec fn eq_spec(&self, other: &Self) -> bool {
        self@ == other@
    }
}

impl Eq for Audience {

}

/// A message as the journal keeps it.
#[derive(Debug)]
pub struct WorkspaceMessage {
    pub id: Uuid,
    pub workspace_id: Uuid,
    pub thread_id: Option<Uuid>,
    pub reply_to_message_id: Option<Uuid>,
    pub author_id: Uuid,
    pub body: WorkspaceMessageBody,
    pub audience: Audience,
    pub created_at: Timestamp,
}

/// The mathematical content of a [`WorkspaceMessage`].
#[verifier::ext_equal]
pub struct WorkspaceMessageView {
    pub id: Uuid,
    pub workspace_id: Uuid,
    pub thread_id: Option<Uuid>,
    pub reply_to_message_id: Option<Uuid>,
    pub author_id: Uuid,
    pub body: WorkspaceMessageBodyView,
    pub audience: AudienceView,
    pub created_at: Timestamp,
}

impl View for WorkspaceMessage {
    type V = WorkspaceMessageView;

    open spec fn view(&self) -> WorkspaceMessageView {
        WorkspaceMessageView {
            id: self.id,
            workspace_id: self.workspace_id,
            thread_id: self.thread_id,
            reply_to_message_id: self.reply_to_message_id,
            author_id: self.author_id,
            body: self.body@,
            audience: self.audience@,
            created_at: self.created_at,
        }
    }
}

impl Clone for WorkspaceMessage {
    fn clone(&self) -> (res: Self)
        ensures
            res@ == self@,
    {
        WorkspaceMessage {
            id: self.id,
            workspace_id: self.workspace_id,
            thread_id: self.thread_id,
            reply_to_message_id: self.reply_to_message_id,
            author_id: self.author_id,
            body: self.body.clone(),
            audience: self.audience.clone(),
            created_at: self.created_at,
        }
    }
}

impl PartialEq for WorkspaceMessage {
    fn eq(&self, other: &Self) -> (res: bool) {
        self.id == other.id
            && self.workspace_id == other.workspace_id
            && self.thread_id == other.thread_id
            && self.reply_to_message_id == other.reply_to_message_id
            && self.author_id == other.author_id
            && self.body == other.body
            && self.audience == other.audience
            && self.created_at == other.created_at
    }
}

impl PartialEqSpecImpl for WorkspaceMessage {
    open spec fn obeys_eq_spec() -> bool {
        true
    }

    open spec fn eq_spec(&self, other: &Self) -> bool {
        self@ == other@
    }
}

impl Eq for WorkspaceMessage {

}

/// Provider-neutral input to the single durable workspace message router.
///
/// Callers choose an authorized workspace and audience. The store owns the
/// message ID, sequence, audience validation, and recipient delivery rows.
#[derive(Debug)]
pub struct NewWorkspaceMessage {
    pub workspace_id: Uuid,
    pub author_id: Uuid,
    pub text: String,
    pub mentions: Vec<StructuredMention>,
    pub attachments: Vec<MessageAttachment>,
    pub audience: Audience,
    pub mode: DeliveryMode,
    pub thread_id: Option<Uuid>,
    pub reply_to_message_id: Option<Uuid>,
    pub idempotency_key: String,
}

/// The mathematical content of a [`NewWorkspaceMessage`].
#[verifier::ext_equal]
pub struct NewWorkspaceMessageView {
    pub workspace_id: Uuid,
    pub author_id: Uuid,
    pub text: Seq<char>,
    pub mentions: Seq<StructuredMention>,
    pub attachments: Seq<MessageAttachmentView>,
    pub audience: AudienceView,
    pub mode: DeliveryMode,
    pub thread_id: Option<Uuid>,
    pub reply_to_message_id: Option<Uuid>,
    pub idempotency_key: Seq<char>,
}

impl View for NewWorkspaceMessage {
    type V = NewWorkspaceMessageView;

    open spec fn view(&self) -> NewWorkspaceMessageView {
        NewWorkspaceMessageView {
            workspace_id: self.workspace_id,
            author_id: self.author_id,
            text: self.text@,
            mentions: self.mentions@,
            attachments: views(self.attachments@),
            audience: self.audience@,
            mode: self.mode,
            thread_id: self.thread_id,
            reply_to_message_id: self.reply_to_message_id,
            idempotency_key: self.idempotency_key@,
        }
    }
}

impl Clone for NewWorkspaceMessage {
    fn clone(&self) -> (res: Self)
        ensures
            res@ == self@,
    {
        let res = NewWorkspaceMessage {
            workspace_id: self.workspace_id,
            author_id: self.author_id,
            text: self.text.clone(),
            mentions: self.mentions.clone(),
            attachments: self.attachments.clone(),
            audience: self.audience.clone(),
            mode: self.mode,
            thread_id: self.thread_id,
            reply_to_message_id: self.reply_to_message_id,
            idempotency_key: self.idempotency_key.clone(),
        };
        assert(res.mentions@ =~= self.mentions@);
        assert(views(res.attachments@) =~= views(self.attachments@));
        res
    }
}

impl PartialEq for NewWorkspaceMessage {
    fn eq(&self, other: &Self) -> (res: bool) {
        proof {
            lemma_items_equal(self.mentions@, other.mentions@);
            lemma_views_equal(self.attachments@, other.attachments@);
        }
        self.workspace_id == other.workspace_id
            && self.author_id == other.author_id
            && self.text == other.text
            && self.mentions == other.mentions
            && self.attachments == other.attachments
            && self.audience == other.audience
            && self.mode == other.mode
            && self.thread_id == other.thread_id
            && self.reply_to_message_id == other.reply_to_message_id
            && self.idempotency_key == other.idempotency_key
    }
}

impl PartialEqSpecImpl for NewWorkspaceMessage {
    open spec fn obeys_eq_spec() -> bool {
        true
    }

    open spec fn eq_spec(&self, other: &Self) -> bool {
        self@ == other@
    }
}

impl Eq for NewWorkspaceMessage {

}

/// Truthful durable acceptance receipt. A successful route always names at
/// least one recipient delivery; immediate wake/steer is an optional layer on
/// top of this receipt, never a second mailbox.
#[derive(Debug)]
pub struct WorkspaceMessageReceipt {
    pub message_id: Uuid,
    pub workspace_id: Uuid,
    pub sequence: u64,
    pub recipient_ids: Vec<Uuid>,
    pub mode: DeliveryMode,
}

/// The mathematical content of a [`WorkspaceMessageReceipt`].
#[verifier::ext_equal]
pub struct WorkspaceMessageReceiptView {
    pub message_id: Uuid,
    pub workspace_id: Uuid,
    pub sequence: u64,
    pub recipient_ids: Seq<Uuid>,
    pub mode: DeliveryMode,
}

impl View for WorkspaceMessageReceipt {
    type V = WorkspaceMessageReceiptView;

    open spec fn view(&self) -> WorkspaceMessageReceiptView {
        WorkspaceMessageReceiptView {
            message_id: self.message_id,
            workspace_id: self.workspace_id,
            sequence: self.sequence,
            recipient_ids: self.recipient_ids@,
            mode: self.mode,
        }
    }
}

impl Clone for WorkspaceMessageReceipt {
    fn clone(&self) -> (res: Self)
        ensures
            res@ == self@,
    {
        let res = WorkspaceMessageReceipt {
            message_id: self.message_id,
            workspace_id: self.workspace_id,
            sequence: self.sequence,
            recipient_ids: self.recipient_ids.clone(),
            mode: self.mode,
        };
        assert(res.recipient_ids@ =~= self.recipient_ids@);
        res
    }
}

impl PartialEq for WorkspaceMessageReceipt {
    fn eq(&self, other: &Self) -> (res: bool) {
        proof {
            lemma_items_equal(self.recipient_ids@, other.recipient_ids@);
        }
        self.message_id == other.message_id
            && self.workspace_id == other.workspace_id
            && self.sequence == other.sequence
            && self.recipient_ids == other.recipient_ids
            && self.mode == other.mode
    }
}

impl PartialEqSpecImpl for WorkspaceMessageReceipt {
    open spec fn obeys_eq_spec() -> bool {
        true
    }

    open spec fn eq_spec(&self, other: &Self) -> bool {
        self@ == other@
    }
}

impl Eq for WorkspaceMessageReceipt {

}

/// One try at handing a delivery over.
#[derive(Debug)]
pub struct DeliveryAttempt {
    pub attempted_at: Timestamp,
    pub detail: Option<String>,
}

/// The mathematical content of a [`DeliveryAttempt`].
#[verifier::ext_equal]
pub struct DeliveryAttemptView {
    pub attempted_at: Timestamp,
    pub detail: Option<Seq<char>>,
}

impl View for DeliveryAttempt {
    type V = DeliveryAttemptView;

    open spec fn view(&self) -> DeliveryAttemptView {
        DeliveryAttemptView {
            attempted_at: self.attempted_at,
            detail: option_view(self.detail),
        }
    }
}

impl Clone for DeliveryAttempt {
    fn clone(&self) -> (res: Self)
        ensures
            res@ == self@,
    {
        DeliveryAttempt {
            attempted_at: self.attempted_at,
            detail: self.detail.clone(),
        }
    }
}

impl PartialEq for DeliveryAttempt {
    fn eq(&self, other: &Self) -> (res: bool) {
        self.attempted_at == other.attempted_at
            && same_text(&self.detail, &other.detail)
    }
}

impl PartialEqSpecImpl for DeliveryAttempt {
    open spec fn obeys_eq_spec() -> bool {
        true
    }

    open spec fn eq_spec(&self, other: &Self) -> bool {
        self@ == other@
    }
}

impl Eq for DeliveryAttempt {

}

/// One recipient's copy of one event.
#[derive(Debug)]
pub struct RecipientDelivery {
    pub workspace_id: Uuid,
    pub sequence: u64,
    pub recipient_id: Uuid,
    pub mode: DeliveryMode,
    pub state: DeliveryState,
    pub attempts: u32,
    pub last_attempt: Option<DeliveryAttempt>,
}

/// The mathematical content of a [`RecipientDelivery`].
#[verifier::ext_equal]
pub struct RecipientDeliveryView {
    pub workspace_id: Uuid,
    pub sequence: u64,
    pub recipient_id: Uuid,
    pub mode: DeliveryMode,
    pub state: DeliveryState,
    pub attempts: u32,
    pub last_attempt: Option<DeliveryAttemptView>,
}

impl View for RecipientDelivery {
    type V = RecipientDeliveryView;

    open spec fn view(&self) -> RecipientDeliveryView {
        RecipientDeliveryView {
            workspace_id: self.workspace_id,
            sequence: self.sequence,
            recipient_id: self.recipient_id,
            mode: self.mode,
            state: self.state,
            attempts: self.attempts,
            last_attempt: option_view(self.last_attempt),
        }
    }
}

impl Clone for RecipientDelivery {
    fn clone(&self) -> (res: Self)
        ensures
            res@ == self@,
    {
        RecipientDelivery {
            workspace_id: self.workspace_id,
            sequence: self.sequence,
            recipient_id: self.recipient_id,
            mode: self.mode,
            state: self.state,
            attempts: self.attempts,
            last_attempt: self.last_attempt.clone(),
        }
    }
}

impl PartialEq for RecipientDelivery {
    fn eq(&self, other: &Self) -> (res: bool) {
        self.workspace_id == other.workspace_id
            && self.sequence == other.sequence
            && self.recipient_id == other.recipient_id
            && self.mode == other.mode
            && self.state == other.state
            && self.attempts == other.attempts
            && self.last_attempt == other.last_attempt
    }
}

impl PartialEqSpecImpl for RecipientDelivery {
    open spec fn obeys_eq_spec() -> bool {
        true
    }

    open spec fn eq_spec(&self, other: &Self) -> bool {
        self@ == other@
    }
}

impl Eq for RecipientDelivery {

}

/// How far one participant has read a workspace.
#[derive(Debug, Clone, Copy, PartialEq, Eq, Structural)]
pub struct DeliveryCursor {
    pub workspace_id: Uuid,
    pub participant_id: Uuid,
    pub admitted_sequence: u64,
    pub acknowledged_sequence: u64,
}

/// An expiring client or host lease. Absence or expiry means no presence; it is
/// never an offline event.
#[derive(Debug, Clone, Copy, PartialEq, Eq, Structural)]
pub struct PresenceLease {
    pub workspace_id: Uuid,
    pub participant_id: Uuid,
    pub client_id: Uuid,
    pub host_id: Option<Uuid>,
    pub expires_at: Timestamp,
}

impl View for PresenceLease {
    type V = PresenceLease;

    open spec fn view(&self) -> PresenceLease {
        *self
    }
}

/// What a host can do for the workspaces attached to it.
#[derive(Debug, PartialEq, Eq)]
pub struct WorkspaceHostCapabilities {
    pub delivery_modes: Vec<DeliveryMode>,
    pub attachments: bool,
    pub max_attachment_bytes: Option<u64>,
}

impl Default for WorkspaceHostCapabilities {
    /// A host that offers nothing.
    fn default() -> (res: Self)
        ensures
            res.delivery_modes@.len() == 0,
            !res.attachments,
            res.max_attachment_bytes is None,
    {
        WorkspaceHostCapabilities {
            delivery_modes: Vec::new(),
            attachments: false,
            max_attachment_bytes: None,
        }
    }
}

impl Clone for WorkspaceHostCapabilities {
    fn clone(&self) -> (res: Self)
        ensures
            res.delivery_modes@ == self.delivery_modes@,
            res.attachments == self.attachments,
            res.max_attachment_bytes == self.max_attachment_bytes,
    {
        let delivery_modes = self.delivery_modes.clone();
        assert(delivery_modes@ =~= self.delivery_modes@);
        WorkspaceHostCapabilities {
            delivery_modes,
            attachments: self.attachments,
            max_attachment_bytes: self.max_attachment_bytes,
        }
    }
}

/// A host that workspaces can be attached to.
#[derive(Debug, PartialEq, Eq)]
pub struct HostIdentity {
    pub id: Uuid,
    pub name: String,
    pub capabilities: WorkspaceHostCapabilities,
}

/// When a host took on a workspace.
#[derive(Debug, Clone, Copy, PartialEq, Eq, Structural)]
pub struct HostAttachment {
    pub host_id: Uuid,
    pub workspace_id: Uuid,
    pub attached_at: Timestamp,
}

/// A unit of shared work.
#[derive(Debug)]
pub struct SharedWork {
    pub id: Uuid,
    pub title: String,
    pub detail: Option<String>,
}

/// The mathematical content of a [`SharedWork`].
#[verifier::ext_equal]
pub struct SharedWorkView {
    pub id: Uuid,
    pub title: Seq<char>,
    pub detail: Option<Seq<char>>,
}

impl View for SharedWork {
    type V = SharedWorkView;

    open spec fn view(&self) -> SharedWorkView {
        SharedWorkView {
            id: self.id,
            title: self.title@,
            detail: option_view(self.detail),
        }
    }
}

impl Clone for SharedWork {
    fn clone(&self) -> (res: Self)
        ensures
            res@ == self@,
    {
        SharedWork {
            id: self.id,
            title: self.title.clone(),
            detail: self.detail.clone(),
        }
    }
}

impl PartialEq for SharedWork {
    fn eq(&self, other: &Self) -> (res: bool) {
        self.id == other.id
            && self.title == other.title
            && same_text(&self.detail, &other.detail)
    }
}

impl PartialEqSpecImpl for SharedWork {
    open spec fn obeys_eq_spec() -> bool {
        true
    }

    open spec fn eq_spec(&self, other: &Self) -> bool {
        self@ == other@
    }
}

impl Eq for SharedWork {

}

/// Something published to a workspace.
#[derive(Debug)]
pub struct WorkspaceArtifact {
    pub id: Uuid,
    pub work_id: Option<Uuid>,
    pub name: String,
    pub media_type: Option<String>,
    pub uri: String,
    pub content_hash: Option<String>,
}

/// The mathematical content of a [`WorkspaceArtifact`].
#[verifier::ext_equal]
pub struct WorkspaceArtifactView {
    pub id: Uuid,
    pub work_id: Option<Uuid>,
    pub name: Seq<char>,
    pub media_type: Option<Seq<char>>,
    pub uri: Seq<char>,
    pub content_hash: Option<Seq<char>>,
}

impl View for WorkspaceArtifact {
    type V = WorkspaceArtifactView;

    open spec fn view(&self) -> WorkspaceArtifactView {
        WorkspaceArtifactView {
            id: self.id,
            work_id: self.work_id,
            name: self.name@,
            media_type: option_view(self.media_type),
            uri: self.uri@,
            content_hash: option_view(self.content_hash),
        }
    }
}

impl Clone for WorkspaceArtifact {
    fn clone(&self) -> (res: Self)
        ensures
            res@ == self@,
    {
        WorkspaceArtifact {
            id: self.id,
            work_id: self.work_id,
            name: self.name.clone(),
            media_type: self.media_type.clone(),
            uri: self.uri.clone(),
            content_hash: self.content_hash.clone(),
        }
    }
}

impl PartialEq for WorkspaceArtifact {
    fn eq(&self, other: &Self) -> (res: bool) {
        self.id == other.id
            && self.work_id == other.work_id
            && self.name == other.name
            && same_text(&self.media_type, &other.media_type)
            && self.uri == other.uri
            && same_text(&self.content_hash, &other.content_hash)
    }
}

impl PartialEqSpecImpl for WorkspaceArtifact {
    open spec fn obeys_eq_spec() -> bool {
        true
    }

    open spec fn eq_spec(&self, other: &Self) -> bool {
        self@ == other@
    }
}

impl Eq for WorkspaceArtifact {

}

/// A decision that a workspace took.
#[derive(Debug)]
pub struct WorkspaceDecision {
    pub id: Uuid,
    pub subject: String,
    pub outcome: String,
    pub rationale: Option<String>,
}

/// The mathematical content of a [`WorkspaceDecision`].
#[verifier::ext_equal]
pub struct WorkspaceDecisionView {
    pub id: Uuid,
    pub subject: Seq<char>,
    pub outcome: Seq<char>,
    pub rationale: Option<Seq<char>>,
}

impl View for WorkspaceDecision {
    type V = WorkspaceDecisionView;

    open spec fn view(&self) -> WorkspaceDecisionView {
        WorkspaceDecisionView {
            id: self.id,
            subject: self.subject@,
            outcome: self.outcome@,
            rationale: option_view(self.rationale),
        }
    }
}

impl Clone for WorkspaceDecision {
    fn clone(&self) -> (res: Self)
        ensures
            res@ == self@,
    {
        WorkspaceDecision {
            id: self.id,
            subject: self.subject.clone(),
            outcome: self.outcome.clone(),
            rationale: self.rationale.clone(),
        }
    }
}

impl PartialEq for WorkspaceDecision {
    fn eq(&self, other: &Self) -> (res: bool) {
        self.id == other.id
            && self.subject == other.subject
            && self.outcome == other.outcome
            && same_text(&self.rationale, &other.rationale)
    }
}

impl PartialEqSpecImpl for WorkspaceDecision {
    open spec fn obeys_eq_spec() -> bool {
        true
    }

    open spec fn eq_spec(&self, other: &Self) -> bool {
        self@ == other@
    }
}

impl Eq for WorkspaceDecision {

}

/// A compare-and-set claim on a unit of work.
#[derive(Debug, Clone, Copy, PartialEq, Eq, Structural)]
pub struct AtomicWorkClaim {
    pub work_id: Uuid,
    pub claimant_id: Uuid,
    /// The claim id observed by the claimant, or `None` when the work was unclaimed.
    pub expected_claim_id: Option<Uuid>,
}

/// One unit of work waits for another.
#[derive(Debug, Clone, Copy, PartialEq, Eq, Structural)]
pub struct WorkDependency {
    pub work_id: Uuid,
    pub depends_on_work_id: Uuid,
}

/// A request to review a unit of work.
#[derive(Debug)]
pub struct WorkspaceReviewRequest {
    pub id: Uuid,
    pub work_id: Uuid,
    pub requested_reviewer_id: Option<Uuid>,
    pub instructions: Option<String>,
}

/// The mathematical content of a [`WorkspaceReviewRequest`].
#[verifier::ext_equal]
pub struct WorkspaceReviewRequestView {
    pub id: Uuid,
    pub work_id: Uuid,
    pub requested_reviewer_id: Option<Uuid>,
    pub instructions: Option<Seq<char>>,
}

impl View for WorkspaceReviewRequest {
    type V = WorkspaceReviewRequestView;

    open spec fn view(&self) -> WorkspaceReviewRequestView {
        WorkspaceReviewRequestView {
            id: self.id,
            work_id: self.work_id,
            requested_reviewer_id: self.requested_reviewer_id,
            instructions: option_view(self.instructions),
        }
    }
}

impl Clone for WorkspaceReviewRequest {
    fn clone(&self) -> (res: Self)
        ensures
            res@ == self@,
    {
        WorkspaceReviewRequest {
            id: self.id,
            work_id: self.work_id,
            requested_reviewer_id: self.requested_reviewer_id,
            instructions: self.instructions.clone(),
        }
    }
}

impl PartialEq for WorkspaceReviewRequest {
    fn eq(&self, other: &Self) -> (res: bool) {
        self.id == other.id
            && self.work_id == other.work_id
            && self.requested_reviewer_id == other.requested_reviewer_id
            && same_text(&self.instructions, &other.instructions)
    }
}

impl PartialEqSpecImpl for WorkspaceReviewRequest {
    open spec fn obeys_eq_spec() -> bool {
        true
    }

    open spec fn eq_spec(&self, other: &Self) -> bool {
        self@ == other@
    }
}

impl Eq for WorkspaceReviewRequest {

}

/// A review of a unit of work.
#[derive(Debug)]
pub struct WorkReview {
    pub work_id: Uuid,
    pub reviewer_id: Uuid,
    pub verdict: String,
    pub detail: Option<String>,
}

/// The mathematical content of a [`WorkReview`].
#[verifier::ext_equal]
pub struct WorkReviewView {
    pub work_id: Uuid,
    pub reviewer_id: Uuid,
    pub verdict: Seq<char>,
    pub detail: Option<Seq<char>>,
}

impl View for WorkReview {
    type V = WorkReviewView;

    open spec fn view(&self) -> WorkReviewView {
        WorkReviewView {
            work_id: self.work_id,
            reviewer_id: self.reviewer_id,
            verdict: self.verdict@,
            detail: option_view(self.detail),
        }
    }
}

impl Clone for WorkReview {
    fn clone(&self) -> (res: Self)
        ensures
            res@ == self@,
    {
        WorkReview {
            work_id: self.work_id,
            reviewer_id: self.reviewer_id,
            verdict: self.verdict.clone(),
            detail: self.detail.clone(),
        }
    }
}

impl PartialEq for WorkReview {
    fn eq(&self, other: &Self) -> (res: bool) {
        self.work_id == other.work_id
            && self.reviewer_id == other.reviewer_id
            && self.verdict == other.verdict
            && same_text(&self.detail, &other.detail)
    }
}

impl PartialEqSpecImpl for WorkReview {
    open spec fn obeys_eq_spec() -> bool {
        true
    }

    open spec fn eq_spec(&self, other: &Self) -> bool {
        self@ == other@
    }
}

impl Eq for WorkReview {

}

/// A labelled pointer out of the workspace.
#[derive(Debug)]
pub struct WorkspaceReference {
    pub id: Uuid,
    pub label: String,
    pub target: String,
}

/// The mathematical content of a [`WorkspaceReference`].
#[verifier::ext_equal]
pub struct WorkspaceReferenceView {
    pub id: Uuid,
    pub label: Seq<char>,
    pub target: Seq<char>,
}

impl View for WorkspaceReference {
    type V = WorkspaceReferenceView;

    open spec fn view(&self) -> WorkspaceReferenceView {
        WorkspaceReferenceView {
            id: self.id,
            label: self.label@,
            target: self.target@,
        }
    }
}

impl Clone for WorkspaceReference {
    fn clone(&self) -> (res: Self)
        ensures
            res@ == self@,
    {
        WorkspaceReference {
            id: self.id,
            label: self.label.clone(),
            target: self.target.clone(),
        }
    }
}

impl PartialEq for WorkspaceReference {
    fn eq(&self, other: &Self) -> (res: bool) {
        self.id == other.id
            && self.label == other.label
            && self.target == other.target
    }
}

impl PartialEqSpecImpl for WorkspaceReference {
    open spec fn obeys_eq_spec() -> bool {
        true
    }

    open spec fn eq_spec(&self, other: &Self) -> bool {
        self@ == other@
    }
}

impl Eq for WorkspaceReference {

}

/// Where something in the workspace came from.
#[derive(Debug)]
pub struct Provenance {
    pub subject_id: Uuid,
    pub source_kind: String,
    pub source_id: String,
    pub detail: Option<String>,
}

/// The mathematical content of a [`Provenance`].
#[verifier::ext_equal]
pub struct ProvenanceView {
    pub subject_id: Uuid,
    pub source_kind: Seq<char>,
    pub source_id: Seq<char>,
    pub detail: Option<Seq<char>>,
}

impl View for Provenance {
    type V = ProvenanceView;

    open spec fn view(&self) -> ProvenanceView {
        ProvenanceView {
            subject_id: self.subject_id,
            source_kind: self.source_kind@,
            source_id: self.source_id@,
            detail: option_view(self.detail),
        }
    }
}

impl Clone for Provenance {
    fn clone(&self) -> (res: Self)
        ensures
            res@ == self@,
    {
        Provenance {
            subject_id: self.subject_id,
            source_kind: self.source_kind.clone(),
            source_id: self.source_id.clone(),
            detail: self.detail.clone(),
        }
    }
}

impl PartialEq for Provenance {
    fn eq(&self, other: &Self) -> (res: bool) {
        self.subject_id == other.subject_id
            && self.source_kind == other.source_kind
            && self.source_id == other.source_id
            && same_text(&self.detail, &other.detail)
    }
}

impl PartialEqSpecImpl for Provenance {
    open spec fn obeys_eq_spec() -> bool {
        true
    }

    open spec fn eq_spec(&self, other: &Self) -> bool {
        self@ == other@
    }
}

impl Eq for Provenance {

}

/// What happened in a workspace.
#[derive(Debug)]
pub enum WorkspaceEventKind {
    Message { message: WorkspaceMessage, mode: DeliveryMode },
    SessionEvent {
        session_id: Uuid,
        session_event_id: Uuid,
        session_sequence: u64,
        mode: DeliveryMode,
    },
    WorkCreated { work: SharedWork, mode: DeliveryMode },
    ArtifactPublished { artifact: WorkspaceArtifact, mode: DeliveryMode },
    DecisionRecorded { decision: WorkspaceDecision, mode: DeliveryMode },
    WorkClaimed { claim: AtomicWorkClaim, mode: DeliveryMode },
    DependencyDeclared { dependency: WorkDependency, mode: DeliveryMode },
    ReviewRequested { request: WorkspaceReviewRequest, mode: DeliveryMode },
    ReviewRecorded { review: WorkReview, mode: DeliveryMode },
    ReferenceAdded { reference: WorkspaceReference, mode: DeliveryMode },
    ProvenanceRecorded { provenance: Provenance, mode: DeliveryMode },
}

/// The mathematical content of a [`WorkspaceEventKind`].
#[verifier::ext_equal]
pub enum WorkspaceEventKindView {
    Message { message: WorkspaceMessageView, mode: DeliveryMode },
    SessionEvent {
        session_id: Uuid,
        session_event_id: Uuid,
        session_sequence: u64,
        mode: DeliveryMode,
    },
    WorkCreated { work: SharedWorkView, mode: DeliveryMode },
    ArtifactPublished { artifact: WorkspaceArtifactView, mode: DeliveryMode },
    DecisionRecorded { decision: WorkspaceDecisionView, mode: DeliveryMode },
    WorkClaimed { claim: AtomicWorkClaim, mode: DeliveryMode },
    DependencyDeclared { dependency: WorkDependency, mode: DeliveryMode },
    ReviewRequested { request: WorkspaceReviewRequestView, mode: DeliveryMode },
    ReviewRecorded { review: WorkReviewView, mode: DeliveryMode },
    ReferenceAdded { reference: WorkspaceReferenceView, mode: DeliveryMode },
    ProvenanceRecorded { provenance: ProvenanceView, mode: DeliveryMode },
}

impl View for WorkspaceEventKind {
    type V = WorkspaceEventKindView;

    open spec fn view(&self) -> WorkspaceEventKindView {
        match self {
            WorkspaceEventKind::Message { message, mode } => WorkspaceEventKindView::Message {
                message: message@,
                mode: *mode,
            },
            WorkspaceEventKind::SessionEvent {
                session_id,
                session_event_id,
                session_sequence,
                mode,
            } => WorkspaceEventKindView::SessionEvent {
                session_id: *session_id,
                session_event_id: *session_event_id,
                session_sequence: *session_sequence,
                mode: *mode,
            },
            WorkspaceEventKind::WorkCreated { work, mode } => WorkspaceEventKindView::WorkCreated {
                work: work@,
                mode: *mode,
            },
            WorkspaceEventKind::ArtifactPublished { artifact, mode } => WorkspaceEventKindView::ArtifactPublished {
                artifact: artifact@,
                mode: *mode,
            },
            WorkspaceEventKind::DecisionRecorded { decision, mode } => WorkspaceEventKindView::DecisionRecorded {
                decision: decision@,
                mode: *mode,
            },
            WorkspaceEventKind::WorkClaimed { claim, mode } => WorkspaceEventKindView::WorkClaimed {
                claim: *claim,
                mode: *mode,
            },
            WorkspaceEventKind::DependencyDeclared { dependency, mode } => WorkspaceEventKindView::DependencyDeclared {
                dependency: *dependency,
                mode: *mode,
            },
            WorkspaceEventKind::ReviewRequested { request, mode } => WorkspaceEventKindView::ReviewRequested {
                request: request@,
                mode: *mode,
            },
            WorkspaceEventKind::ReviewRecorded { review, mode } => WorkspaceEventKindView::ReviewRecorded {
                review: review@,
                mode: *mode,
            },
            WorkspaceEventKind::ReferenceAdded { reference, mode } => WorkspaceEventKindView::ReferenceAdded {
                reference: reference@,
                mode: *mode,
            },
            WorkspaceEventKind::ProvenanceRecorded { provenance, mode } => WorkspaceEventKindView::ProvenanceRecorded {
                provenance: provenance@,
                mode: *mode,
            },
        }
    }
}

impl Clone for WorkspaceEventKind {
    fn clone(&self) -> (res: Self)
        ensures
            res@ == self@,
    {
        match self {
            WorkspaceEventKind::Message { message, mode } => WorkspaceEventKind::Message {
                message: message.clone(),
                mode: *mode,
            },
            WorkspaceEventKind::SessionEvent {
                session_id,
                session_event_id,
                session_sequence,
                mode,
            } => WorkspaceEventKind::SessionEvent {
                session_id: *session_id,
                session_event_id: *session_event_id,
                session_sequence: *session_sequence,
                mode: *mode,
            },
            WorkspaceEventKind::WorkCreated { work, mode } => WorkspaceEventKind::WorkCreated {
                work: work.clone(),
                mode: *mode,
            },
            WorkspaceEventKind::ArtifactPublished { artifact, mode } => WorkspaceEventKind::ArtifactPublished {
                artifact: artifact.clone(),
                mode: *mode,
            },
            WorkspaceEventKind::DecisionRecorded { decision, mode } => WorkspaceEventKind::DecisionRecorded {
                decision: decision.clone(),
                mode: *mode,
            },
            WorkspaceEventKind::WorkClaimed { claim, mode } => WorkspaceEventKind::WorkClaimed {
                claim: *claim,
                mode: *mode,
            },
            WorkspaceEventKind::DependencyDeclared { dependency, mode } => WorkspaceEventKind::DependencyDeclared {
                dependency: *dependency,
                mode: *mode,
            },
            WorkspaceEventKind::ReviewRequested { request, mode } => WorkspaceEventKind::ReviewRequested {
                request: request.clone(),
                mode: *mode,
            },
            WorkspaceEventKind::ReviewRecorded { review, mode } => WorkspaceEventKind::ReviewRecorded {
                review: review.clone(),
                mode: *mode,
            },
            WorkspaceEventKind::ReferenceAdded { reference, mode } => WorkspaceEventKind::ReferenceAdded {
                reference: reference.clone(),
                mode: *mode,
            },
            WorkspaceEventKind::ProvenanceRecorded { provenance, mode } => WorkspaceEventKind::ProvenanceRecorded {
                provenance: provenance.clone(),
                mode: *mode,
            },
        }
    }
}

impl PartialEq for WorkspaceEventKind {
    fn eq(&self, other: &Self) -> (res: bool) {
        match (self, other) {
            (
                WorkspaceEventKind::Message { message: left, mode: left_mode },
                WorkspaceEventKind::Message { message: right, mode: right_mode },
            ) => *left == *right && *left_mode == *right_mode,
            (
                WorkspaceEventKind::SessionEvent {
                    session_id: left_session,
                    session_event_id: left_event,
                    session_sequence: left_sequence,
                    mode: left_mode,
                },
                WorkspaceEventKind::SessionEvent {
                    session_id: right_session,
                    session_event_id: right_event,
                    session_sequence: right_sequence,
                    mode: right_mode,
                },
            ) => *left_session == *right_session && *left_event == *right_event && *left_sequence
                == *right_sequence && *left_mode == *right_mode,
            (
                WorkspaceEventKind::WorkCreated { work: left, mode: left_mode },
                WorkspaceEventKind::WorkCreated { work: right, mode: right_mode },
            ) => *left == *right && *left_mode == *right_mode,
            (
                WorkspaceEventKind::ArtifactPublished { artifact: left, mode: left_mode },
                WorkspaceEventKind::ArtifactPublished { artifact: right, mode: right_mode },
            ) => *left == *right && *left_mode == *right_mode,
            (
                WorkspaceEventKind::DecisionRecorded { decision: left, mode: left_mode },
                WorkspaceEventKind::DecisionRecorded { decision: right, mode: right_mode },
            ) => *left == *right && *left_mode == *right_mode,
            (
                WorkspaceEventKind::WorkClaimed { claim: left, mode: left_mode },
                WorkspaceEventKind::WorkClaimed { claim: right, mode: right_mode },
            ) => *left == *right && *left_mode == *right_mode,
            (
                WorkspaceEventKind::DependencyDeclared { dependency: left, mode: left_mode },
                WorkspaceEventKind::DependencyDeclared { dependency: right, mode: right_mode },
            ) => *left == *right && *left_mode == *right_mode,
            (
                WorkspaceEventKind::ReviewRequested { request: left, mode: left_mode },
                WorkspaceEventKind::ReviewRequested { request: right, mode: right_mode },
            ) => *left == *right && *left_mode == *right_mode,
            (
                WorkspaceEventKind::ReviewRecorded { review: left, mode: left_mode },
                WorkspaceEventKind::ReviewRecorded { review: right, mode: right_mode },
            ) => *left == *right && *left_mode == *right_mode,
            (
                WorkspaceEventKind::ReferenceAdded { reference: left, mode: left_mode },
                WorkspaceEventKind::ReferenceAdded { reference: right, mode: right_mode },
            ) => *left == *right && *left_mode == *right_mode,
            (
                WorkspaceEventKind::ProvenanceRecorded { provenance: left, mode: left_mode },
                WorkspaceEventKind::ProvenanceRecorded { provenance: right, mode: right_mode },
            ) => *left == *right && *left_mode == *right_mode,
            _ => false,
        }
    }
}

impl PartialEqSpecImpl for WorkspaceEventKind {
    open spec fn obeys_eq_spec() -> bool {
        true
    }

    open spec fn eq_spec(&self, other: &Self) -> bool {
        self@ == other@
    }
}

impl Eq for WorkspaceEventKind {

}

/// One entry of a workspace's journal.
#[derive(Debug)]
pub struct WorkspaceEvent {
    pub id: Uuid,
    pub workspace_id: Uuid,
    pub sequence: u64,
    pub author_id: Uuid,
    pub idempotency_key: String,
    pub created_at: Timestamp,
    pub kind: WorkspaceEventKind,
}

/// The mathematical content of a [`WorkspaceEvent`].
#[verifier::ext_equal]
pub struct WorkspaceEventView {
    pub id: Uuid,
    pub workspace_id: Uuid,
    pub sequence: u64,
    pub author_id: Uuid,
    pub idempotency_key: Seq<char>,
    pub created_at: Timestamp,
    pub kind: WorkspaceEventKindView,
}

impl View for WorkspaceEvent {
    type V = WorkspaceEventView;

    open spec fn view(&self) -> WorkspaceEventView {
        WorkspaceEventView {
            id: self.id,
            workspace_id: self.workspace_id,
            sequence: self.sequence,
            author_id: self.author_id,
            idempotency_key: self.idempotency_key@,
            created_at: self.created_at,
            kind: self.kind@,
        }
    }
}

impl Clone for WorkspaceEvent {
    fn clone(&self) -> (res: Self)
        ensures
            res@ == self@,
    {
        WorkspaceEvent {
            id: self.id,
            workspace_id: self.workspace_id,
            sequence: self.sequence,
            author_id: self.author_id,
            idempotency_key: self.idempotency_key.clone(),
            created_at: self.created_at,
            kind: self.kind.clone(),
        }
    }
}

impl PartialEq for WorkspaceEvent {
    fn eq(&self, other: &Self) -> (res: bool) {
        self.id == other.id
            && self.workspace_id == other.workspace_id
            && self.sequence == other.sequence
            && self.author_id == other.author_id
            && self.idempotency_key == other.idempotency_key
            && self.created_at == other.created_at
            && self.kind == other.kind
    }
}

impl PartialEqSpecImpl for WorkspaceEvent {
    open spec fn obeys_eq_spec() -> bool {
        true
    }

    open spec fn eq_spec(&self, other: &Self) -> bool {
        self@ == other@
    }
}

impl Eq for WorkspaceEvent {

}
} // verus!
