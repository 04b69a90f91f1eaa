//! The tables that a workspace journal consists of, and their invariant.

use crate::model::{option_view, position, some_item, views, Row};
use crate::time::Timestamp;
use crate::workspace::{
    Participant, ParticipantView, PresenceLease, RecipientDelivery, RecipientDeliveryView, Thread,
    ThreadView, Uuid, Workspace, WorkspaceEvent, WorkspaceEventKindView, WorkspaceEventView,
    WorkspaceMembership, WorkspaceRole, WorkspaceView,
};
use vstd::prelude::*;

verus! {

/// The largest number that a journal column holds.
pub const MAX_COLUMN: u64 = 0x7FFF_FFFF_FFFF_FFFF;

/// A workspace and the sequence that its next event gets.
#[derive(Debug)]
pub struct WorkspaceRow {
    pub workspace: Workspace,
    pub next_sequence: u64,
}

/// The mathematical content of a [`WorkspaceRow`].
#[verifier::ext_equal]
pub struct WorkspaceRowView {
    pub workspace: WorkspaceView,
    pub next_sequence: u64,
}

impl View for WorkspaceRow {
    type V = WorkspaceRowView;

    open spec fn view(&self) -> WorkspaceRowView {
        WorkspaceRowView { workspace: self.workspace@, next_sequence: self.next_sequence }
    }
}

impl Clone for WorkspaceRow {
    fn clone(&self) -> (res: Self)
        ensures
            res@ == self@,
    {
        WorkspaceRow { workspace: self.workspace.clone(), next_sequence: self.next_sequence }
    }
}

/// One recipient's delivery of one event.
#[derive(Debug)]
pub struct DeliveryRow {
    pub delivery: RecipientDelivery,
    /// Whether the event is a message.
    pub is_message: bool,
}

/// The mathematical content of a [`DeliveryRow`].
#[verifier::ext_equal]
pub struct DeliveryRowView {
    pub delivery: RecipientDeliveryView,
    pub is_message: bool,
}

impl View for DeliveryRow {
    type V = DeliveryRowView;

    open spec fn view(&self) -> DeliveryRowView {
        DeliveryRowView { delivery: self.delivery@, is_message: self.is_message }
    }
}

impl Clone for DeliveryRow {
    fn clone(&self) -> (res: Self)
        ensures
            res@ == self@,
    {
        DeliveryRow { delivery: self.delivery.clone(), is_message: self.is_message }
    }
}

/// What this installation knows of an agent's process.
#[derive(Debug)]
pub struct InstanceRow {
    pub participant_id: Uuid,
    pub host_id: Option<Uuid>,
    pub workspace_id: Option<Uuid>,
    pub seen_at: Option<Timestamp>,
    pub cwd: Option<String>,
    pub status: Option<String>,
    pub pid: Option<i64>,
    pub exited_at: Option<Timestamp>,
}

/// The mathematical content of an [`InstanceRow`].
#[verifier::ext_equal]
pub struct InstanceRowView {
    pub participant_id: Uuid,
    pub host_id: Option<Uuid>,
    pub workspace_id: Option<Uuid>,
    pub seen_at: Option<Timestamp>,
    pub cwd: Option<Seq<char>>,
    pub status: Option<Seq<char>>,
    pub pid: Option<i64>,
    pub exited_at: Option<Timestamp>,
}

impl View for InstanceRow {
    type V = InstanceRowView;

    open spec fn view(&self) -> InstanceRowView {
        InstanceRowView {
            participant_id: self.participant_id,
            host_id: self.host_id,
            workspace_id: self.workspace_id,
            seen_at: self.seen_at,
            cwd: option_view(self.cwd),
            status: option_view(self.status),
            pid: self.pid,
            exited_at: self.exited_at,
        }
    }
}

impl Clone for InstanceRow {
    fn clone(&self) -> (res: Self)
        ensures
            res@ == self@,
    {
        InstanceRow {
            participant_id: self.participant_id,
            host_id: self.host_id,
            workspace_id: self.workspace_id,
            seen_at: self.seen_at,
            cwd: self.cwd.clone(),
            status: self.status.clone(),
            pid: self.pid,
            exited_at: self.exited_at,
        }
    }
}

/// A piece of work that a workspace has.
#[derive(Debug, Clone, Copy, PartialEq, Eq, Structural)]
pub struct WorkItem {
    pub workspace_id: Uuid,
    pub work_id: Uuid,
    pub created_sequence: u64,
}

/// The claim that currently holds a piece of work.
#[derive(Debug, Clone, Copy, PartialEq, Eq, Structural)]
pub struct WorkClaim {
    pub workspace_id: Uuid,
    pub work_id: Uuid,
    pub claim_id: Uuid,
    pub claimant_id: Uuid,
    pub sequence: u64,
}

/// One piece of work that waits for another.
#[derive(Debug, Clone, Copy, PartialEq, Eq, Structural)]
pub struct WorkEdge {
    pub workspace_id: Uuid,
    pub work_id: Uuid,
    pub depends_on_work_id: Uuid,
    pub sequence: u64,
}

impl View for WorkItem {
    type V = WorkItem;

    open spec fn view(&self) -> WorkItem {
        *self
    }
}

impl View for WorkClaim {
    type V = WorkClaim;

    open spec fn view(&self) -> WorkClaim {
        *self
    }
}

impl View for WorkEdge {
    type V = WorkEdge;

    open spec fn view(&self) -> WorkEdge {
        *self
    }
}

impl Row for Participant {
    fn duplicate(&self) -> (res: Self) {
        self.clone()
    }
}

impl Row for WorkspaceRow {
    fn duplicate(&self) -> (res: Self) {
        self.clone()
    }
}

impl Row for Thread {
    fn duplicate(&self) -> (res: Self) {
        self.clone()
    }
}

impl Row for WorkspaceEvent {
    fn duplicate(&self) -> (res: Self) {
        self.clone()
    }
}

impl Row for DeliveryRow {
    fn duplicate(&self) -> (res: Self) {
        self.clone()
    }
}

impl Row for InstanceRow {
    fn duplicate(&self) -> (res: Self) {
        self.clone()
    }
}

impl Row for WorkspaceMembership {
    fn duplicate(&self) -> (res: Self) {
        *self
    }
}

impl Row for PresenceLease {
    fn duplicate(&self) -> (res: Self) {
        *self
    }
}

/// Every table of the workspace journal. Rows stand in the order in which they
/// were first written.
#[derive(Debug)]
pub struct WorkspaceTables {
    pub participants: Vec<Participant>,
    pub workspaces: Vec<WorkspaceRow>,
    pub members: Vec<WorkspaceMembership>,
    pub threads: Vec<Thread>,
    pub events: Vec<WorkspaceEvent>,
    pub deliveries: Vec<DeliveryRow>,
    pub work_items: Vec<WorkItem>,
    pub claims: Vec<WorkClaim>,
    pub dependencies: Vec<WorkEdge>,
    pub leases: Vec<PresenceLease>,
    pub instances: Vec<InstanceRow>,
}

/// The mathematical content of [`WorkspaceTables`].
#[verifier::ext_equal]
pub struct StoreState {
    pub participants: Seq<ParticipantView>,
    pub workspaces: Seq<WorkspaceRowView>,
    pub members: Seq<WorkspaceMembership>,
    pub threads: Seq<ThreadView>,
    pub events: Seq<WorkspaceEventView>,
    pub deliveries: Seq<DeliveryRowView>,
    pub work_items: Seq<WorkItem>,
    pub claims: Seq<WorkClaim>,
    pub dependencies: Seq<WorkEdge>,
    pub leases: Seq<PresenceLease>,
    pub instances: Seq<InstanceRowView>,
}

impl View for WorkspaceTables {
    type V = StoreState;

    open spec fn view(&self) -> StoreState {
        StoreState {
            participants: views(self.participants@),
            workspaces: views(self.workspaces@),
            members: views(self.members@),
            threads: views(self.threads@),
            events: views(self.events@),
            deliveries: views(self.deliveries@),
            work_items: views(self.work_items@),
            claims: views(self.claims@),
            dependencies: views(self.dependencies@),
            leases: views(self.leases@),
            instances: views(self.instances@),
        }
    }
}

/// Selects a participant.
pub open spec fn participant_is(id: Uuid) -> spec_fn(ParticipantView) -> bool {
    |row: ParticipantView| row.id == id
}

/// Selects a workspace.
pub open spec fn workspace_is(id: Uuid) -> spec_fn(WorkspaceRowView) -> bool {
    |row: WorkspaceRowView| row.workspace.id == id
}

/// Selects the members of a workspace.
pub open spec fn member_in(workspace_id: Uuid) -> spec_fn(WorkspaceMembership) -> bool {
    |row: WorkspaceMembership| row.workspace_id == workspace_id
}

/// Selects one membership.
pub open spec fn member_is(
    workspace_id: Uuid,
    participant_id: Uuid,
) -> spec_fn(WorkspaceMembership) -> bool {
    |row: WorkspaceMembership|
        row.workspace_id == workspace_id && row.participant_id == participant_id
}

/// Selects a thread.
pub open spec fn thread_is(id: Uuid) -> spec_fn(ThreadView) -> bool {
    |row: ThreadView| row.id == id
}

/// Selects a thread of a workspace.
pub open spec fn thread_in(workspace_id: Uuid, id: Uuid) -> spec_fn(ThreadView) -> bool {
    |row: ThreadView| row.id == id && row.workspace_id == workspace_id
}

/// Selects the events of a workspace.
pub open spec fn event_in(workspace_id: Uuid) -> spec_fn(WorkspaceEventView) -> bool {
    |row: WorkspaceEventView| row.workspace_id == workspace_id
}

/// Selects the event that has a sequence.
pub open spec fn event_at(workspace_id: Uuid, sequence: u64) -> spec_fn(WorkspaceEventView) -> bool {
    |row: WorkspaceEventView| row.workspace_id == workspace_id && row.sequence == sequence
}

/// Selects the event that an author admitted under a key.
pub open spec fn event_keyed(
    workspace_id: Uuid,
    author_id: Uuid,
    key: Seq<char>,
) -> spec_fn(WorkspaceEventView) -> bool {
    |row: WorkspaceEventView|
        row.workspace_id == workspace_id && row.author_id == author_id && row.idempotency_key == key
}

/// Selects one recipient's delivery.
pub open spec fn delivery_is(
    workspace_id: Uuid,
    sequence: u64,
    recipient_id: Uuid,
) -> spec_fn(DeliveryRowView) -> bool {
    |row: DeliveryRowView|
        row.delivery.workspace_id == workspace_id && row.delivery.sequence == sequence
            && row.delivery.recipient_id == recipient_id
}

/// Selects a piece of work.
pub open spec fn work_is(workspace_id: Uuid, work_id: Uuid) -> spec_fn(WorkItem) -> bool {
    |row: WorkItem| row.workspace_id == workspace_id && row.work_id == work_id
}

/// Selects the claim on a piece of work.
pub open spec fn claim_is(workspace_id: Uuid, work_id: Uuid) -> spec_fn(WorkClaim) -> bool {
    |row: WorkClaim| row.workspace_id == workspace_id && row.work_id == work_id
}

/// Selects a dependency.
pub open spec fn edge_is(
    workspace_id: Uuid,
    work_id: Uuid,
    depends_on_work_id: Uuid,
) -> spec_fn(WorkEdge) -> bool {
    |row: WorkEdge|
        row.workspace_id == workspace_id && row.work_id == work_id && row.depends_on_work_id
            == depends_on_work_id
}

/// Selects one client's lease.
pub open spec fn lease_is(
    workspace_id: Uuid,
    participant_id: Uuid,
    client_id: Uuid,
) -> spec_fn(PresenceLease) -> bool {
    |row: PresenceLease|
        row.workspace_id == workspace_id && row.participant_id == participant_id && row.client_id
            == client_id
}

/// Selects what is known of an agent's process.
pub open spec fn instance_is(participant_id: Uuid) -> spec_fn(InstanceRowView) -> bool {
    |row: InstanceRowView| row.participant_id == participant_id
}

/// The members of a workspace and their roles, in table order.
pub open spec fn roles_in(members: Seq<WorkspaceMembership>, workspace_id: Uuid) -> Seq<
    (Uuid, WorkspaceRole),
> {
    members.filter(member_in(workspace_id)).map_values(
        |row: WorkspaceMembership| (row.participant_id, row.role),
    )
}

/// The sequence that the next event of a workspace gets.
pub open spec fn next_sequence(workspaces: Seq<WorkspaceRowView>, workspace_id: Uuid) -> Option<
    u64,
> {
    match position(workspaces, workspace_is(workspace_id)) {
        Some(index) => Some(workspaces[index].next_sequence),
        None => None,
    }
}

/// No two participants share an identity.
pub open spec fn participants_ok(rows: Seq<ParticipantView>) -> bool {
    forall|i: int, j: int|
        0 <= i < j < rows.len() ==> (#[trigger] rows[i]).id != (#[trigger] rows[j]).id
}

/// No two workspaces share an identity, and sequences start at one.
pub open spec fn workspaces_ok(rows: Seq<WorkspaceRowView>) -> bool {
    &&& forall|i: int, j: int|
        0 <= i < j < rows.len() ==> (#[trigger] rows[i]).workspace.id != (
        #[trigger] rows[j]).workspace.id
    &&& forall|i: int|
        0 <= i < rows.len() ==> 1 <= (#[trigger] rows[i]).next_sequence <= MAX_COLUMN
}

/// Nobody is twice a member of one workspace.
pub open spec fn members_ok(rows: Seq<WorkspaceMembership>) -> bool {
    forall|i: int, j: int|
        0 <= i < j < rows.len() ==> !((#[trigger] rows[i]).workspace_id == (
        #[trigger] rows[j]).workspace_id && rows[i].participant_id == rows[j].participant_id)
}

/// No two threads share an identity.
pub open spec fn threads_ok(rows: Seq<ThreadView>) -> bool {
    forall|i: int, j: int|
        0 <= i < j < rows.len() ==> (#[trigger] rows[i]).id != (#[trigger] rows[j]).id
}

/// Whether events are sequenced one, two and so on, up to the next sequence.
pub open spec fn numbered(rows: Seq<WorkspaceEventView>, next: u64) -> bool {
    &&& rows.len() + 1 == next
    &&& forall|k: int| 0 <= k < rows.len() ==> (#[trigger] rows[k]).sequence == k + 1
}

/// Whether the events of every workspace are sequenced without a gap.
pub open spec fn all_numbered(
    rows: Seq<WorkspaceEventView>,
    workspaces: Seq<WorkspaceRowView>,
) -> bool {
    forall|i: int|
        0 <= i < workspaces.len() ==> numbered(
            rows.filter(event_in((#[trigger] workspaces[i]).workspace.id)),
            workspaces[i].next_sequence,
        )
}

/// Every event has a sequence that its workspace handed out, later events have
/// later sequences, the events of a workspace are sequenced without a gap, and a
/// key stands for one event of its author.
pub open spec fn events_ok(
    rows: Seq<WorkspaceEventView>,
    workspaces: Seq<WorkspaceRowView>,
) -> bool {
    &&& forall|i: int|
        0 <= i < rows.len() ==> 1 <= (#[trigger] rows[i]).sequence && next_sequence(
            workspaces,
            rows[i].workspace_id,
        ) is Some && rows[i].sequence < next_sequence(workspaces, rows[i].workspace_id)->Some_0
    &&& forall|i: int, j: int|
        0 <= i < j < rows.len() && (#[trigger] rows[i]).workspace_id == (
        #[trigger] rows[j]).workspace_id ==> rows[i].sequence < rows[j].sequence
    &&& all_numbered(rows, workspaces)
    &&& forall|i: int, j: int|
        0 <= i < j < rows.len() ==> !((#[trigger] rows[i]).workspace_id == (
        #[trigger] rows[j]).workspace_id && rows[i].author_id == rows[j].author_id
            && rows[i].idempotency_key == rows[j].idempotency_key)
}

/// Whether an event is a message.
pub open spec fn is_message(kind: WorkspaceEventKindView) -> bool {
    kind is Message
}

/// A delivery belongs to an event, records whether it is a message, and never
/// goes to its author.
pub open spec fn delivery_ok(row: DeliveryRowView, events: Seq<WorkspaceEventView>) -> bool {
    match position(events, event_at(row.delivery.workspace_id, row.delivery.sequence)) {
        Some(index) => events[index].author_id != row.delivery.recipient_id && row.is_message
            == is_message(events[index].kind),
        None => false,
    }
}

/// Every delivery belongs to an event, later deliveries of a workspace belong
/// to no earlier events, and nobody gets an event twice.
pub open spec fn deliveries_ok(
    rows: Seq<DeliveryRowView>,
    events: Seq<WorkspaceEventView>,
) -> bool {
    &&& forall|i: int| 0 <= i < rows.len() ==> delivery_ok(#[trigger] rows[i], events)
    &&& forall|i: int, j: int|
        0 <= i < j < rows.len() && (#[trigger] rows[i]).delivery.workspace_id == (
        #[trigger] rows[j]).delivery.workspace_id ==> rows[i].delivery.sequence
            <= rows[j].delivery.sequence
    &&& forall|i: int, j: int|
        0 <= i < j < rows.len() ==> !((#[trigger] rows[i]).delivery.workspace_id == (
        #[trigger] rows[j]).delivery.workspace_id && rows[i].delivery.sequence
            == rows[j].delivery.sequence && rows[i].delivery.recipient_id
            == rows[j].delivery.recipient_id)
}

/// Work is created once in a workspace.
pub open spec fn work_items_ok(rows: Seq<WorkItem>) -> bool {
    forall|i: int, j: int|
        0 <= i < j < rows.len() ==> !((#[trigger] rows[i]).workspace_id == (
        #[trigger] rows[j]).workspace_id && rows[i].work_id == rows[j].work_id)
}

/// Work has at most one claim.
pub open spec fn claims_ok(rows: Seq<WorkClaim>) -> bool {
    forall|i: int, j: int|
        0 <= i < j < rows.len() ==> !((#[trigger] rows[i]).workspace_id == (
        #[trigger] rows[j]).workspace_id && rows[i].work_id == rows[j].work_id)
}

/// A dependency is recorded once.
pub open spec fn dependencies_ok(rows: Seq<WorkEdge>) -> bool {
    forall|i: int, j: int|
        0 <= i < j < rows.len() ==> !((#[trigger] rows[i]).workspace_id == (
        #[trigger] rows[j]).workspace_id && rows[i].work_id == rows[j].work_id
            && rows[i].depends_on_work_id == rows[j].depends_on_work_id)
}

/// A client holds at most one lease on a workspace.
pub open spec fn leases_ok(rows: Seq<PresenceLease>) -> bool {
    forall|i: int, j: int|
        0 <= i < j < rows.len() ==> !((#[trigger] rows[i]).workspace_id == (
        #[trigger] rows[j]).workspace_id && rows[i].participant_id == rows[j].participant_id
            && rows[i].client_id == rows[j].client_id)
}

/// An agent has at most one process row.
pub open spec fn instances_ok(rows: Seq<InstanceRowView>) -> bool {
    forall|i: int, j: int|
        0 <= i < j < rows.len() ==> (#[trigger] rows[i]).participant_id != (
        #[trigger] rows[j]).participant_id
}

impl StoreState {
    /// The invariant of the tables.
    pub open spec fn wf(self) -> bool {
        &&& participants_ok(self.participants)
        &&& workspaces_ok(self.workspaces)
        &&& members_ok(self.members)
        &&& threads_ok(self.threads)
        &&& events_ok(self.events, self.workspaces)
        &&& deliveries_ok(self.deliveries, self.events)
        &&& work_items_ok(self.work_items)
        &&& claims_ok(self.claims)
        &&& dependencies_ok(self.dependencies)
        &&& leases_ok(self.leases)
        &&& instances_ok(self.instances)
    }

    /// Tables without rows.
    pub open spec fn empty() -> StoreState {
        StoreState {
            participants: Seq::empty(),
            workspaces: Seq::empty(),
            members: Seq::empty(),
            threads: Seq::empty(),
            events: Seq::empty(),
            deliveries: Seq::empty(),
            work_items: Seq::empty(),
            claims: Seq::empty(),
            dependencies: Seq::empty(),
            leases: Seq::empty(),
            instances: Seq::empty(),
        }
    }

    /// Whether a participant belongs to a workspace.
    pub open spec fn has_member(self, workspace_id: Uuid, participant_id: Uuid) -> bool {
        some_item(self.members, member_is(workspace_id, participant_id))
    }

    /// Whether a workspace has a piece of work.
    pub open spec fn has_work(self, workspace_id: Uuid, work_id: Uuid) -> bool {
        some_item(self.work_items, work_is(workspace_id, work_id))
    }
}

impl WorkspaceTables {
    /// Tables without rows.
    pub fn new() -> (res: WorkspaceTables)
        ensures
            res@ == StoreState::empty(),
            res@.wf(),
    {
        let res = WorkspaceTables {
            participants: Vec::new(),
            workspaces: Vec::new(),
            members: Vec::new(),
            threads: Vec::new(),
            events: Vec::new(),
            deliveries: Vec::new(),
            work_items: Vec::new(),
            claims: Vec::new(),
            dependencies: Vec::new(),
            leases: Vec::new(),
            instances: Vec::new(),
        };
        assert(res@ =~= StoreState::empty());
        res
    }
}

} // verus!
