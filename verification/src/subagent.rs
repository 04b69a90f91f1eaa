//! The children of a root session: their names and how many may live at once.

use crate::laws_children::{law_references_name_the_first_child, refers_to};
use crate::model::{
    find, lemma_filter_one, lemma_position_push, lemma_views_push, position, select, some_item,
    views,
};
use crate::outside::{is_random_uuid, new_v4, utc_now, uuid_string, uuid_text};
use crate::session::{
    LaunchSession, LaunchSessionView, SubagentSnapshot, SubagentSnapshotView, SubagentStatus,
};
use crate::time::Timestamp;
use crate::workspace::Uuid;
use vstd::prelude::*;
use vstd::string::StrSliceExecFns;
use vstd::string::StringExecFns;

verus! {

/// Why a child was refused.
#[derive(Debug, Clone, Copy, PartialEq, Eq, Structural)]
pub enum SubagentError {
    /// Another child goes by the name.
    NameTaken,
    /// As many children live as may.
    LimitReached,
    /// No child goes by the name.
    Unknown,
}

/// The children of a root session.
#[derive(Debug)]
pub struct SubagentTable {
    pub root_session_id: Uuid,
    /// How many children may live at once.
    pub max_children: usize,
    /// Every child, in the order in which they were reserved.
    pub entries: Vec<SubagentSnapshot>,
}

/// The code of a character with an ASCII capital made small.
pub open spec fn small(c: char) -> u32 {
    if 'A' <= c <= 'Z' {
        (c as u32 + 32) as u32
    } else {
        c as u32
    }
}

/// Whether two texts differ in ASCII capitals at most.
pub open spec fn alike(left: Seq<char>, right: Seq<char>) -> bool {
    left.len() == right.len() && forall|i: int|
        0 <= i < left.len() ==> small(#[trigger] left[i]) == small(right[i])
}

/// The full name of a task.
pub open spec fn full_name(task: Seq<char>) -> Seq<char> {
    "/root/"@ + task
}

/// Selects the child that a task's name belongs to, whatever its capitals.
pub open spec fn named_like(task: Seq<char>) -> spec_fn(SubagentSnapshotView) -> bool {
    |agent: SubagentSnapshotView| alike(agent.task_name, full_name(task))
}

/// Selects the children that live: those that neither finished nor ended.
pub open spec fn lives() -> spec_fn(SubagentSnapshotView) -> bool {
    |agent: SubagentSnapshotView|
        agent.status == SubagentStatus::Starting || agent.status == SubagentStatus::Running
            || agent.status == SubagentStatus::WaitingForApproval
}

/// Selects the child that a reference names: by its task, by its full name, or by
/// its session.
pub open spec fn goes_by(reference: Seq<char>) -> spec_fn(SubagentSnapshotView) -> bool {
    |agent: SubagentSnapshotView|
        agent.task_name == full_name(reference) || agent.task_name == reference || "session:"@
            + uuid_text(agent.session_id) == reference
}

/// A child that has just been reserved.
pub open spec fn reserved(
    root: Uuid,
    task: Seq<char>,
    launch: LaunchSessionView,
    session_id: Uuid,
    now: Timestamp,
) -> SubagentSnapshotView {
    SubagentSnapshotView {
        session_id,
        parent_session_id: root,
        task_name: full_name(task),
        status: SubagentStatus::Starting,
        provider: launch.provider,
        model: launch.model,
        effort: launch.effort,
        cwd: launch.cwd,
        created_at: now,
        updated_at: now,
        detail: None,
        final_text: None,
    }
}

/// Why a child is refused, if it is.
pub open spec fn reserve_refusal(
    entries: Seq<SubagentSnapshotView>,
    max_children: usize,
    task: Seq<char>,
) -> Option<SubagentError> {
    if some_item(entries, named_like(task)) {
        Some(SubagentError::NameTaken)
    } else if entries.filter(lives()).len() >= max_children {
        Some(SubagentError::LimitReached)
    } else {
        None
    }
}

/// The code of a character with an ASCII capital made small.
fn to_small(c: char) -> (res: u32)
    ensures
        res == small(c),
{
    if 'A' <= c && c <= 'Z' {
        c as u32 + 32
    } else {
        c as u32
    }
}

/// Whether two texts differ in ASCII capitals at most.
fn are_alike(left: &str, right: &str) -> (res: bool)
    ensures
        res == alike(left@, right@),
{
    let len: usize = left.unicode_len();
    if len != right.unicode_len() {
        return false;
    }
    let mut index: usize = 0;
    while index < len
        invariant
            index <= len,
            len == left@.len(),
            len == right@.len(),
            forall|i: int| 0 <= i < index ==> small(#[trigger] left@[i]) == small(right@[i]),
        decreases len - index,
    {
        if to_small(left.get_char(index)) != to_small(right.get_char(index)) {
            assert(small(left@[index as int]) != small(right@[index as int]));
            return false;
        }
        index = index + 1;
    }
    true
}

/// The full name of a task.
fn name_of_task(task: &str) -> (res: String)
    ensures
        res@ == full_name(task@),
{
    let mut name = "/root/".to_owned();
    name.append(task);
    name
}

impl SubagentTable {
    /// A root session without children.
    pub fn new(root_session_id: Uuid, max_children: usize) -> (res: SubagentTable)
        ensures
            res.root_session_id == root_session_id,
            res.max_children == max_children,
            res.entries@.len() == 0,
    {
        SubagentTable { root_session_id, max_children, entries: Vec::new() }
    }

    /// Reserves a child under a given session, or says why it is refused. A child
    /// inherits how its parent was launched.
    pub fn reserve_as(
        &mut self,
        task: &str,
        launch: &LaunchSession,
        session_id: Uuid,
        now: Timestamp,
    ) -> (res: Result<SubagentSnapshot, SubagentError>)
        ensures
            final(self).root_session_id == old(self).root_session_id,
            final(self).max_children == old(self).max_children,
            match reserve_refusal(views(old(self).entries@), old(self).max_children, task@) {
                Some(error) => res == Err::<SubagentSnapshot, SubagentError>(error) && views(
                    final(self).entries@,
                ) == views(old(self).entries@),
                None => {
                    let child = reserved(
                        old(self).root_session_id,
                        task@,
                        launch@,
                        session_id,
                        now,
                    );
                    &&& res is Ok
                    &&& res->Ok_0@ == child
                    &&& views(final(self).entries@) == views(old(self).entries@).push(child)
                },
            },
    {
        let name = name_of_task(task);
        let test = |agent: &SubagentSnapshot| -> (answer: bool)
            ensures
                answer == named_like(task@)(agent@),
        { are_alike(agent.task_name.as_str(), name.as_str()) };
        if find(&self.entries, test, Ghost(named_like(task@))).is_some() {
            return Err(SubagentError::NameTaken);
        }
        let alive = |agent: &SubagentSnapshot| -> (answer: bool)
            ensures
                answer == lives()(agent@),
        {
            agent.status == SubagentStatus::Starting || agent.status == SubagentStatus::Running
                || agent.status == SubagentStatus::WaitingForApproval
        };
        let living = select(&self.entries, self.entries.len(), alive, Ghost(lives()));
        proof {
            views(self.entries@).lemma_filter_len(lives());
            assert(views(self.entries@).len() == self.entries@.len());
            assert(views(living@).len() == living@.len());
        }
        if living.len() >= self.max_children {
            return Err(SubagentError::LimitReached);
        }
        let child = SubagentSnapshot {
            session_id,
            parent_session_id: self.root_session_id,
            task_name: name,
            status: SubagentStatus::Starting,
            provider: launch.provider,
            model: launch.model.clone(),
            effort: launch.effort.clone(),
            cwd: launch.cwd.clone(),
            created_at: now,
            updated_at: now,
            detail: None,
            final_text: None,
        };
        let copy = child.clone();
        proof {
            lemma_views_push(self.entries@, copy);
        }
        self.entries.push(copy);
        Ok(child)
    }

    /// Reserves a child under a random session.
    pub fn reserve(&mut self, task: &str, launch: &LaunchSession) -> (res: Result<
        SubagentSnapshot,
        SubagentError,
    >)
        ensures
            final(self).root_session_id == old(self).root_session_id,
            final(self).max_children == old(self).max_children,
            match reserve_refusal(views(old(self).entries@), old(self).max_children, task@) {
                Some(error) => res == Err::<SubagentSnapshot, SubagentError>(error) && views(
                    final(self).entries@,
                ) == views(old(self).entries@),
                None => {
                    &&& res is Ok
                    &&& is_random_uuid(res->Ok_0.session_id)
                    &&& res->Ok_0@ == reserved(
                        old(self).root_session_id,
                        task@,
                        launch@,
                        res->Ok_0.session_id,
                        res->Ok_0.created_at,
                    )
                    &&& views(final(self).entries@) == views(old(self).entries@).push(res->Ok_0@)
                },
            },
    {
        let session_id = new_v4();
        let now = utc_now();
        self.reserve_as(task, launch, session_id, now)
    }

    /// The session of the child that a reference names.
    pub fn resolve(&self, reference: &str) -> (res: Result<Uuid, SubagentError>)
        ensures
            res == match position(views(self.entries@), goes_by(reference@)) {
                Some(index) => Ok::<Uuid, SubagentError>(
                    views(self.entries@)[index].session_id,
                ),
                None => Err(SubagentError::Unknown),
            },
            res is Err ==> forall|i: int|
                0 <= i < self.entries@.len() ==> !refers_to(
                    reference@,
                    (#[trigger] self.entries@[i])@,
                ),
            res matches Ok(session_id) ==> exists|i: int|
                0 <= i < self.entries@.len() && refers_to(
                    reference@,
                    (#[trigger] self.entries@[i])@,
                ) && self.entries@[i].session_id == session_id && forall|j: int|
                    0 <= j < i ==> !refers_to(reference@, (#[trigger] self.entries@[j])@),
    {
        proof {
            let rows = views(self.entries@);
            law_references_name_the_first_child(rows, reference@);
            assert forall|i: int| 0 <= i < self.entries@.len() implies rows[i] == (
            #[trigger] self.entries@[i])@ by {}
            if let Some(index) = position(rows, goes_by(reference@)) {
                assert(refers_to(reference@, self.entries@[index]@));
                assert(forall|j: int|
                    0 <= j < index ==> !refers_to(reference@, (#[trigger] self.entries@[j])@));
            }
        }
        let asked = reference.to_owned();
        let full = name_of_task(reference);
        let test = |agent: &SubagentSnapshot| -> (answer: bool)
            ensures
                answer == goes_by(reference@)(agent@),
        {
            let mut session = "session:".to_owned();
            session.append(uuid_string(agent.session_id).as_str());
            agent.task_name == full || agent.task_name == asked || session == asked
        };
        match find(&self.entries, test, Ghost(goes_by(reference@))) {
            Some(index) => {
                assert(views(self.entries@)[index as int] == self.entries@[index as int]@);
                Ok(self.entries[index].session_id)
            },
            None => Err(SubagentError::Unknown),
        }
    }
}

/// No more children live at once than may: a child is reserved only where there
/// is room, and a child that finished or ended leaves room.
pub proof fn law_the_limit_holds(
    entries: Seq<SubagentSnapshotView>,
    max_children: usize,
    root: Uuid,
    task: Seq<char>,
    launch: LaunchSessionView,
    session_id: Uuid,
    now: Timestamp,
)
    requires
        reserve_refusal(entries, max_children, task) is None,
    ensures
        entries.push(reserved(root, task, launch, session_id, now)).filter(lives()).len()
            <= max_children,
{
    let child = reserved(root, task, launch, session_id, now);
    assert(entries.push(child) =~= entries + seq![child]);
    Seq::filter_distributes_over_add(entries, seq![child], lives());
    lemma_filter_one(child, lives());
}

/// A name that a child goes by is refused for every other child, whatever its
/// capitals.
pub proof fn law_names_are_taken_once(
    entries: Seq<SubagentSnapshotView>,
    max_children: usize,
    root: Uuid,
    task: Seq<char>,
    again: Seq<char>,
    launch: LaunchSessionView,
    session_id: Uuid,
    now: Timestamp,
)
    requires
        reserve_refusal(entries, max_children, task) is None,
        alike(task, again),
    ensures
        reserve_refusal(
            entries.push(reserved(root, task, launch, session_id, now)),
            max_children,
            again,
        ) == Some(SubagentError::NameTaken),
{
    let child = reserved(root, task, launch, session_id, now);
    let left = full_name(task);
    let right = full_name(again);
    assert forall|i: int| 0 <= i < left.len() implies small(#[trigger] left[i]) == small(
        right[i],
    ) by {
        let head = "/root/"@.len() as int;
        if i >= head {
            assert(left[i] == task[i - head]);
            assert(right[i] == again[i - head]);
        }
    }
    assert(named_like(again)(child));
    lemma_position_push(entries, child, named_like(again));
}

} // verus!
