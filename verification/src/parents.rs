//! What every parent has been shown.

use crate::model::views;
use crate::session::{SubagentSnapshot, SubagentSnapshotView};
use crate::wait::{
    is_settled, mark_seen, marked, remember, settled, shown, unseen, unseen_of, TeamInboxMessage,
    TeamInboxMessageView, Unseen, UnseenView, WaitCursor, WaitCursorView,
};
use crate::workspace::Uuid;
use std::collections::HashMap;
use vstd::prelude::*;

verus! {

broadcast use vstd::std_specs::hash::group_hash_axioms;

/// What every parent has been shown, by the parent.
#[derive(Debug)]
pub struct WaitCursors {
    pub cursors: HashMap<Uuid, WaitCursor>,
}

impl View for WaitCursors {
    type V = Map<Uuid, WaitCursorView>;

    open spec fn view(&self) -> Map<Uuid, WaitCursorView> {
        self.cursors@.map_values(|cursor: WaitCursor| cursor@)
    }
}

/// What a parent has been shown. One that never waited has been shown nothing.
pub open spec fn cursor_of(cursors: Map<Uuid, WaitCursorView>, actor: Uuid) -> WaitCursorView {
    if cursors.contains_key(actor) {
        cursors[actor]
    } else {
        WaitCursorView { settled: Map::empty(), messages: Set::empty() }
    }
}

/// The reports that can end a wait: those that woke it and, for the root session
/// alone, those in the root inbox.
pub open spec fn reports_for(
    inbox: Seq<TeamInboxMessageView>,
    woken: Seq<TeamInboxMessageView>,
    is_root: bool,
) -> Seq<TeamInboxMessageView> {
    if is_root {
        inbox + woken
    } else {
        woken
    }
}

/// The cursors once a parent has been shown something.
pub open spec fn shown_to(
    cursors: Map<Uuid, WaitCursorView>,
    actor: Uuid,
    unseen: UnseenView,
) -> Map<Uuid, WaitCursorView> {
    cursors.insert(actor, shown(cursor_of(cursors, actor), unseen))
}

/// The cursors once a parent knows the state that a child rests in.
pub open spec fn marked_for(
    cursors: Map<Uuid, WaitCursorView>,
    actor: Uuid,
    agent: SubagentSnapshotView,
) -> Map<Uuid, WaitCursorView> {
    if is_settled(agent) {
        cursors.insert(actor, marked(cursor_of(cursors, actor), agent))
    } else {
        cursors
    }
}

impl Default for WaitCursors {
    fn default() -> (res: WaitCursors)
        ensures
            res@ == Map::<Uuid, WaitCursorView>::empty(),
    {
        let res = WaitCursors { cursors: HashMap::new() };
        assert(res@ =~= Map::<Uuid, WaitCursorView>::empty());
        res
    }
}

impl WaitCursors {
    /// Takes out what a parent has been shown.
    fn take(&mut self, actor: Uuid) -> (res: WaitCursor)
        ensures
            res@ == cursor_of(old(self)@, actor),
            final(self)@ == old(self)@.remove(actor),
    {
        let found = self.cursors.remove(&actor);
        assert(self@ =~= old(self)@.remove(actor));
        match found {
            Some(cursor) => cursor,
            None => WaitCursor::default(),
        }
    }

    /// Puts back what a parent has been shown.
    fn put(&mut self, actor: Uuid, cursor: WaitCursor)
        ensures
            final(self)@ == old(self)@.insert(actor, cursor@),
    {
        self.cursors.insert(actor, cursor);
        assert(self@ =~= old(self)@.insert(actor, cursor@));
    }

    /// What a parent has not been shown.
    pub fn unseen(
        &self,
        snapshots: &Vec<SubagentSnapshot>,
        inbox: &Vec<TeamInboxMessage>,
        woken: &Vec<TeamInboxMessage>,
        actor: Uuid,
        is_root: bool,
    ) -> (res: Unseen)
        ensures
            res@ == unseen_of(
                views(snapshots@),
                reports_for(views(inbox@), views(woken@), is_root),
                actor,
                cursor_of(self@, actor),
            ),
    {
        let nothing: Vec<TeamInboxMessage> = Vec::new();
        let waiting = if is_root {
            inbox
        } else {
            &nothing
        };
        assert(views(nothing@) + views(woken@) =~= views(woken@));
        match self.cursors.get(&actor) {
            Some(cursor) => unseen(snapshots, waiting, woken, actor, cursor),
            None => unseen(snapshots, waiting, woken, actor, &WaitCursor::default()),
        }
    }

    /// Remembers that a parent knows the settled state that a child rests in.
    pub fn mark_seen(&mut self, actor: Uuid, agent: &SubagentSnapshot)
        ensures
            final(self)@ == marked_for(old(self)@, actor, agent@),
    {
        if settled(agent) {
            let mut cursor = self.take(actor);
            mark_seen(&mut cursor, agent);
            self.put(actor, cursor);
            assert(self@ =~= marked_for(old(self)@, actor, agent@));
        }
    }

    /// Remembers what a parent is shown.
    pub fn remember(&mut self, actor: Uuid, unseen: &Unseen)
        ensures
            final(self)@ == shown_to(old(self)@, actor, unseen@),
    {
        let mut cursor = self.take(actor);
        remember(&mut cursor, unseen);
        self.put(actor, cursor);
        assert(self@ =~= shown_to(old(self)@, actor, unseen@));
    }
}

/// What is shown to one parent, or known to it, is remembered for that parent
/// alone: what ends the waits of another stays as it was.
pub proof fn law_parents_are_shown_apart(
    cursors: Map<Uuid, WaitCursorView>,
    actor: Uuid,
    unseen: UnseenView,
    agent: SubagentSnapshotView,
    other: Uuid,
    snapshots: Seq<SubagentSnapshotView>,
    reports: Seq<TeamInboxMessageView>,
)
    requires
        other != actor,
    ensures
        cursor_of(shown_to(cursors, actor, unseen), actor) == shown(
            cursor_of(cursors, actor),
            unseen,
        ),
        unseen_of(snapshots, reports, other, cursor_of(shown_to(cursors, actor, unseen), other))
            == unseen_of(snapshots, reports, other, cursor_of(cursors, other)),
        unseen_of(snapshots, reports, other, cursor_of(marked_for(cursors, actor, agent), other))
            == unseen_of(snapshots, reports, other, cursor_of(cursors, other)),
{
}

} // verus!
