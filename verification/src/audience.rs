//! Who receives an event.

use crate::error::WorkspaceError;
use crate::model::lemma_filter_contains;
use crate::workspace::{Audience, AudienceView, Uuid, WorkspaceRole};
use vstd::prelude::*;

verus! {

/// Strictly increasing identities: sorted, and none of them twice.
pub open spec fn increasing(ids: Seq<Uuid>) -> bool {
    forall|i: int, j: int| 0 <= i < j < ids.len() ==> ids[i] < ids[j]
}

/// Whether a participant is among the members.
pub open spec fn is_listed(members: Seq<(Uuid, WorkspaceRole)>, id: Uuid) -> bool {
    exists|i: int| 0 <= i < members.len() && (#[trigger] members[i]).0 == id
}

/// Whether an audience names a participant, given the members.
pub open spec fn addresses(
    audience: AudienceView,
    members: Seq<(Uuid, WorkspaceRole)>,
    id: Uuid,
) -> bool {
    match audience {
        AudienceView::Workspace => is_listed(members, id),
        AudienceView::Participants { participants } => participants.contains(id),
        AudienceView::Role { role } => exists|i: int|
            0 <= i < members.len() && #[trigger] members[i] == (id, role),
        AudienceView::Direct { participant } => participant == id,
    }
}

/// Why an audience is refused: it names nobody, or somebody who is no member.
pub open spec fn audience_refusal(
    audience: AudienceView,
    members: Seq<(Uuid, WorkspaceRole)>,
) -> Option<WorkspaceError> {
    if forall|id: Uuid| !addresses(audience, members, id) {
        Some(WorkspaceError::EmptyAudience)
    } else if exists|id: Uuid| addresses(audience, members, id) && !is_listed(members, id) {
        Some(WorkspaceError::AudienceNonMember)
    } else {
        None
    }
}

/// The identities that an audience names, in increasing order.
pub open spec fn is_audience(
    audience: AudienceView,
    members: Seq<(Uuid, WorkspaceRole)>,
    ids: Seq<Uuid>,
) -> bool {
    &&& increasing(ids)
    &&& forall|id: Uuid| #[trigger] ids.contains(id) <==> addresses(audience, members, id)
}

/// Increasing identities are determined by which they are.
pub proof fn lemma_increasing_unique(left: Seq<Uuid>, right: Seq<Uuid>)
    requires
        increasing(left),
        increasing(right),
        forall|id: Uuid| #[trigger] left.contains(id) <==> right.contains(id),
    ensures
        left == right,
    decreases left.len(),
{
    if left.len() == 0 {
        if right.len() > 0 {
            assert(right.contains(right[0]));
            assert(left.contains(right[0]));
        }
        assert(left =~= right);
    } else {
        assert(left.contains(left.last()));
        assert(right.contains(left.last()));
        assert(right.contains(right.last()));
        assert(left.contains(right.last()));
        let a = choose|i: int| 0 <= i < right.len() && right[i] == left.last();
        let b = choose|i: int| 0 <= i < left.len() && left[i] == right.last();
        assert(left.last() == right.last());
        let shorter = left.drop_last();
        let other = right.drop_last();
        assert forall|id: Uuid| #[trigger] shorter.contains(id) <==> other.contains(id) by {
            if shorter.contains(id) {
                let i = choose|i: int| 0 <= i < shorter.len() && shorter[i] == id;
                assert(left[i] == id);
                assert(left.contains(id));
                assert(right.contains(id));
                let j = choose|j: int| 0 <= j < right.len() && right[j] == id;
                assert(j < right.len() - 1);
                assert(other[j] == id);
            }
            if other.contains(id) {
                let i = choose|i: int| 0 <= i < other.len() && other[i] == id;
                assert(right[i] == id);
                assert(right.contains(id));
                assert(left.contains(id));
                let j = choose|j: int| 0 <= j < left.len() && left[j] == id;
                assert(j < left.len() - 1);
                assert(shorter[j] == id);
            }
        }
        lemma_increasing_unique(shorter, other);
        assert(left =~= shorter.push(left.last()));
        assert(right =~= other.push(right.last()));
    }
}

/// The identities that an audience names.
pub open spec fn audience_ids(
    audience: AudienceView,
    members: Seq<(Uuid, WorkspaceRole)>,
) -> Seq<Uuid> {
    choose|ids: Seq<Uuid>| is_audience(audience, members, ids)
}

/// There is one increasing list of the identities that an audience names.
pub proof fn lemma_audience_ids(
    audience: AudienceView,
    members: Seq<(Uuid, WorkspaceRole)>,
    ids: Seq<Uuid>,
)
    requires
        is_audience(audience, members, ids),
    ensures
        audience_ids(audience, members) == ids,
{
    let chosen = audience_ids(audience, members);
    assert forall|id: Uuid| #[trigger] chosen.contains(id) <==> ids.contains(id) by {
        assert(ids.contains(id) <==> addresses(audience, members, id));
    }
    lemma_increasing_unique(chosen, ids);
}

/// Increasing identities with one more among them.
proof fn lemma_increasing_insert(ids: Seq<Uuid>, id: Uuid) -> (res: Seq<Uuid>)
    requires
        increasing(ids),
    ensures
        increasing(res),
        forall|other: Uuid| #[trigger] res.contains(other) <==> ids.contains(other) || other == id,
    decreases ids.len(),
{
    if ids.contains(id) {
        ids
    } else if ids.len() == 0 || ids.last() < id {
        let res = ids.push(id);
        assert forall|other: Uuid| #[trigger] res.contains(other) <==> ids.contains(other) || other
            == id by {
            if ids.contains(other) {
                let i = choose|i: int| 0 <= i < ids.len() && ids[i] == other;
                assert(res[i] == other);
            }
            assert(res[ids.len() as int] == id);
            if res.contains(other) && other != id {
                let i = choose|i: int| 0 <= i < res.len() && res[i] == other;
                assert(ids[i] == other);
            }
        }
        res
    } else {
        let last = ids.last();
        let front = ids.drop_last();
        assert(ids.contains(last));
        let shorter = lemma_increasing_insert(front, id);
        let res = shorter.push(last);
        assert forall|other: Uuid| #[trigger] front.contains(other) <==> ids.contains(other)
            && other != last by {
            if front.contains(other) {
                let i = choose|i: int| 0 <= i < front.len() && front[i] == other;
                assert(ids[i] == other);
            }
            if ids.contains(other) && other != last {
                let i = choose|i: int| 0 <= i < ids.len() && ids[i] == other;
                assert(front[i] == other);
            }
        }
        assert forall|i: int, j: int| 0 <= i < j < res.len() implies res[i] < res[j] by {
            assert(shorter.contains(shorter[i]));
            if shorter[i] != id {
                assert(front.contains(shorter[i]));
                let k = choose|k: int| 0 <= k < front.len() && front[k] == shorter[i];
                assert(ids[k] < ids[ids.len() - 1]);
            }
        }
        assert forall|other: Uuid| #[trigger] res.contains(other) <==> ids.contains(other) || other
            == id by {
            assert(shorter.contains(other) <==> front.contains(other) || other == id);
            assert(front.contains(other) <==> ids.contains(other) && other != last);
            if shorter.contains(other) {
                let i = choose|i: int| 0 <= i < shorter.len() && shorter[i] == other;
                assert(res[i] == other);
            }
            assert(res[shorter.len() as int] == last);
            if res.contains(other) && other != last {
                let i = choose|i: int| 0 <= i < res.len() && res[i] == other;
                assert(shorter[i] == other);
            }
        }
        res
    }
}

/// Any identities can be listed in increasing order.
pub proof fn lemma_increasing_exists(list: Seq<Uuid>) -> (res: Seq<Uuid>)
    ensures
        increasing(res),
        forall|id: Uuid| #[trigger] res.contains(id) <==> list.contains(id),
    decreases list.len(),
{
    if list.len() == 0 {
        assert(forall|id: Uuid| !list.contains(id));
        list
    } else {
        let front = list.drop_last();
        let shorter = lemma_increasing_exists(front);
        let res = lemma_increasing_insert(shorter, list.last());
        assert forall|id: Uuid| #[trigger] res.contains(id) <==> list.contains(id) by {
            assert(shorter.contains(id) <==> front.contains(id));
            if front.contains(id) {
                let i = choose|i: int| 0 <= i < front.len() && front[i] == id;
                assert(list[i] == id);
            }
            assert(list[list.len() - 1] == list.last());
            if list.contains(id) && id != list.last() {
                let i = choose|i: int| 0 <= i < list.len() && list[i] == id;
                assert(front[i] == id);
            }
        }
        res
    }
}

/// Whoever an audience names can be listed.
pub proof fn lemma_audience_listed(audience: AudienceView, members: Seq<(Uuid, WorkspaceRole)>)
    ensures
        is_audience(audience, members, audience_ids(audience, members)),
{
    let list = match audience {
        AudienceView::Workspace => members.map_values(|member: (Uuid, WorkspaceRole)| member.0),
        AudienceView::Participants { participants } => participants,
        AudienceView::Role { role } => members.filter(
            |member: (Uuid, WorkspaceRole)| member.1 == role,
        ).map_values(|member: (Uuid, WorkspaceRole)| member.0),
        AudienceView::Direct { participant } => seq![participant],
    };
    let ids = lemma_increasing_exists(list);
    assert forall|id: Uuid| #[trigger] ids.contains(id) <==> addresses(audience, members, id) by {
        assert(ids.contains(id) <==> list.contains(id));
        match audience {
            AudienceView::Workspace => {
                if list.contains(id) {
                    let i = choose|i: int| 0 <= i < list.len() && list[i] == id;
                    assert(members[i].0 == id);
                }
                if is_listed(members, id) {
                    let i = choose|i: int| 0 <= i < members.len() && (#[trigger] members[i]).0 == id;
                    assert(list[i] == id);
                }
            },
            AudienceView::Participants { .. } => {},
            AudienceView::Role { role } => {
                let chosen = |member: (Uuid, WorkspaceRole)| member.1 == role;
                let kept = members.filter(chosen);
                assert(list == kept.map_values(|member: (Uuid, WorkspaceRole)| member.0));
                if list.contains(id) {
                    let i = choose|i: int| 0 <= i < list.len() && list[i] == id;
                    assert(kept.contains(kept[i]));
                    lemma_filter_contains(members, chosen, kept[i]);
                    let j = choose|j: int| 0 <= j < members.len() && members[j] == kept[i];
                    assert(members[j] == (id, role));
                }
                if addresses(audience, members, id) {
                    let j = choose|j: int|
                        0 <= j < members.len() && #[trigger] members[j] == (id, role);
                    assert(members.contains((id, role)));
                    lemma_filter_contains(members, chosen, (id, role));
                    let i = choose|i: int| 0 <= i < kept.len() && kept[i] == (id, role);
                    assert(list[i] == id);
                }
            },
            AudienceView::Direct { participant } => {
                assert(list[0] == participant);
            },
        }
    }
    assert(is_audience(audience, members, ids));
}

/// Whom an audience names does not depend on the order in which members are
/// listed.
pub proof fn lemma_audience_order(
    audience: AudienceView,
    left: Seq<(Uuid, WorkspaceRole)>,
    right: Seq<(Uuid, WorkspaceRole)>,
)
    requires
        forall|member: (Uuid, WorkspaceRole)| #[trigger]
            left.contains(member) <==> right.contains(member),
    ensures
        audience_ids(audience, left) == audience_ids(audience, right),
        audience_refusal(audience, left) == audience_refusal(audience, right),
{
    assert forall|id: Uuid| is_listed(left, id) == is_listed(right, id) by {
        if is_listed(left, id) {
            let i = choose|i: int| 0 <= i < left.len() && (#[trigger] left[i]).0 == id;
            assert(left.contains(left[i]));
            assert(right.contains(left[i]));
            let j = choose|j: int| 0 <= j < right.len() && right[j] == left[i];
            assert(right[j].0 == id);
        }
        if is_listed(right, id) {
            let i = choose|i: int| 0 <= i < right.len() && (#[trigger] right[i]).0 == id;
            assert(right.contains(right[i]));
            assert(left.contains(right[i]));
            let j = choose|j: int| 0 <= j < left.len() && left[j] == right[i];
            assert(left[j].0 == id);
        }
    }
    assert forall|id: Uuid| addresses(audience, left, id) == addresses(audience, right, id) by {
        match audience {
            AudienceView::Role { role } => {
                assert(left.contains((id, role)) <==> right.contains((id, role)));
                if addresses(audience, left, id) {
                    let i = choose|i: int| 0 <= i < left.len() && #[trigger] left[i] == (id, role);
                    assert(left.contains(left[i]));
                    let j = choose|j: int| 0 <= j < right.len() && right[j] == (id, role);
                    assert(right[j] == (id, role));
                }
                if addresses(audience, right, id) {
                    let i = choose|i: int|
                        0 <= i < right.len() && #[trigger] right[i] == (id, role);
                    assert(right.contains(right[i]));
                    let j = choose|j: int| 0 <= j < left.len() && left[j] == (id, role);
                    assert(left[j] == (id, role));
                }
            },
            _ => {
                assert(is_listed(left, id) == is_listed(right, id));
            },
        }
    }
    lemma_audience_listed(audience, left);
    let ids = audience_ids(audience, left);
    assert forall|id: Uuid| #[trigger] ids.contains(id) <==> addresses(audience, right, id) by {
        assert(addresses(audience, left, id) == addresses(audience, right, id));
    }
    lemma_audience_ids(audience, right, ids);
}

/// Adds an identity to increasing ones, once.
pub(crate) fn insert_increasing(ids: &mut Vec<Uuid>, id: Uuid)
    requires
        increasing(old(ids)@),
    ensures
        increasing(final(ids)@),
        forall|other: Uuid| #[trigger]
            final(ids)@.contains(other) <==> old(ids)@.contains(other) || other == id,
{
    let mut at: usize = 0;
    while at < ids.len() && ids[at] < id
        invariant
            at <= ids.len(),
            forall|i: int| 0 <= i < at ==> #[trigger] ids@[i] < id,
        decreases ids.len() - at,
    {
        at = at + 1;
    }
    let ghost before = ids@;
    if at < ids.len() && ids[at] == id {
        assert(ids@[at as int] == id);
    } else {
        ids.insert(at, id);
        let ghost after = ids@;
        assert(after =~= before.take(at as int).push(id) + before.skip(at as int));
        assert(after[at as int] == id);
        assert forall|other: Uuid| #[trigger] after.contains(other) <==> before.contains(other)
            || other == id by {
            if after.contains(other) {
                let i = choose|i: int| 0 <= i < after.len() && after[i] == other;
                if i < at {
                    assert(before[i] == other);
                } else if i > at {
                    assert(before[i - 1] == other);
                }
            }
            if before.contains(other) {
                let i = choose|i: int| 0 <= i < before.len() && before[i] == other;
                if i < at {
                    assert(after[i] == other);
                } else {
                    assert(after[i + 1] == other);
                }
            }
        }
    }
}

/// Whether a participant is among the members.
pub(crate) fn lists(members: &[(Uuid, WorkspaceRole)], id: Uuid) -> (res: bool)
    ensures
        res == is_listed(members@, id),
{
    let mut index: usize = 0;
    while index < members.len()
        invariant
            index <= members.len(),
            forall|i: int| 0 <= i < index ==> (#[trigger] members@[i]).0 != id,
        decreases members.len() - index,
    {
        if members[index].0 == id {
            return true;
        }
        index = index + 1;
    }
    false
}

/// Adds the members that have a role, or all of them.
fn insert_members(
    ids: &mut Vec<Uuid>,
    members: &[(Uuid, WorkspaceRole)],
    role: Option<WorkspaceRole>,
)
    requires
        old(ids)@.len() == 0,
    ensures
        increasing(final(ids)@),
        forall|id: Uuid| #[trigger]
            final(ids)@.contains(id) <==> exists|i: int|
                0 <= i < members@.len() && (#[trigger] members@[i]).0 == id && (role is None
                    || role == Some(members@[i].1)),
{
    let mut index: usize = 0;
    while index < members.len()
        invariant
            index <= members.len(),
            increasing(ids@),
            forall|id: Uuid| #[trigger]
                ids@.contains(id) <==> exists|i: int|
                    0 <= i < index && (#[trigger] members@[i]).0 == id && (role is None || role
                        == Some(members@[i].1)),
        decreases members.len() - index,
    {
        let ghost before = ids@;
        let member = members[index];
        let selected = match role {
            None => true,
            Some(role) => role == member.1,
        };
        if selected {
            insert_increasing(ids, member.0);
        }
        proof {
            assert(members@[index as int] == member);
            assert forall|id: Uuid| #[trigger] ids@.contains(id) <==> exists|i: int|
                0 <= i < index + 1 && (#[trigger] members@[i]).0 == id && (role is None || role
                    == Some(members@[i].1)) by {
                if before.contains(id) {
                    let i = choose|i: int|
                        0 <= i < index && (#[trigger] members@[i]).0 == id && (role is None || role
                            == Some(members@[i].1));
                    assert(members@[i].0 == id);
                }
            }
        }
        index = index + 1;
    }
}

/// Adds every identity of a list.
fn insert_all(ids: &mut Vec<Uuid>, list: &Vec<Uuid>)
    requires
        old(ids)@.len() == 0,
    ensures
        increasing(final(ids)@),
        forall|id: Uuid| #[trigger] final(ids)@.contains(id) <==> list@.contains(id),
{
    let mut index: usize = 0;
    while index < list.len()
        invariant
            index <= list.len(),
            increasing(ids@),
            forall|id: Uuid| #[trigger]
                ids@.contains(id) <==> list@.take(index as int).contains(id),
        decreases list.len() - index,
    {
        let ghost before = ids@;
        insert_increasing(ids, list[index]);
        proof {
            let prefix = list@.take(index as int);
            let longer = list@.take(index + 1);
            assert(longer =~= prefix.push(list@[index as int]));
            assert forall|id: Uuid| #[trigger] ids@.contains(id) <==> longer.contains(id) by {
                if prefix.contains(id) {
                    let i = choose|i: int| 0 <= i < prefix.len() && prefix[i] == id;
                    assert(longer[i] == id);
                }
                if longer.contains(id) {
                    let i = choose|i: int| 0 <= i < longer.len() && longer[i] == id;
                    if i < index {
                        assert(prefix[i] == id);
                    }
                }
                assert(longer[index as int] == list@[index as int]);
            }
        }
        index = index + 1;
    }
    assert(list@.take(index as int) =~= list@);
}

/// Resolves an audience to the participants who must receive the event.
///
/// Every caller resolves an audience here: two that resolved it differently
/// would deliver one workspace's message to different people.
pub fn resolve_recipients(audience: &Audience, members: &[(Uuid, WorkspaceRole)]) -> (res: Result<
    Vec<Uuid>,
    WorkspaceError,
>)
    ensures
        match res {
            Ok(ids) => audience_refusal(audience@, members@) is None && is_audience(
                audience@,
                members@,
                ids@,
            ) && ids@ == audience_ids(audience@, members@),
            Err(error) => audience_refusal(audience@, members@) == Some(error),
        },
{
    let mut ids: Vec<Uuid> = Vec::new();
    match audience {
        Audience::Workspace => insert_members(&mut ids, members, None),
        Audience::Participants { participants } => insert_all(&mut ids, participants),
        Audience::Role { role } => {
            insert_members(&mut ids, members, Some(*role));
        },
        Audience::Direct { participant } => insert_increasing(&mut ids, *participant),
    }
    proof {
        assert forall|id: Uuid| #[trigger] ids@.contains(id) <==> addresses(
            audience@,
            members@,
            id,
        ) by {
            match audience@ {
                AudienceView::Role { role } => {
                    if ids@.contains(id) {
                        let i = choose|i: int|
                            0 <= i < members@.len() && (#[trigger] members@[i]).0 == id && Some(
                                role,
                            ) == Some(members@[i].1);
                        assert(members@[i] == (id, role));
                    }
                    if addresses(audience@, members@, id) {
                        let i = choose|i: int|
                            0 <= i < members@.len() && #[trigger] members@[i] == (id, role);
                        assert(members@[i].0 == id);
                    }
                },
                AudienceView::Workspace => {
                    if ids@.contains(id) {
                        let i = choose|i: int|
                            0 <= i < members@.len() && (#[trigger] members@[i]).0 == id;
                        assert(members@[i].0 == id);
                    }
                    if addresses(audience@, members@, id) {
                        let i = choose|i: int|
                            0 <= i < members@.len() && (#[trigger] members@[i]).0 == id;
                        assert(members@[i].0 == id);
                    }
                },
                _ => {},
            }
        }
    }
    if ids.len() == 0 {
        proof {
            assert forall|id: Uuid| !addresses(audience@, members@, id) by {
                assert(!ids@.contains(id));
            }
        }
        return Err(WorkspaceError::EmptyAudience);
    }
    proof {
        assert(ids@.contains(ids@[0]));
        assert(addresses(audience@, members@, ids@[0]));
    }
    let mut index: usize = 0;
    while index < ids.len()
        invariant
            index <= ids.len(),
            forall|i: int| 0 <= i < index ==> is_listed(members@, #[trigger] ids@[i]),
            forall|id: Uuid| #[trigger] ids@.contains(id) <==> addresses(audience@, members@, id),
            exists|id: Uuid| addresses(audience@, members@, id),
        decreases ids.len() - index,
    {
        if !lists(members, ids[index]) {
            proof {
                let stranger = ids@[index as int];
                assert(ids@.contains(stranger));
                assert(addresses(audience@, members@, stranger) && !is_listed(members@, stranger));
            }
            return Err(WorkspaceError::AudienceNonMember);
        }
        index = index + 1;
    }
    proof {
        assert forall|id: Uuid| addresses(audience@, members@, id) implies is_listed(
            members@,
            id,
        ) by {
            assert(ids@.contains(id));
            let i = choose|i: int| 0 <= i < ids@.len() && ids@[i] == id;
            assert(is_listed(members@, ids@[i]));
        }
        lemma_audience_ids(audience@, members@, ids@);
    }
    Ok(ids)
}

} // verus!
