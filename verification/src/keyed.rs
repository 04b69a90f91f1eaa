//! Maps by identity, and the order in which they are walked.

use crate::audience::{increasing, lemma_increasing_exists, lemma_increasing_unique};
use crate::workspace::Uuid;
use std::collections::BTreeMap;
use vstd::prelude::*;
use vstd::std_specs::cmp::OrdSpec;
use vstd::std_specs::iter::IteratorSpec;

verus! {

broadcast use {
    vstd::laws_cmp::group_laws_cmp,
    vstd::std_specs::btree::group_btree_axioms,
};

/// Whether a list holds given identities, in increasing order.
pub open spec fn lists_all(ids: Seq<Uuid>, keys: Set<Uuid>) -> bool {
    &&& increasing(ids)
    &&& forall|id: Uuid| #[trigger] ids.contains(id) <==> keys.contains(id)
}

/// Identities in increasing order.
pub open spec fn ordered(keys: Set<Uuid>) -> Seq<Uuid> {
    choose|ids: Seq<Uuid>| lists_all(ids, keys)
}

/// There is one increasing list of identities.
pub proof fn lemma_ordered(ids: Seq<Uuid>, keys: Set<Uuid>)
    requires
        lists_all(ids, keys),
    ensures
        ordered(keys) == ids,
{
    let chosen = ordered(keys);
    assert(lists_all(chosen, keys));
    assert forall|id: Uuid| #[trigger] chosen.contains(id) <==> ids.contains(id) by {
        assert(chosen.contains(id) <==> keys.contains(id));
    }
    lemma_increasing_unique(chosen, ids);
}

/// Finitely many identities can be listed in increasing order.
pub proof fn lemma_ordered_lists(keys: Set<Uuid>)
    requires
        keys.finite(),
    ensures
        lists_all(ordered(keys), keys),
{
    let all = keys.to_seq();
    let ids = lemma_increasing_exists(all);
    assert forall|id: Uuid| #[trigger] ids.contains(id) <==> keys.contains(id) by {
        keys.lemma_to_seq_to_set_id();
        assert(all.contains(id) <==> all.to_set().contains(id));
    }
    assert(lists_all(ids, keys));
}

/// The identities that a map holds something under, in increasing order.
pub fn keys_in_order<V>(map: &BTreeMap<Uuid, V>) -> (res: Vec<Uuid>)
    ensures
        lists_all(res@, map@.dom()),
        res@ == ordered(map@.dom()),
{
    let mut res: Vec<Uuid> = Vec::new();
    let rows = map.iter();
    let ghost items = rows.remaining();
    for (id, _) in it: rows
        invariant
            it.seq() == items,
            res@.len() == it.index(),
            forall|i: int| 0 <= i < res@.len() ==> #[trigger] res@[i] == *items[i].0,
    {
        res.push(*id);
    }
    proof {
        let keys = items.map_values(|row: (&Uuid, &V)| *row.0);
        assert(res@ =~= keys);
        assert forall|i: int, j: int| 0 <= i < j < res@.len() implies #[trigger] res@[i]
            < #[trigger] res@[j] by {
            assert(keys[i].cmp_spec(&keys[j]) is Less);
        }
        assert forall|id: Uuid| #[trigger] res@.contains(id) <==> map@.dom().contains(id) by {
            if res@.contains(id) {
                let i = choose|i: int| 0 <= i < res@.len() && res@[i] == id;
                assert(map@.contains_key(*items[i].0));
            }
            if map@.contains_key(id) {
                assert(items.contains((&id, &map@[id])));
                let i = choose|i: int| 0 <= i < items.len() && items[i] == (&id, &map@[id]);
                assert(res@[i] == id);
            }
        }
        lemma_ordered(res@, map@.dom());
    }
    res
}

} // verus!
