//! Parent / child links between scene entities, and the order in which
//! world transforms are recomputed through them: an entity is updated only
//! after its parent, in passes over the entities still waiting, for at most
//! two passes more than there are entities.

use vstd::prelude::*;

use ahash::{AHashMap, AHashSet};

use crate::collections::{
    entity_set, entity_set_contains, entity_set_insert, entity_set_new, parent_table,
    parent_table_get, parent_table_insert, parent_table_new,
};
use crate::selection::Entity;

verus! {

/// `e` waits: it has a parent that is not updated yet.
pub open spec fn waits(parents: Map<Entity, Entity>, done: Set<Entity>, e: Entity) -> bool {
    parents.dom().contains(e) && !done.contains(parents[e])
}

/// One pass over `pending`, in order, from the updated set `done`: each
/// entity that does not wait is updated (and counts as updated for the rest
/// of the pass); the others wait for the next pass. Returns the updated ones,
/// the waiting ones and the new updated set.
pub open spec fn pass(parents: Map<Entity, Entity>, pending: Seq<Entity>, done: Set<Entity>) -> (
    Seq<Entity>,
    Seq<Entity>,
    Set<Entity>,
)
    decreases pending.len(),
{
    if pending.len() == 0 {
        (Seq::empty(), Seq::empty(), done)
    } else {
        let (upd, wait, d) = pass(parents, pending.drop_last(), done);
        let e = pending.last();
        if waits(parents, d, e) {
            (upd, wait.push(e), d)
        } else {
            (upd.push(e), wait, d.insert(e))
        }
    }
}

/// Passes until nothing waits or `guard` passes have run; the entities in
/// the order they are updated.
pub open spec fn passes(parents: Map<Entity, Entity>, pending: Seq<Entity>, done: Set<Entity>, guard: nat) -> Seq<Entity>
    decreases guard,
{
    if guard == 0 || pending.len() == 0 {
        Seq::empty()
    } else {
        let (upd, wait, d) = pass(parents, pending, done);
        upd + passes(parents, wait, d, (guard - 1) as nat)
    }
}

/// The entities still waiting when [`passes`] stops, in order.
pub open spec fn still_waiting(parents: Map<Entity, Entity>, pending: Seq<Entity>, done: Set<Entity>, guard: nat) -> Seq<Entity>
    decreases guard,
{
    if guard == 0 || pending.len() == 0 {
        pending
    } else {
        let (upd, wait, d) = pass(parents, pending, done);
        still_waiting(parents, wait, d, (guard - 1) as nat)
    }
}

/// The parent links that order the update: those whose parent is one of
/// `entities`. An entity whose parent is not listed is updated as a root.
pub open spec fn listed_parents(entities: Seq<Entity>, parents: Map<Entity, Entity>) -> Map<Entity, Entity> {
    Map::new(|e: Entity| parents.dom().contains(e) && entities.contains(parents[e]), |e: Entity| parents[e])
}

/// The entities updated in the passes, in order: roots (no parent, or a
/// parent not listed) and then the children of updated parents.
pub open spec fn settled(entities: Seq<Entity>, parents: Map<Entity, Entity>) -> Seq<Entity> {
    passes(listed_parents(entities, parents), entities, Set::empty(), (entities.len() + 2) as nat)
}

/// The order in which the world transforms of `entities` are recomputed
/// when `parents` gives each one's parent: the [`settled`] entities, then
/// those whose parent never got updated (a parent cycle), as roots.
pub open spec fn update_order(entities: Seq<Entity>, parents: Map<Entity, Entity>) -> Seq<Entity> {
    settled(entities, parents) + still_waiting(
        listed_parents(entities, parents),
        entities,
        Set::empty(),
        (entities.len() + 2) as nat,
    )
}

/// The order in which to recompute world transforms (see [`update_order`]):
/// every entity once, roots and children of updated parents first, in passes
/// over the entities still waiting; an entity whose parent is not listed
/// counts as a root, and entities still waiting at the end come last.
pub fn transform_update_order(entities: &Vec<Entity>, parents: &AHashMap<Entity, Entity>) -> (order: Vec<Entity>)
    requires
        entities@.len() + 2 <= usize::MAX,
    ensures
        order@ == update_order(entities@, parent_table(*parents)),
        order@.to_multiset() == entities@.to_multiset(),
{
    let ghost pt0 = parent_table(*parents);
    let ghost pt = listed_parents(entities@, pt0);
    let mut listed: AHashSet<Entity> = entity_set_new();
    let mut j: usize = 0;
    while j < entities.len()
        invariant
            j <= entities@.len(),
            forall|x: Entity| entity_set(listed).contains(x) <==> entities@.take(j as int).contains(x),
        decreases entities.len() - j,
    {
        entity_set_insert(&mut listed, entities[j]);
        proof {
            broadcast use vstd::seq_lib::lemma_seq_contains_after_push;
            assert(entities@.take(j + 1) =~= entities@.take(j as int).push(entities@[j as int]));
        }
        j += 1;
    }
    proof {
        assert(entities@.take(entities@.len() as int) =~= entities@);
    }
    let ghost total = (entities@.len() + 2) as nat;
    let mut done: AHashSet<Entity> = entity_set_new();
    let mut pending: Vec<Entity> = Vec::new();
    let mut k: usize = 0;
    while k < entities.len()
        invariant
            k <= entities@.len(),
            pending@ == entities@.take(k as int),
        decreases entities.len() - k,
    {
        pending.push(entities[k]);
        assert(entities@.take(k + 1) =~= entities@.take(k as int).push(entities@[k as int]));
        k += 1;
    }
    assert(entities@.take(entities@.len() as int) =~= entities@);
    let mut order: Vec<Entity> = Vec::new();
    let n = entities.len();
    let mut guard: usize = 0;
    assert(entity_set(done) =~= Set::<Entity>::empty());
    assert(order@ + passes(pt, pending@, entity_set(done), total) =~= settled(entities@, pt0));
    while pending.len() > 0 && guard < n + 2
        invariant
            pt0 == parent_table(*parents),
            pt == listed_parents(entities@, pt0),
            forall|x: Entity| entity_set(listed).contains(x) <==> entities@.contains(x),
            n == entities@.len(),
            n + 2 <= usize::MAX,
            total == (n + 2) as nat,
            guard <= n + 2,
            order@ + passes(pt, pending@, entity_set(done), (total - guard) as nat) == settled(
                entities@,
                pt0,
            ),
            still_waiting(pt, pending@, entity_set(done), (total - guard) as nat) == still_waiting(
                pt,
                entities@,
                Set::empty(),
                total,
            ),
        decreases n + 2 - guard,
    {
        guard += 1;
        let ghost before = order@;
        let ghost pend = pending@;
        let ghost d0 = entity_set(done);
        let mut next: Vec<Entity> = Vec::new();
        let mut i: usize = 0;
        assert(pend.take(0) =~= Seq::<Entity>::empty());
        while i < pending.len()
            invariant
                pt0 == parent_table(*parents),
                pt == listed_parents(entities@, pt0),
                forall|x: Entity| entity_set(listed).contains(x) <==> entities@.contains(x),
                pend == pending@,
                i <= pend.len(),
                before.len() <= order@.len(),
                (order@.subrange(before.len() as int, order@.len() as int), next@, entity_set(done))
                    == pass(pt, pend.take(i as int), d0),
                order@.subrange(0, before.len() as int) == before,
            decreases pending.len() - i,
        {
            let e = pending[i];
            proof {
                assert(pend.take(i + 1).drop_last() =~= pend.take(i as int));
                assert(pend.take(i + 1).last() == e);
            }
            let wait = match parent_table_get(parents, e) {
                Some(p) => entity_set_contains(&listed, p) && !entity_set_contains(&done, p),
                None => false,
            };
            assert(wait == waits(pt, entity_set(done), e));
            if wait {
                next.push(e);
            } else {
                let ghost o = order@;
                order.push(e);
                entity_set_insert(&mut done, e);
                proof {
                    assert(order@.subrange(before.len() as int, order@.len() as int) =~= o.subrange(
                        before.len() as int,
                        o.len() as int,
                    ).push(e));
                    assert(order@.subrange(0, before.len() as int) =~= o.subrange(0, before.len() as int));
                }
            }
            i += 1;
        }
        proof {
            assert(pend.take(pend.len() as int) =~= pend);
            let f = (total - (guard - 1)) as nat;
            assert(passes(pt, pend, d0, f) == pass(pt, pend, d0).0 + passes(
                pt,
                pass(pt, pend, d0).1,
                pass(pt, pend, d0).2,
                (f - 1) as nat,
            ));
            assert(order@ =~= before + order@.subrange(before.len() as int, order@.len() as int));
            assert(order@ + passes(pt, next@, entity_set(done), (total - guard) as nat) =~= before + (
            pass(pt, pend, d0).0 + passes(pt, next@, entity_set(done), (f - 1) as nat)));
            assert(still_waiting(pt, pend, d0, f) == still_waiting(pt, next@, entity_set(done), (f - 1) as nat));
        }
        pending = next;
    }
    proof {
        assert(order@ + passes(pt, pending@, entity_set(done), (total - guard) as nat) =~= order@);
        assert(still_waiting(pt, pending@, entity_set(done), (total - guard) as nat) == pending@);
    }
    let ghost settled_part = order@;
    let mut m: usize = 0;
    while m < pending.len()
        invariant
            m <= pending@.len(),
            order@ == settled_part + pending@.take(m as int),
        decreases pending.len() - m,
    {
        order.push(pending[m]);
        proof {
            assert(pending@.take(m + 1) =~= pending@.take(m as int).push(pending@[m as int]));
        }
        m += 1;
    }
    proof {
        assert(pending@.take(pending@.len() as int) =~= pending@);
        lemma_update_order_permutes(entities@, pt0);
    }
    order
}

// ---------------------------------------------------------------------------
// Laws.

proof fn lemma_pass(parents: Map<Entity, Entity>, pending: Seq<Entity>, done: Set<Entity>)
    ensures
        ({
            let (upd, wait, d) = pass(parents, pending, done);
            &&& d == done.union(upd.to_set())
            &&& forall|i: int|
                0 <= i < upd.len() && parents.dom().contains(#[trigger] upd[i]) ==> done.contains(
                    parents[upd[i]],
                ) || upd.subrange(0, i).contains(parents[upd[i]])
            &&& upd.len() + wait.len() == pending.len()
            &&& forall|x: Entity| #[trigger] upd.contains(x) ==> pending.contains(x)
            &&& forall|x: Entity| #[trigger] wait.contains(x) ==> pending.contains(x)
        }),
    decreases pending.len(),
{
    if pending.len() > 0 {
        let init = pending.drop_last();
        lemma_pass(parents, init, done);
        let (upd0, wait0, d0) = pass(parents, init, done);
        let e = pending.last();
        let (upd, wait, d) = pass(parents, pending, done);
        assert forall|x: Entity| #[trigger] upd.contains(x) implies pending.contains(x) by {
            let k = choose|k: int| 0 <= k < upd.len() && upd[k] == x;
            if k < upd0.len() {
                assert(upd0[k] == x);
                assert(upd0.contains(x));
                assert(init.contains(x));
                let m = choose|m: int| 0 <= m < init.len() && init[m] == x;
                assert(pending[m] == x);
            } else {
                assert(pending[pending.len() - 1] == x);
            }
        }
        assert forall|x: Entity| #[trigger] wait.contains(x) implies pending.contains(x) by {
            let k = choose|k: int| 0 <= k < wait.len() && wait[k] == x;
            if k < wait0.len() {
                assert(wait0[k] == x);
                assert(wait0.contains(x));
                assert(init.contains(x));
                let m = choose|m: int| 0 <= m < init.len() && init[m] == x;
                assert(pending[m] == x);
            } else {
                assert(pending[pending.len() - 1] == x);
            }
        }
        if !waits(parents, d0, e) {
            assert(d =~= done.union(upd.to_set())) by {
                assert forall|x: Entity| d.contains(x) <==> done.union(upd.to_set()).contains(x) by {
                    if upd0.contains(x) {
                        let k = choose|k: int| 0 <= k < upd0.len() && upd0[k] == x;
                        assert(upd[k] == x);
                    }
                    if upd.contains(x) && x != e {
                        let k = choose|k: int| 0 <= k < upd.len() && upd[k] == x;
                        if k < upd0.len() {
                            assert(upd0[k] == x);
                        }
                    }
                    if x == e {
                        assert(upd[upd.len() - 1] == e);
                    }
                }
            }
            assert forall|i: int|
                0 <= i < upd.len() && parents.dom().contains(#[trigger] upd[i]) implies done.contains(
                    parents[upd[i]],
                ) || upd.subrange(0, i).contains(parents[upd[i]]) by {
                if i < upd0.len() {
                    assert(upd[i] == upd0[i]);
                    assert(upd.subrange(0, i) =~= upd0.subrange(0, i));
                } else {
                    let p = parents[e];
                    assert(d0.contains(p));
                    if !done.contains(p) {
                        assert(upd0.to_set().contains(p));
                        let k = choose|k: int| 0 <= k < upd0.len() && upd0[k] == p;
                        assert(upd.subrange(0, i)[k] == p);
                    }
                }
            }
        } else {
            assert forall|i: int|
                0 <= i < upd.len() && parents.dom().contains(#[trigger] upd[i]) implies done.contains(
                    parents[upd[i]],
                ) || upd.subrange(0, i).contains(parents[upd[i]]) by {
                assert(upd[i] == upd0[i]);
            }
        }
    } else {
        assert(done.union(Seq::<Entity>::empty().to_set()) =~= done);
    }
}

proof fn lemma_passes_parent_first(
    parents: Map<Entity, Entity>,
    pending: Seq<Entity>,
    done: Set<Entity>,
    guard: nat,
)
    ensures
        forall|i: int|
            0 <= i < passes(parents, pending, done, guard).len() && parents.dom().contains(
                #[trigger] passes(parents, pending, done, guard)[i],
            ) ==> done.contains(parents[passes(parents, pending, done, guard)[i]])
                || passes(parents, pending, done, guard).subrange(0, i).contains(
                parents[passes(parents, pending, done, guard)[i]],
            ),
    decreases guard,
{
    if guard > 0 && pending.len() > 0 {
        let (upd, wait, d) = pass(parents, pending, done);
        lemma_pass(parents, pending, done);
        lemma_passes_parent_first(parents, wait, d, (guard - 1) as nat);
        let rest = passes(parents, wait, d, (guard - 1) as nat);
        let all = passes(parents, pending, done, guard);
        assert(all == upd + rest);
        assert forall|i: int|
            0 <= i < all.len() && parents.dom().contains(#[trigger] all[i]) implies done.contains(
                parents[all[i]],
            ) || all.subrange(0, i).contains(parents[all[i]]) by {
            if i < upd.len() {
                assert(all[i] == upd[i]);
                if upd.subrange(0, i).contains(parents[all[i]]) {
                    let k = choose|k: int| 0 <= k < i && upd.subrange(0, i)[k] == parents[all[i]];
                    assert(all.subrange(0, i)[k] == parents[all[i]]);
                }
            } else {
                let j = i - upd.len();
                assert(all[i] == rest[j]);
                let p = parents[all[i]];
                if d.contains(p) {
                    if !done.contains(p) {
                        assert(upd.to_set().contains(p));
                        let k = choose|k: int| 0 <= k < upd.len() && upd[k] == p;
                        assert(all.subrange(0, i)[k] == p);
                    }
                } else {
                    let k = choose|k: int| 0 <= k < j && rest.subrange(0, j)[k] == p;
                    assert(all.subrange(0, i)[upd.len() + k] == p);
                }
            }
        }
    }
}

proof fn lemma_pass_multiset(parents: Map<Entity, Entity>, pending: Seq<Entity>, done: Set<Entity>)
    ensures
        pass(parents, pending, done).0.to_multiset().add(pass(parents, pending, done).1.to_multiset())
            =~= pending.to_multiset(),
    decreases pending.len(),
{
    broadcast use {vstd::seq_lib::group_seq_properties, vstd::multiset::group_multiset_axioms};

    if pending.len() > 0 {
        let init = pending.drop_last();
        lemma_pass_multiset(parents, init, done);
        assert(pending =~= init.push(pending.last()));
    }
}

proof fn lemma_passes_multiset(parents: Map<Entity, Entity>, pending: Seq<Entity>, done: Set<Entity>, guard: nat)
    ensures
        passes(parents, pending, done, guard).to_multiset().add(
            still_waiting(parents, pending, done, guard).to_multiset(),
        ) =~= pending.to_multiset(),
    decreases guard,
{
    broadcast use {vstd::seq_lib::group_seq_properties, vstd::multiset::group_multiset_axioms};

    if guard > 0 && pending.len() > 0 {
        let (upd, wait, d) = pass(parents, pending, done);
        lemma_pass_multiset(parents, pending, done);
        lemma_passes_multiset(parents, wait, d, (guard - 1) as nat);
        vstd::seq_lib::lemma_multiset_commutative(upd, passes(parents, wait, d, (guard - 1) as nat));
    }
}

proof fn lemma_update_order_permutes(entities: Seq<Entity>, parents: Map<Entity, Entity>)
    ensures
        update_order(entities, parents).to_multiset() == entities.to_multiset(),
{
    let pt = listed_parents(entities, parents);
    let total = (entities.len() + 2) as nat;
    lemma_passes_multiset(pt, entities, Set::empty(), total);
    vstd::seq_lib::lemma_multiset_commutative(
        passes(pt, entities, Set::empty(), total),
        still_waiting(pt, entities, Set::empty(), total),
    );
}

/// Every entity is updated once, and parents first: each entity updated in
/// the passes ([`settled`]) whose parent is listed comes after its parent.
/// Entities still waiting when the passes end follow, as roots.
pub proof fn law_parent_updated_first(entities: Seq<Entity>, parents: Map<Entity, Entity>)
    ensures
        update_order(entities, parents).to_multiset() == entities.to_multiset(),
        forall|i: int|
            0 <= i < settled(entities, parents).len() && parents.dom().contains(
                #[trigger] update_order(entities, parents)[i],
            ) && entities.contains(parents[update_order(entities, parents)[i]])
                ==> update_order(entities, parents).subrange(0, i).contains(
                parents[update_order(entities, parents)[i]],
            ),
{
    lemma_update_order_permutes(entities, parents);
    let pt = listed_parents(entities, parents);
    let total = (entities.len() + 2) as nat;
    lemma_passes_parent_first(pt, entities, Set::empty(), total);
    let st = settled(entities, parents);
    let order = update_order(entities, parents);
    assert forall|i: int|
        0 <= i < st.len() && parents.dom().contains(#[trigger] order[i]) && entities.contains(
            parents[order[i]],
        ) implies order.subrange(0, i).contains(parents[order[i]]) by {
        assert(order[i] == st[i]);
        assert(pt.dom().contains(st[i]));
        assert(order.subrange(0, i) =~= st.subrange(0, i));
    }
}

// ---------------------------------------------------------------------------
// Parent and child links.

/// `s` without the occurrences of `x`, in order.
pub open spec fn without(s: Seq<Entity>, x: Entity) -> Seq<Entity>
    decreases s.len(),
{
    if s.len() == 0 {
        Seq::empty()
    } else if s.last() == x {
        without(s.drop_last(), x)
    } else {
        without(s.drop_last(), x).push(s.last())
    }
}

/// The children list of `e` in `lists`: that of its first entry, or none.
pub open spec fn child_list(lists: Seq<(Entity, Vec<Entity>)>, e: Entity) -> Seq<Entity>
    decreases lists.len(),
{
    if lists.len() == 0 {
        Seq::empty()
    } else if lists[0].0 == e {
        lists[0].1@
    } else {
        child_list(lists.drop_first(), e)
    }
}

/// Children of `e` after `child` is attached under `parent`, when `e` had
/// `list` and `child`'s parent was `old_parent`: `child` leaves its old
/// parent's list, then joins the end of `parent`'s unless already in it.
pub open spec fn children_after(
    old_parent: Option<Entity>,
    list: Seq<Entity>,
    e: Entity,
    child: Entity,
    parent: Entity,
) -> Seq<Entity> {
    let base = if old_parent == Some(e) {
        without(list, child)
    } else {
        list
    };
    if e == parent && !base.contains(child) {
        base.push(child)
    } else {
        base
    }
}

/// The parent / child links of a scene: each entity's parent, and each
/// parent's children in the order they were attached.
pub struct Hierarchy {
    parents: AHashMap<Entity, Entity>,
    children: Vec<(Entity, Vec<Entity>)>,
}

proof fn lemma_without_spec(s: Seq<Entity>, x: Entity)
    ensures
        !without(s, x).contains(x),
        forall|y: Entity| y != x ==> (s.contains(y) <==> without(s, x).contains(y)),
    decreases s.len(),
{
    broadcast use {vstd::seq_lib::lemma_seq_contains_after_push, vstd::seq_lib::lemma_seq_empty_contains_nothing};

    if s.len() > 0 {
        let t = s.drop_last();
        lemma_without_spec(t, x);
        assert(s =~= t.push(s.last()));
    }
}

proof fn lemma_child_list_first(lists: Seq<(Entity, Vec<Entity>)>, e: Entity, i: int)
    requires
        0 <= i < lists.len(),
        lists[i].0 == e,
        forall|j: int| 0 <= j < i ==> lists[j].0 != e,
    ensures
        child_list(lists, e) == lists[i].1@,
    decreases i,
{
    if i > 0 {
        lemma_child_list_first(lists.drop_first(), e, i - 1);
    }
}

proof fn lemma_child_list_none(lists: Seq<(Entity, Vec<Entity>)>, e: Entity)
    requires
        forall|j: int| 0 <= j < lists.len() ==> lists[j].0 != e,
    ensures
        child_list(lists, e) == Seq::<Entity>::empty(),
    decreases lists.len(),
{
    if lists.len() > 0 {
        lemma_child_list_none(lists.drop_first(), e);
    }
}

proof fn lemma_child_list_update(lists: Seq<(Entity, Vec<Entity>)>, i: int, v: Vec<Entity>, e: Entity)
    requires
        0 <= i < lists.len(),
        forall|j: int| 0 <= j < i ==> lists[j].0 != lists[i].0,
    ensures
        child_list(lists.update(i, (lists[i].0, v)), e) == if e == lists[i].0 {
            v@
        } else {
            child_list(lists, e)
        },
    decreases i,
{
    let k = lists[i].0;
    let upd = lists.update(i, (k, v));
    if i == 0 {
        assert(upd.drop_first() =~= lists.drop_first());
    } else {
        assert(upd.drop_first() =~= lists.drop_first().update(i - 1, (k, v)));
        lemma_child_list_update(lists.drop_first(), i - 1, v, e);
    }
}

proof fn lemma_child_list_push(lists: Seq<(Entity, Vec<Entity>)>, entry: (Entity, Vec<Entity>), e: Entity)
    requires
        forall|j: int| 0 <= j < lists.len() ==> lists[j].0 != entry.0,
    ensures
        child_list(lists.push(entry), e) == if e == entry.0 {
            entry.1@
        } else {
            child_list(lists, e)
        },
    decreases lists.len(),
{
    let pushed = lists.push(entry);
    if lists.len() > 0 {
        assert(pushed[0] == lists[0]);
        assert(lists[0].0 != entry.0);
        assert(pushed.drop_first() =~= lists.drop_first().push(entry));
        lemma_child_list_push(lists.drop_first(), entry, e);
        if lists[0].0 == e {
            assert(child_list(pushed, e) == lists[0].1@);
            assert(child_list(lists, e) == lists[0].1@);
        } else {
            assert(child_list(pushed, e) == child_list(pushed.drop_first(), e));
            assert(child_list(lists, e) == child_list(lists.drop_first(), e));
        }
    } else {
        assert(pushed[0] == entry);
        assert(pushed.drop_first() =~= Seq::<(Entity, Vec<Entity>)>::empty());
        if e == entry.0 {
            assert(child_list(pushed, e) == entry.1@);
        } else {
            assert(child_list(pushed, e) == child_list(pushed.drop_first(), e));
        }
    }
}

/// Index of the first entry of `lists` for `e`.
fn find_entry(lists: &Vec<(Entity, Vec<Entity>)>, e: Entity) -> (r: Option<usize>)
    ensures
        match r {
            Some(i) => i < lists@.len() && lists@[i as int].0 == e && forall|j: int|
                0 <= j < i ==> lists@[j].0 != e,
            None => forall|j: int| 0 <= j < lists@.len() ==> lists@[j].0 != e,
        },
{
    let mut i: usize = 0;
    while i < lists.len()
        invariant
            i <= lists@.len(),
            forall|j: int| 0 <= j < i ==> lists@[j].0 != e,
        decreases lists.len() - i,
    {
        if lists[i].0 == e {
            return Some(i);
        }
        i += 1;
    }
    None
}

/// `list` without `x`, in order.
fn list_without(list: &Vec<Entity>, x: Entity) -> (r: Vec<Entity>)
    ensures
        r@ == without(list@, x),
{
    let mut out: Vec<Entity> = Vec::new();
    let mut i: usize = 0;
    while i < list.len()
        invariant
            i <= list@.len(),
            out@ == without(list@.take(i as int), x),
        decreases list.len() - i,
    {
        proof {
            assert(list@.take(i + 1).drop_last() =~= list@.take(i as int));
        }
        if list[i] != x {
            out.push(list[i]);
        }
        i += 1;
    }
    proof {
        assert(list@.take(list@.len() as int) =~= list@);
    }
    out
}

/// Whether `list` holds `x`.
fn list_contains(list: &Vec<Entity>, x: Entity) -> (b: bool)
    ensures
        b == list@.contains(x),
{
    let mut i: usize = 0;
    while i < list.len()
        invariant
            i <= list@.len(),
            forall|j: int| 0 <= j < i ==> list@[j] != x,
        decreases list.len() - i,
    {
        if list[i] == x {
            return true;
        }
        i += 1;
    }
    false
}

impl Hierarchy {
    /// The parent of each entity that has one.
    pub closed spec fn parent_map(&self) -> Map<Entity, Entity> {
        parent_table(self.parents)
    }

    /// The children of `e`, in the order they were attached.
    pub closed spec fn children_of(&self, e: Entity) -> Seq<Entity> {
        child_list(self.children@, e)
    }

    /// `child`'s parent, if it has one.
    pub open spec fn parent_of(&self, child: Entity) -> Option<Entity> {
        if self.parent_map().dom().contains(child) {
            Some(self.parent_map()[child])
        } else {
            None
        }
    }

    /// No entity has a parent or children.
    pub fn new() -> (h: Self)
        ensures
            h.parent_map().dom().is_empty(),
            forall|e: Entity| h.children_of(e) == Seq::<Entity>::empty(),
    {
        Hierarchy { parents: parent_table_new(), children: Vec::new() }
    }

    /// The parent links, for [`transform_update_order`].
    pub fn parents(&self) -> (m: &AHashMap<Entity, Entity>)
        ensures
            parent_table(*m) == self.parent_map(),
    {
        &self.parents
    }

    /// `child`'s parent, if any.
    pub fn parent(&self, child: Entity) -> (r: Option<Entity>)
        ensures
            r == self.parent_of(child),
    {
        parent_table_get(&self.parents, child)
    }

    /// The children of `e`, in the order they were attached.
    pub fn children(&self, e: Entity) -> (r: Vec<Entity>)
        ensures
            r@ == self.children_of(e),
    {
        match find_entry(&self.children, e) {
            Some(i) => {
                proof {
                    lemma_child_list_first(self.children@, e, i as int);
                }
                self.children[i].1.clone()
            },
            None => {
                proof {
                    lemma_child_list_none(self.children@, e);
                }
                Vec::new()
            },
        }
    }

    /// Replace the children list of the entry at `i`.
    fn set_list(&mut self, i: usize, list: Vec<Entity>)
        requires
            i < old(self).children@.len(),
            forall|j: int| 0 <= j < i ==> old(self).children@[j].0 != old(self).children@[i as int].0,
        ensures
            final(self).parents == old(self).parents,
            final(self).children@ == old(self).children@.update(
                i as int,
                (old(self).children@[i as int].0, list),
            ),
    {
        let (e, _old_list) = self.children.remove(i);
        self.children.insert(i, (e, list));
        proof {
            assert(self.children@ =~= old(self).children@.update(i as int, (e, list)));
        }
    }

    /// Attach `child` under `parent`: `child` leaves its former parent's
    /// children and joins the end of `parent`'s, unless already there (see
    /// [`children_after`]).
    pub fn set_parent(&mut self, child: Entity, parent: Entity)
        ensures
            final(self).parent_map() == old(self).parent_map().insert(child, parent),
            forall|e: Entity|
                #[trigger] final(self).children_of(e) == children_after(
                    old(self).parent_of(child),
                    old(self).children_of(e),
                    e,
                    child,
                    parent,
                ),
    {
        let ghost old_parent = old(self).parent_of(child);
        let ghost before = old(self).children@;
        if let Some(old) = parent_table_get(&self.parents, child) {
            if let Some(i) = find_entry(&self.children, old) {
                let kept = list_without(&self.children[i].1, child);
                proof {
                    lemma_child_list_first(before, old, i as int);
                }
                self.set_list(i, kept);
                proof {
                    assert forall|e: Entity| #[trigger] child_list(self.children@, e) == if e == old {
                        without(child_list(before, e), child)
                    } else {
                        child_list(before, e)
                    } by {
                        lemma_child_list_update(before, i as int, kept, e);
                    }
                }
            } else {
                proof {
                    lemma_child_list_none(before, old);
                    assert(without(Seq::<Entity>::empty(), child) =~= Seq::<Entity>::empty());
                }
            }
        }
        let ghost mid = self.children@;
        parent_table_insert(&mut self.parents, child, parent);
        match find_entry(&self.children, parent) {
            Some(i) => {
                proof {
                    lemma_child_list_first(mid, parent, i as int);
                }
                if !list_contains(&self.children[i].1, child) {
                    let mut list = self.children[i].1.clone();
                    list.push(child);
                    self.set_list(i, list);
                    proof {
                        assert forall|e: Entity| #[trigger] child_list(self.children@, e) == if e == parent {
                            child_list(mid, e).push(child)
                        } else {
                            child_list(mid, e)
                        } by {
                            lemma_child_list_update(mid, i as int, list, e);
                        }
                    }
                }
            },
            None => {
                let mut list: Vec<Entity> = Vec::new();
                list.push(child);
                proof {
                    lemma_child_list_none(mid, parent);
                    assert forall|e: Entity| #[trigger] child_list(mid.push((parent, list)), e) == if e == parent {
                        list@
                    } else {
                        child_list(mid, e)
                    } by {
                        lemma_child_list_push(mid, (parent, list), e);
                    }
                    assert(list@ =~= Seq::<Entity>::empty().push(child));
                }
                self.children.push((parent, list));
            },
        }
    }
}

/// Attaching a child moves it: it is in its new parent's children, no
/// longer in its former parent's, and every other entity's children stay.
pub proof fn law_set_parent_moves_child(
    old_parent: Option<Entity>,
    list: Seq<Entity>,
    e: Entity,
    child: Entity,
    parent: Entity,
)
    ensures
        e == parent ==> children_after(old_parent, list, e, child, parent).contains(child),
        e != parent && old_parent == Some(e) ==> !children_after(
            old_parent,
            list,
            e,
            child,
            parent,
        ).contains(child),
        e != parent && old_parent != Some(e) ==> children_after(old_parent, list, e, child, parent)
            == list,
{
    lemma_without_spec(list, child);
    let base = if old_parent == Some(e) {
        without(list, child)
    } else {
        list
    };
    if e == parent && !base.contains(child) {
        assert(base.push(child)[base.len() as int] == child);
    }
}

} // verus!
