//! Transient render graph: declare passes and the resources they read and
//! write, then compile an execution order in which every pass runs after the
//! passes whose output it reads (Kahn's topological sort).
//!
//! Running the passes' callbacks in that order is left to the embedding
//! renderer, which keeps them beside the graph.

use vstd::prelude::*;
use vstd::set_lib::{lemma_len_subset, lemma_subset_equality};

use ahash::AHashMap;

use crate::collections::{
    ResourceList, resource_list_from_vec, resource_list_items, resource_list_slice, resource_table, resource_table_clear,
    resource_table_contains, resource_table_insert, resource_table_new, writer_table,
    writer_table_get, writer_table_insert, writer_table_new,
};

verus! {

broadcast use {vstd::seq_lib::lemma_seq_contains_after_push, vstd::seq_lib::lemma_seq_empty_contains_nothing};

/// Handle of a virtual render resource.
#[derive(Debug, Clone, Copy, PartialEq, Eq, Structural, Hash)]
pub struct ResourceId(pub u32);

/// Why a graph cannot be compiled.
#[derive(Debug, PartialEq, Eq, Structural)]
pub enum GraphError {
    /// The passes' dependencies form a cycle.
    Cycle,
    /// A pass writes a resource that was never created.
    UnknownResource(ResourceId),
}

/// One pass: its name and the resources it reads and writes.
pub struct PassNode {
    pub name: &'static str,
    pub reads: ResourceList,
    pub writes: ResourceList,
}

impl PassNode {
    /// A pass named `name` reading `reads` and writing `writes`, in order.
    pub fn new(name: &'static str, reads: Vec<ResourceId>, writes: Vec<ResourceId>) -> (p: PassNode)
        ensures
            p.name == name,
            resource_list_items(p.reads) == reads@,
            resource_list_items(p.writes) == writes@,
    {
        PassNode { name, reads: resource_list_from_vec(reads), writes: resource_list_from_vec(writes) }
    }
}

/// Builder and compiler of a DAG of GPU passes.
pub struct RenderGraph {
    next_resource: u32,
    resources: AHashMap<ResourceId, &'static str>,
    passes: Vec<PassNode>,
}

// ---------------------------------------------------------------------------
// Model.

/// Each pass's read list.
pub open spec fn reads_of(passes: Seq<PassNode>) -> Seq<Seq<ResourceId>> {
    passes.map_values(|p: PassNode| resource_list_items(p.reads))
}

/// Each pass's write list.
pub open spec fn writes_of(passes: Seq<PassNode>) -> Seq<Seq<ResourceId>> {
    passes.map_values(|p: PassNode| resource_list_items(p.writes))
}

/// The last pass (highest index) that writes `r`, if any.
pub open spec fn last_writer(ws: Seq<Seq<ResourceId>>, r: ResourceId) -> Option<int>
    decreases ws.len(),
{
    if ws.len() == 0 {
        None
    } else if ws.last().contains(r) {
        Some(ws.len() - 1)
    } else {
        last_writer(ws.drop_last(), r)
    }
}

/// Pass `j` depends on pass `w`: `j` reads a resource whose last writer is `w`,
/// another pass.
pub open spec fn depends(reads: Seq<Seq<ResourceId>>, ws: Seq<Seq<ResourceId>>, j: int, w: int) -> bool {
    &&& j != w
    &&& exists|t: int|
        0 <= t < reads[j].len() && last_writer(ws, #[trigger] reads[j][t]) == Some(w)
}

/// `order` lists each of the passes `0..n` exactly once.
pub open spec fn is_schedule(order: Seq<usize>, n: int) -> bool {
    &&& order.len() == n
    &&& order.no_duplicates()
    &&& forall|k: int| 0 <= k < order.len() ==> order[k] < n
}

/// No pass in `order` depends on a pass that comes at or after it.
pub open spec fn respects_dependencies(
    reads: Seq<Seq<ResourceId>>,
    ws: Seq<Seq<ResourceId>>,
    order: Seq<usize>,
) -> bool {
    forall|a: int, b: int|
        0 <= a <= b < order.len() ==> !depends(reads, ws, order[a] as int, order[b] as int)
}

/// The first written resource (in pass order, then list order) that is not declared.
pub open spec fn first_undeclared_in(w: Seq<ResourceId>, declared: Map<u32, Seq<char>>) -> Option<
    ResourceId,
>
    decreases w.len(),
{
    if w.len() == 0 {
        None
    } else {
        match first_undeclared_in(w.drop_last(), declared) {
            Some(r) => Some(r),
            None => if !declared.dom().contains(w.last().0) { Some(w.last()) } else { None },
        }
    }
}

/// The first written resource over all passes that is not declared.
pub open spec fn first_undeclared(ws: Seq<Seq<ResourceId>>, declared: Map<u32, Seq<char>>) -> Option<
    ResourceId,
>
    decreases ws.len(),
{
    if ws.len() == 0 {
        None
    } else {
        match first_undeclared(ws.drop_last(), declared) {
            Some(r) => Some(r),
            None => first_undeclared_in(ws.last(), declared),
        }
    }
}

/// Dependency edges `(writer, reader)` of pass `j`, one per read of a
/// resource last written by another pass, in read order.
pub open spec fn read_edges(j: usize, rs: Seq<ResourceId>, ws: Seq<Seq<ResourceId>>) -> Seq<(usize, usize)>
    decreases rs.len(),
{
    if rs.len() == 0 {
        Seq::empty()
    } else {
        let rest = read_edges(j, rs.drop_last(), ws);
        match last_writer(ws, rs.last()) {
            Some(w) => if w != j { rest.push((w as usize, j)) } else { rest },
            None => rest,
        }
    }
}

proof fn lemma_read_edges_prefix(j: usize, rs: Seq<ResourceId>, ws: Seq<Seq<ResourceId>>, t: int)
    requires
        0 <= t <= rs.len(),
    ensures
        read_edges(j, rs.take(t), ws).len() <= read_edges(j, rs, ws).len(),
    decreases rs.len(),
{
    if t == rs.len() {
        assert(rs.take(t) =~= rs);
    } else {
        assert(rs.take(t) =~= rs.drop_last().take(t));
        lemma_read_edges_prefix(j, rs.drop_last(), ws, t);
    }
}

/// Dependency edges of passes `0..i`, in pass order.
pub open spec fn edges_upto(reads: Seq<Seq<ResourceId>>, ws: Seq<Seq<ResourceId>>, i: int) -> Seq<(usize, usize)>
    decreases i,
{
    if i <= 0 {
        Seq::empty()
    } else {
        edges_upto(reads, ws, i - 1) + read_edges((i - 1) as usize, reads[i - 1], ws)
    }
}

/// Edges into `j` whose source has not been scheduled yet.
pub open spec fn open_in(e: Seq<(usize, usize)>, j: usize, done: Seq<usize>) -> int
    decreases e.len(),
{
    if e.len() == 0 {
        0
    } else {
        open_in(e.drop_last(), j, done) + (if e.last().1 == j && !done.contains(e.last().0) {
            1int
        } else {
            0int
        })
    }
}

// `e` holds exactly the dependency edges among passes `0..n`.
spec fn edges_match(e: Seq<(usize, usize)>, reads: Seq<Seq<ResourceId>>, ws: Seq<Seq<ResourceId>>, n: int) -> bool {
    forall|w: usize, j: usize| #[trigger] e.contains((w, j)) <==> ((j as int) < n && depends(reads, ws, j as int, w as int))
}

spec fn edges_bounded(e: Seq<(usize, usize)>, n: int) -> bool {
    forall|m: int| 0 <= m < e.len() ==> (#[trigger] e[m]).1 < n && e[m].0 != e[m].1 && (e[m].0 as int) < n
}

/// Targets of the edges out of `w`, in order.
pub open spec fn targets(e: Seq<(usize, usize)>, w: usize) -> Seq<usize>
    decreases e.len(),
{
    if e.len() == 0 {
        Seq::empty()
    } else if e.last().0 == w {
        targets(e.drop_last(), w).push(e.last().1)
    } else {
        targets(e.drop_last(), w)
    }
}

spec fn occ(s: Seq<usize>, j: usize) -> int
    decreases s.len(),
{
    if s.len() == 0 {
        0
    } else {
        occ(s.drop_last(), j) + (if s.last() == j { 1int } else { 0int })
    }
}

/// Scheduling a pass relaxes its out edges: each target `j`, in order,
/// loses one open edge, and is pushed on the ready stack when none are left.
pub open spec fn relax(ts: Seq<usize>, indeg: Seq<u32>, stack: Seq<usize>) -> (Seq<u32>, Seq<usize>)
    decreases ts.len(),
{
    if ts.len() == 0 {
        (indeg, stack)
    } else {
        let (d, st) = relax(ts.drop_last(), indeg, stack);
        let j = ts.last();
        let d2 = d.update(j as int, (d[j as int] - 1) as u32);
        if d2[j as int] == 0 {
            (d2, st.push(j))
        } else {
            (d2, st)
        }
    }
}

/// Kahn's walk over edges `e` with a stack of ready passes: the newest ready
/// pass is scheduled next and its out edges relaxed; at most `fuel` passes.
pub open spec fn kahn_pops(e: Seq<(usize, usize)>, indeg: Seq<u32>, stack: Seq<usize>, fuel: nat) -> Seq<usize>
    decreases fuel,
{
    if fuel == 0 || stack.len() == 0 {
        Seq::empty()
    } else {
        let i = stack.last();
        let (d, st) = relax(targets(e, i), indeg, stack.drop_last());
        seq![i] + kahn_pops(e, d, st, (fuel - 1) as nat)
    }
}

/// Passes below `k` without open edges, in index order.
pub open spec fn ready_from(indeg: Seq<u32>, k: int) -> Seq<usize>
    decreases k,
{
    if k <= 0 {
        Seq::empty()
    } else {
        let r = ready_from(indeg, k - 1);
        if indeg[k - 1] == 0 {
            r.push((k - 1) as usize)
        } else {
            r
        }
    }
}

/// The order the passes are compiled in: Kahn's walk over their dependency
/// edges, starting from the passes without incoming edges pushed in index
/// order (so the highest-numbered ready pass runs first). It covers every
/// pass exactly when the dependencies have no cycle.
pub open spec fn kahn_order(reads: Seq<Seq<ResourceId>>, ws: Seq<Seq<ResourceId>>) -> Seq<usize> {
    let n = reads.len() as int;
    let e = edges_upto(reads, ws, n);
    let d = Seq::new(n as nat, |j: int| open_in(e, j as usize, Seq::empty()) as u32);
    kahn_pops(e, d, ready_from(d, n), n as nat)
}

// ---------------------------------------------------------------------------
// Lemmas.

proof fn lemma_last_writer_bounds(ws: Seq<Seq<ResourceId>>, r: ResourceId)
    ensures
        last_writer(ws, r) matches Some(w) ==> 0 <= w < ws.len() && ws[w].contains(r),
        last_writer(ws, r) is None ==> forall|i: int| 0 <= i < ws.len() ==> !ws[i].contains(r),
    decreases ws.len(),
{
    if ws.len() > 0 {
        lemma_last_writer_bounds(ws.drop_last(), r);
        if last_writer(ws, r) is None {
            assert forall|i: int| 0 <= i < ws.len() implies !ws[i].contains(r) by {
                if i < ws.len() - 1 {
                    assert(ws.drop_last()[i] == ws[i]);
                }
            }
        }
    }
}

proof fn lemma_read_edges(j: usize, rs: Seq<ResourceId>, ws: Seq<Seq<ResourceId>>, w: usize, k: usize)
    requires
        ws.len() <= usize::MAX,
    ensures
        read_edges(j, rs, ws).contains((w, k)) <==> (k == j && w != j && exists|t: int|
            0 <= t < rs.len() && last_writer(ws, #[trigger] rs[t]) == Some(w as int)),
        forall|m: int|
            0 <= m < read_edges(j, rs, ws).len() ==> (#[trigger] read_edges(j, rs, ws)[m]).1 == j
                && read_edges(j, rs, ws)[m].0 != j && (read_edges(j, rs, ws)[m].0 as int) < ws.len(),
    decreases rs.len(),
{
    if rs.len() > 0 {
        let rest = read_edges(j, rs.drop_last(), ws);
        let x = rs.last();
        let e = read_edges(j, rs, ws);
        lemma_read_edges(j, rs.drop_last(), ws, w, k);
        lemma_last_writer_bounds(ws, x);
        let found = exists|t: int| 0 <= t < rs.len() && last_writer(ws, #[trigger] rs[t]) == Some(w as int);
        let found_rest = exists|t: int|
            0 <= t < rs.drop_last().len() && last_writer(ws, #[trigger] rs.drop_last()[t]) == Some(w as int);
        assert(found <==> (found_rest || last_writer(ws, x) == Some(w as int))) by {
            if found {
                let t = choose|t: int| 0 <= t < rs.len() && last_writer(ws, #[trigger] rs[t]) == Some(w as int);
                if t < rs.len() - 1 {
                    assert(rs.drop_last()[t] == rs[t]);
                }
            }
            if found_rest {
                let t = choose|t: int|
                    0 <= t < rs.drop_last().len() && last_writer(ws, #[trigger] rs.drop_last()[t]) == Some(w as int);
                assert(rs[t] == rs.drop_last()[t]);
            }
            if last_writer(ws, x) == Some(w as int) {
                assert(rs[rs.len() - 1] == x);
            }
        }
        match last_writer(ws, x) {
            Some(lw) => {
                if lw != j {
                    assert(e == rest.push((lw as usize, j)));
                    assert(((lw as usize, j) == (w, k)) <==> (lw == w && k == j));
                } else {
                    assert(e == rest);
                }
            },
            None => {
                assert(e == rest);
            },
        }
        assert forall|m: int| 0 <= m < e.len() implies (#[trigger] e[m]).1 == j && e[m].0 != j
            && (e[m].0 as int) < ws.len() by {
            if m < rest.len() {
                assert(e[m] == rest[m]);
            }
        }
    }
}

proof fn lemma_edges_upto(
    reads: Seq<Seq<ResourceId>>,
    ws: Seq<Seq<ResourceId>>,
    i: int,
    w: usize,
    j: usize,
)
    requires
        0 <= i <= reads.len(),
        reads.len() <= usize::MAX,
        ws.len() <= usize::MAX,
    ensures
        edges_upto(reads, ws, i).contains((w, j)) <==> (j < i && depends(reads, ws, j as int, w as int)),
        forall|m: int|
            0 <= m < edges_upto(reads, ws, i).len() ==> (#[trigger] edges_upto(reads, ws, i)[m]).1 < i
                && edges_upto(reads, ws, i)[m].0 != edges_upto(reads, ws, i)[m].1
                && (edges_upto(reads, ws, i)[m].0 as int) < ws.len(),
    decreases i,
{
    if i > 0 {
        let prev = edges_upto(reads, ws, i - 1);
        let cur = read_edges((i - 1) as usize, reads[i - 1], ws);
        lemma_edges_upto(reads, ws, i - 1, w, j);
        lemma_read_edges((i - 1) as usize, reads[i - 1], ws, w, j);
        let all = prev + cur;
        assert(edges_upto(reads, ws, i) == all);
        if all.contains((w, j)) {
            let m = choose|m: int| 0 <= m < all.len() && #[trigger] all[m] == (w, j);
            if m < prev.len() {
                assert(prev[m] == (w, j));
            } else {
                assert(cur[m - prev.len()] == (w, j));
            }
        }
        if j < i && depends(reads, ws, j as int, w as int) {
            if j < i - 1 {
                let m = choose|m: int| 0 <= m < prev.len() && #[trigger] prev[m] == (w, j);
                assert(all[m] == (w, j));
            } else {
                let m = choose|m: int| 0 <= m < cur.len() && #[trigger] cur[m] == (w, j);
                assert(all[prev.len() + m] == (w, j));
            }
        }
        assert forall|m: int| 0 <= m < all.len() implies (#[trigger] all[m]).1 < i && all[m].0
            != all[m].1 && (all[m].0 as int) < ws.len() by {
            if m >= prev.len() {
                assert(all[m] == cur[m - prev.len()]);
            }
        }
    }
}

proof fn lemma_open_in_push(e: Seq<(usize, usize)>, x: (usize, usize), j: usize, done: Seq<usize>)
    ensures
        open_in(e.push(x), j, done) == open_in(e, j, done) + (if x.1 == j && !done.contains(x.0) {
            1int
        } else {
            0int
        }),
{
    assert(e.push(x).drop_last() =~= e);
}

proof fn lemma_open_in_bounds(e: Seq<(usize, usize)>, j: usize, done: Seq<usize>)
    ensures
        0 <= open_in(e, j, done),
        open_in(e, j, done) > 0 ==> exists|m: int|
            0 <= m < e.len() && (#[trigger] e[m]).1 == j && !done.contains(e[m].0),
        (forall|m: int| 0 <= m < e.len() ==> (#[trigger] e[m]).1 != j) ==> open_in(e, j, done) == 0,
    decreases e.len(),
{
    if e.len() > 0 {
        lemma_open_in_bounds(e.drop_last(), j, done);
        if open_in(e.drop_last(), j, done) > 0 {
            let m = choose|m: int|
                0 <= m < e.drop_last().len() && (#[trigger] e.drop_last()[m]).1 == j
                    && !done.contains(e.drop_last()[m].0);
            assert(e[m] == e.drop_last()[m]);
        }
        assert forall|m: int| 0 <= m < e.drop_last().len() implies #[trigger] e.drop_last()[m] == e[m] by {}
    }
}

// Scheduling `i` lowers each open count by the number of edges from `i`.
proof fn lemma_open_in_schedule(e: Seq<(usize, usize)>, j: usize, done: Seq<usize>, i: usize)
    requires
        !done.contains(i),
    ensures
        open_in(e, j, done.push(i)) + occ(targets(e, i), j) == open_in(e, j, done),
    decreases e.len(),
{
    if e.len() > 0 {
        lemma_open_in_schedule(e.drop_last(), j, done, i);
        let x = e.last();
        assert(done.push(i).contains(x.0) <==> (done.contains(x.0) || x.0 == i)) by {
            if done.push(i).contains(x.0) {
                let k = choose|k: int| 0 <= k < done.push(i).len() && #[trigger] done.push(i)[k] == x.0;
                if k < done.len() {
                    assert(done[k] == x.0);
                }
            }
            if done.contains(x.0) {
                let k = choose|k: int| 0 <= k < done.len() && #[trigger] done[k] == x.0;
                assert(done.push(i)[k] == x.0);
            }
            if x.0 == i {
                assert(done.push(i)[done.len() as int] == x.0);
            }
        }
        if x.0 == i {
            let t = targets(e.drop_last(), i);
            assert(t.push(x.1).drop_last() =~= t);
        }
    }
}

proof fn lemma_open_in_monotone(e: Seq<(usize, usize)>, j: usize, done: Seq<usize>, i: usize)
    requires
        open_in(e, j, done) == 0,
    ensures
        open_in(e, j, done.push(i)) == 0,
    decreases e.len(),
{
    if e.len() > 0 {
        lemma_open_in_bounds(e.drop_last(), j, done);
        lemma_open_in_monotone(e.drop_last(), j, done, i);
        let x = e.last();
        if x.1 == j {
            assert(done.contains(x.0));
            let k = choose|k: int| 0 <= k < done.len() && #[trigger] done[k] == x.0;
            assert(done.push(i)[k] == x.0);
        }
    }
}

proof fn lemma_occ_push(s: Seq<usize>, x: usize, j: usize)
    ensures
        occ(s.push(x), j) == occ(s, j) + (if x == j { 1int } else { 0int }),
{
    assert(s.push(x).drop_last() =~= s);
}

proof fn lemma_occ_bounds(s: Seq<usize>, j: usize)
    ensures
        0 <= occ(s, j),
        (forall|m: int| 0 <= m < s.len() ==> s[m] != j) ==> occ(s, j) == 0,
    decreases s.len(),
{
    if s.len() > 0 {
        lemma_occ_bounds(s.drop_last(), j);
    }
}

proof fn lemma_occ_prefix_le(s: Seq<usize>, t: int, j: usize)
    requires
        0 <= t < s.len(),
    ensures
        occ(s.take(t), j) + (if s[t] == j { 1int } else { 0int }) <= occ(s, j),
    decreases s.len(),
{
    if t == s.len() - 1 {
        assert(s.take(t) =~= s.drop_last());
    } else {
        assert(s.drop_last().take(t) =~= s.take(t));
        lemma_occ_prefix_le(s.drop_last(), t, j);
        lemma_occ_bounds(s, j);
    }
}

proof fn lemma_targets_edges(e: Seq<(usize, usize)>, w: usize)
    ensures
        forall|m: int| 0 <= m < targets(e, w).len() ==> e.contains((w, #[trigger] targets(e, w)[m])),
    decreases e.len(),
{
    if e.len() > 0 {
        lemma_targets_edges(e.drop_last(), w);
        let t = targets(e.drop_last(), w);
        assert forall|m: int| 0 <= m < targets(e, w).len() implies e.contains(
            (w, #[trigger] targets(e, w)[m]),
        ) by {
            if m < t.len() {
                assert(targets(e, w)[m] == t[m]);
                let k = choose|k: int| 0 <= k < e.drop_last().len() && #[trigger] e.drop_last()[k] == (w, t[m]);
                assert(e[k] == (w, t[m]));
            } else {
                assert(e[e.len() - 1] == (w, targets(e, w)[m]));
            }
        }
    }
}

proof fn lemma_usize_range(n: nat)
    requires
        n <= usize::MAX + 1,
    ensures
        Set::new(|j: usize| (j as int) < n).finite(),
        Set::new(|j: usize| (j as int) < n).len() == n,
    decreases n,
{
    if n == 0 {
        assert(Set::new(|j: usize| (j as int) < n) =~= Set::<usize>::empty());
    } else {
        lemma_usize_range((n - 1) as nat);
        assert(Set::new(|j: usize| (j as int) < n - 1).insert((n - 1) as usize) =~= Set::new(
            |j: usize| (j as int) < n,
        ));
    }
}

/// A duplicate-free list of indices below `n` has at most `n` entries, and
/// exactly `n` only when it lists them all.
proof fn lemma_pigeonhole(s: Seq<usize>, n: nat)
    requires
        n <= usize::MAX,
        s.no_duplicates(),
        forall|k: int| 0 <= k < s.len() ==> (s[k] as int) < n,
    ensures
        s.len() <= n,
        s.len() == n ==> forall|j: usize| (j as int) < n ==> s.contains(j),
{
    let r = Set::new(|j: usize| (j as int) < n);
    lemma_usize_range(n);
    s.unique_seq_to_set();
    assert(s.to_set().subset_of(r));
    lemma_len_subset(s.to_set(), r);
    if s.len() == n {
        lemma_subset_equality(s.to_set(), r);
        assert forall|j: usize| (j as int) < n implies s.contains(j) by {
            assert(r.contains(j));
            assert(s.to_set().contains(j));
        }
    }
}

// ---------------------------------------------------------------------------
// Graph.

impl RenderGraph {
    /// The passes added so far.
    pub closed spec fn pass_list(&self) -> Seq<PassNode> {
        self.passes@
    }

    /// The declared resources, by number, with their names.
    pub closed spec fn declared(&self) -> Map<u32, Seq<char>> {
        resource_table(self.resources)
    }

    /// The number the next created resource gets.
    pub closed spec fn next_id(&self) -> u32 {
        self.next_resource
    }

    /// An empty graph.
    pub fn new() -> (g: Self)
        ensures
            g.pass_list() == Seq::<PassNode>::empty(),
            g.declared() == Map::<u32, Seq<char>>::empty(),
            g.next_id() == 0,
    {
        let g = RenderGraph { next_resource: 0, resources: resource_table_new(), passes: Vec::new() };
        assert(g.declared() =~= Map::<u32, Seq<char>>::empty());
        g
    }

    /// Declare a resource named `name`; ids count up from 0, wrapping at `u32::MAX`.
    pub fn create_resource(&mut self, name: &'static str) -> (id: ResourceId)
        ensures
            id == ResourceId(old(self).next_id()),
            final(self).next_id() == (if old(self).next_id() == u32::MAX {
                0
            } else {
                (old(self).next_id() + 1) as u32
            }),
            final(self).declared() == old(self).declared().insert(id.0, name@),
            final(self).pass_list() == old(self).pass_list(),
    {
        let id = ResourceId(self.next_resource);
        self.next_resource = if self.next_resource == u32::MAX {
            0
        } else {
            self.next_resource + 1
        };
        resource_table_insert(&mut self.resources, id, name);
        id
    }

    /// Append a pass.
    pub fn add_pass(&mut self, pass: PassNode)
        ensures
            final(self).pass_list() == old(self).pass_list().push(pass),
            final(self).declared() == old(self).declared(),
            final(self).next_id() == old(self).next_id(),
    {
        self.passes.push(pass);
    }

    /// Remove every pass and resource and restart ids at 0.
    pub fn clear(&mut self)
        ensures
            final(self).pass_list() == Seq::<PassNode>::empty(),
            final(self).declared() == Map::<u32, Seq<char>>::empty(),
            final(self).next_id() == 0,
    {
        self.passes.clear();
        resource_table_clear(&mut self.resources);
        self.next_resource = 0;
        assert(self.declared() =~= Map::<u32, Seq<char>>::empty());
    }

    /// Kahn topological sort over the write→read edges between passes.
    ///
    /// A pass writing an undeclared resource is an error (the first such write,
    /// in pass order). Otherwise the result is an order of all passes in which
    /// each pass comes after every pass whose output it reads, or `Cycle` when
    /// no such order exists.
    pub fn compile_order(&self) -> (res: Result<Vec<usize>, GraphError>)
        requires
            forall|i: int|
                0 <= i < self.pass_list().len() ==> (#[trigger] read_edges(
                    i as usize,
                    reads_of(self.pass_list())[i],
                    writes_of(self.pass_list()),
                )).len() <= u32::MAX,
        ensures
            ({
                let reads = reads_of(self.pass_list());
                let ws = writes_of(self.pass_list());
                let n = self.pass_list().len() as int;
                match first_undeclared(ws, self.declared()) {
                    Some(r) => res == Err::<Vec<usize>, GraphError>(GraphError::UnknownResource(r)),
                    None => match res {
                        Ok(order) => is_schedule(order@, n) && respects_dependencies(
                            reads,
                            ws,
                            order@,
                        ) && order@ == kahn_order(reads, ws),
                        Err(e) => e == GraphError::Cycle && kahn_order(reads, ws).len() < n
                            && forall|o: Seq<usize>|
                            is_schedule(o, n) ==> !respects_dependencies(reads, ws, o),
                    },
                }
            }),
    {
        let n = self.passes.len();
        let ghost passes = self.passes@;
        let ghost reads = reads_of(passes);
        let ghost ws = writes_of(passes);
        let ghost declared = resource_table(self.resources);
        assert(reads.len() == n && ws.len() == n);

        // Resource writer → later readers.
        let mut writer = writer_table_new();
        let mut i: usize = 0;
        while i < n
            invariant
                n == passes.len(),
                passes == self.passes@,
                ws == writes_of(passes),
                declared == resource_table(self.resources),
                i <= n,
                first_undeclared(ws.take(i as int), declared) is None,
                forall|k: u32|
                    #![trigger writer_table(writer).dom().contains(k)]
                    match last_writer(ws.take(i as int), ResourceId(k)) {
                        Some(w) => writer_table(writer).dom().contains(k) && writer_table(writer)[k]
                            == w,
                        None => !writer_table(writer).dom().contains(k),
                    },
            decreases n - i,
        {
            let wl = resource_list_slice(&self.passes[i].writes);
            assert(wl@ == ws[i as int]);
            assert(ws.take(i + 1).drop_last() =~= ws.take(i as int));
            let mut t: usize = 0;
            while t < wl.len()
                invariant
                    n == passes.len(),
                    passes == self.passes@,
                    ws == writes_of(passes),
                    declared == resource_table(self.resources),
                    i < n,
                    wl@ == ws[i as int],
                    t <= wl@.len(),
                    first_undeclared(ws.take(i as int), declared) is None,
                    first_undeclared_in(wl@.take(t as int), declared) is None,
                    forall|k: u32|
                        #![trigger writer_table(writer).dom().contains(k)]
                        if wl@.take(t as int).contains(ResourceId(k)) {
                            writer_table(writer).dom().contains(k) && writer_table(writer)[k] == i
                        } else {
                            match last_writer(ws.take(i as int), ResourceId(k)) {
                                Some(w) => writer_table(writer).dom().contains(k) && writer_table(
                                    writer,
                                )[k] == w,
                                None => !writer_table(writer).dom().contains(k),
                            }
                        },
                decreases wl.len() - t,
            {
                let w = wl[t];
                assert(wl@.take(t + 1).drop_last() =~= wl@.take(t as int));
                if !resource_table_contains(&self.resources, w) {
                    proof {
                        assert(first_undeclared_in(wl@.take(t + 1), declared) == Some(w));
                        lemma_first_undeclared_in_prefix(wl@, t + 1, declared);
                        assert(ws.take(i + 1).last() == wl@);
                        assert(ws.take(i + 1).drop_last() =~= ws.take(i as int));
                        assert(first_undeclared(ws.take(i + 1), declared) == Some(w));
                        lemma_first_undeclared_prefix(ws, i + 1, declared);
                    }
                    return Err(GraphError::UnknownResource(w));
                }
                writer_table_insert(&mut writer, w, i);
                assert forall|k: u32| #![trigger writer_table(writer).dom().contains(k)]
                    wl@.take(t + 1).contains(ResourceId(k)) <==> (wl@.take(t as int).contains(
                        ResourceId(k),
                    ) || w == ResourceId(k)) by {
                    if wl@.take(t + 1).contains(ResourceId(k)) {
                        let m = choose|m: int| 0 <= m < t + 1 && #[trigger] wl@.take(t + 1)[m] == ResourceId(k);
                        if m < t {
                            assert(wl@.take(t as int)[m] == ResourceId(k));
                        }
                    }
                    if wl@.take(t as int).contains(ResourceId(k)) {
                        let m = choose|m: int| 0 <= m < t && #[trigger] wl@.take(t as int)[m] == ResourceId(k);
                        assert(wl@.take(t + 1)[m] == ResourceId(k));
                    }
                    if w == ResourceId(k) {
                        assert(wl@.take(t + 1)[t as int] == ResourceId(k));
                    }
                }
                t += 1;
            }
            assert(wl@.take(wl@.len() as int) =~= wl@);
            assert forall|k: u32| #![trigger writer_table(writer).dom().contains(k)]
                match last_writer(ws.take(i + 1), ResourceId(k)) {
                    Some(w) => writer_table(writer).dom().contains(k) && writer_table(writer)[k] == w,
                    None => !writer_table(writer).dom().contains(k),
                } by {
                assert(ws.take(i + 1).last() == wl@);
            }
            assert(first_undeclared(ws.take(i + 1), declared) is None);
            i += 1;
        }
        assert(ws.take(n as int) =~= ws);
        assert forall|k: u32| #![trigger writer_table(writer).dom().contains(k)]
            match last_writer(ws, ResourceId(k)) {
                Some(w) => writer_table(writer).dom().contains(k) && writer_table(writer)[k] == w,
                None => !writer_table(writer).dom().contains(k),
            } by {
            assert(ws.take(n as int) == ws);
        }

        // Adjacency lists and indegrees.
        let mut indegree: Vec<u32> = Vec::new();
        let mut adj: Vec<Vec<usize>> = Vec::new();
        let mut k: usize = 0;
        while k < n
            invariant
                k <= n,
                indegree@.len() == k,
                adj@.len() == k,
                forall|m: int| 0 <= m < k ==> indegree@[m] == 0,
                forall|m: int| 0 <= m < k ==> (#[trigger] adj@[m])@ == Seq::<usize>::empty(),
            decreases n - k,
        {
            indegree.push(0);
            adj.push(Vec::new());
            k += 1;
        }
        let ghost mut edges: Seq<(usize, usize)> = Seq::empty();
        let ghost none: Seq<usize> = Seq::empty();
        let mut i: usize = 0;
        while i < n
            invariant
                n == passes.len(),
                passes == self.passes@,
                reads == reads_of(passes),
                ws == writes_of(passes),
                reads.len() == n,
                ws.len() == n,
                ws == writes_of(passes),
                forall|q: int| 0 <= q < n ==> (#[trigger] read_edges(q as usize, reads[q], ws)).len() <= u32::MAX,
                i <= n,
                indegree@.len() == n,
                adj@.len() == n,
                forall|k: u32|
                    #![trigger writer_table(writer).dom().contains(k)]
                    match last_writer(ws, ResourceId(k)) {
                        Some(w) => writer_table(writer).dom().contains(k) && writer_table(writer)[k]
                            == w,
                        None => !writer_table(writer).dom().contains(k),
                    },
                edges == edges_upto(reads, ws, i as int),
                none == Seq::<usize>::empty(),
                forall|j: usize| j < n ==> #[trigger] indegree@[j as int] == open_in(edges, j, none),
                forall|w: usize| w < n ==> (#[trigger] adj@[w as int])@ == targets(edges, w),
                forall|j: usize| i <= j < n ==> open_in(edges, j, none) == 0,
            decreases n - i,
        {
            let rl = resource_list_slice(&self.passes[i].reads);
            assert(rl@ == reads[i as int]);
            assert(read_edges((i as int) as usize, reads[i as int], ws).len() <= u32::MAX);
            let ghost base = edges;
            let mut t: usize = 0;
            while t < rl.len()
                invariant
                    n == passes.len(),
                    reads == reads_of(passes),
                    ws == writes_of(passes),
                    reads.len() == n,
                    ws.len() == n,
                ws == writes_of(passes),
                reads.len() == n,
                ws.len() == n,
                    i < n,
                    rl@ == reads[i as int],
                    read_edges(i, rl@, ws).len() <= u32::MAX,
                    t <= rl@.len(),
                    indegree@.len() == n,
                    adj@.len() == n,
                    forall|k: u32|
                        #![trigger writer_table(writer).dom().contains(k)]
                        match last_writer(ws, ResourceId(k)) {
                            Some(w) => writer_table(writer).dom().contains(k) && writer_table(
                                writer,
                            )[k] == w,
                            None => !writer_table(writer).dom().contains(k),
                        },
                    base == edges_upto(reads, ws, i as int),
                    none == Seq::<usize>::empty(),
                    edges == base + read_edges(i, rl@.take(t as int), ws),
                    forall|j: usize| j < n ==> #[trigger] indegree@[j as int] == open_in(edges, j, none),
                    forall|w: usize| w < n ==> (#[trigger] adj@[w as int])@ == targets(edges, w),
                    forall|j: usize| i < j < n ==> open_in(edges, j, none) == 0,
                    open_in(edges, i, none) == read_edges(i, rl@.take(t as int), ws).len(),
                decreases rl.len() - t,
            {
                proof {
                    lemma_read_edges_prefix(i, rl@, ws, t + 1);
                }
                let r = rl[t];
                assert(rl@.take(t + 1).drop_last() =~= rl@.take(t as int));
                let got = writer_table_get(&writer, r);
                proof {
                    lemma_last_writer_bounds(ws, r);
                }
                match got {
                    Some(w) => {
                        if w != i {
                            let ghost old_edges = edges;
                            proof {
                                edges = edges.push((w, i));
                                assert(base + read_edges(i, rl@.take(t + 1), ws) =~= edges);
                                assert(!none.contains(w));
                                assert forall|j: usize| j < n implies open_in(edges, j, none) == open_in(
                                    old_edges,
                                    j,
                                    none,
                                ) + (if j == i { 1int } else { 0int }) by {
                                    lemma_open_in_push(old_edges, (w, i), j, none);
                                }
                                assert forall|v: usize| v < n implies targets(edges, v) == (if v == w {
                                    targets(old_edges, v).push(i)
                                } else {
                                    targets(old_edges, v)
                                }) by {
                                    assert(edges.drop_last() =~= old_edges);
                                }
                                lemma_open_in_bounds(old_edges, i, none);
                            }
                            adj[w].push(i);
                            indegree.set(i, indegree[i] + 1);
                        } else {
                            assert(base + read_edges(i, rl@.take(t + 1), ws) =~= edges);
                        }
                    },
                    None => {
                        assert(base + read_edges(i, rl@.take(t + 1), ws) =~= edges);
                    },
                }
                t += 1;
            }
            assert(rl@.take(rl@.len() as int) =~= rl@);
            assert(edges == edges_upto(reads, ws, i + 1));
            i += 1;
        }

        // Start from every pass without incoming edges.
        let mut queue: Vec<usize> = Vec::new();
        let mut k: usize = 0;
        while k < n
            invariant
                k <= n,
                indegree@.len() == n,
                queue@.no_duplicates(),
                forall|m: int| 0 <= m < queue@.len() ==> (queue@[m] as int) < k && indegree@[queue@[m] as int] == 0,
                forall|j: usize| j < k && indegree@[j as int] == 0 ==> queue@.contains(j),
                queue@ == ready_from(indegree@, k as int),
            decreases n - k,
        {
            if indegree[k] == 0 {
                assert(!queue@.contains(k));
                queue.push(k);
            }
            k += 1;
        }

        let ghost e = edges;
        proof {
            assert(edges_match(e, reads, ws, n as int)) by {
                assert forall|w: usize, j: usize| #[trigger] e.contains((w, j)) <==> ((j as int) < n
                    && depends(reads, ws, j as int, w as int)) by {
                    lemma_edges_upto(reads, ws, n as int, w, j);
                }
            }
            lemma_edges_upto(reads, ws, n as int, 0, 0);
            assert(edges_bounded(e, n as int));
        }
        let ghost whole = kahn_order(reads, ws);
        proof {
            let d0 = Seq::new(n as nat, |j: int| open_in(e, j as usize, Seq::empty()) as u32);
            assert(indegree@ =~= d0);
        }
        let mut order: Vec<usize> = Vec::new();
        assert(order@ + kahn_pops(e, indegree@, queue@, (n - order@.len()) as nat) =~= whole);
        while queue.len() > 0
            invariant
                n == passes.len(),
                reads == reads_of(passes),
                ws == writes_of(passes),
                reads.len() == n,
                ws.len() == n,
                ws == writes_of(passes),
                e == edges_upto(reads, ws, n as int),
                edges_match(e, reads, ws, n as int),
                edges_bounded(e, n as int),
                indegree@.len() == n,
                adj@.len() == n,
                whole == kahn_order(reads, ws),
                order@.len() <= n,
                order@ + kahn_pops(e, indegree@, queue@, (n - order@.len()) as nat) == whole,
                forall|w: usize| w < n ==> (#[trigger] adj@[w as int])@ == targets(e, w),
                forall|j: usize| j < n ==> #[trigger] indegree@[j as int] == open_in(e, j, order@),
                order@.no_duplicates(),
                forall|m: int| 0 <= m < order@.len() ==> order@[m] < n,
                forall|m: int| 0 <= m < order@.len() ==> open_in(e, #[trigger] order@[m], order@) == 0,
                respects_dependencies(reads, ws, order@),
                queue@.no_duplicates(),
                forall|m: int| 0 <= m < queue@.len() ==> (#[trigger] queue@[m]) < n && !order@.contains(queue@[m]) && indegree@[queue@[m] as int] == 0,
                forall|j: usize| j < n && !order@.contains(j) && indegree@[j as int] == 0 ==> queue@.contains(j),
            decreases n - order@.len(),
        {
            let ghost old_order = order@;
            let ghost old_queue = queue@;
            let ghost d_before = indegree@;
            let i = queue.pop().unwrap();
            assert(queue@ =~= old_queue.drop_last());
            assert(old_queue[old_queue.len() - 1] == i);
            proof {
                assert(!old_order.contains(i));
                assert(i < n);
                assert(old_order.push(i).no_duplicates()) by {
                    let o = old_order.push(i);
                    assert forall|a: int, b: int| 0 <= a < o.len() && 0 <= b < o.len() && a != b implies o[a] != o[b] by {
                        if a < old_order.len() && b < old_order.len() {
                            assert(o[a] == old_order[a]);
                            assert(o[b] == old_order[b]);
                        } else if a < old_order.len() {
                            assert(o[a] == old_order[a]);
                        } else {
                            assert(o[b] == old_order[b]);
                        }
                    }
                }
                lemma_pigeonhole(old_order.push(i), n as nat);
                // `i` is not a dependency of any scheduled pass.
                assert forall|a: int, b: int| 0 <= a <= b < old_order.len() + 1 implies !depends(
                    reads,
                    ws,
                    old_order.push(i)[a] as int,
                    old_order.push(i)[b] as int,
                ) by {
                    let o = old_order.push(i);
                    if b == old_order.len() && a < b {
                        let j = o[a];
                        assert(o[a] == old_order[a]);
                        if depends(reads, ws, j as int, i as int) {
                            assert(open_in(e, old_order[a], old_order) == 0);
                            assert(e.contains((i, j)));
                            let m = choose|m: int| 0 <= m < e.len() && #[trigger] e[m] == (i, j);
                            lemma_open_in_bounds(e, j, old_order);
                            lemma_open_in_zero_sources(e, j, old_order, m);
                        }
                    } else if b < old_order.len() {
                        assert(o[a] == old_order[a]);
                        assert(o[b] == old_order[b]);
                    }
                }
            }
            order.push(i);
            let ghost done = order@;
            assert(done == old_order.push(i));
            proof {
                assert forall|j: usize| j < n implies open_in(e, j, done) + occ(targets(e, i), j) == open_in(e, j, old_order) by {
                    lemma_open_in_schedule(e, j, old_order, i);
                }
                assert forall|m: int| 0 <= m < done.len() implies open_in(e, #[trigger] done[m], done) == 0 by {
                    if m < old_order.len() {
                        assert(done[m] == old_order[m]);
                        lemma_open_in_monotone(e, old_order[m], old_order, i);
                    } else {
                        lemma_open_in_monotone(e, i, old_order, i);
                    }
                }
                assert forall|q: int| 0 <= q < queue@.len() implies !done.contains(#[trigger] queue@[q]) by {
                    assert(queue@[q] == old_queue[q]);
                    if done.contains(queue@[q]) {
                        let r = choose|r: int| 0 <= r < done.len() && #[trigger] done[r] == queue@[q];
                        if r < old_order.len() {
                            assert(old_order[r] == queue@[q]);
                        } else {
                            assert(old_queue[q] == old_queue[old_queue.len() - 1]);
                        }
                    }
                }
            }
            proof {
                assert forall|j: usize| j < n && !done.contains(j) && indegree@[j as int] == 0 implies queue@.contains(j) by {
                    assert(!old_order.contains(j)) by {
                        if old_order.contains(j) {
                            let r = choose|r: int| 0 <= r < old_order.len() && #[trigger] old_order[r] == j;
                            assert(done[r] == j);
                        }
                    }
                    assert(j != i) by {
                        assert(done[done.len() - 1] == i);
                    }
                    assert(old_queue.contains(j));
                    let q = choose|q: int| 0 <= q < old_queue.len() && #[trigger] old_queue[q] == j;
                    assert(q != old_queue.len() - 1);
                    assert(queue@[q] == j);
                }
                assert forall|q: int| 0 <= q < queue@.len() implies (#[trigger] queue@[q]) < n && indegree@[queue@[q] as int] == 0 by {
                    assert(queue@[q] == old_queue[q]);
                }
            }
            let targets_i = &adj[i];
            let ghost ti = targets(e, i);
            assert(targets_i@ == ti);
            let ghost q_rest = queue@;
            proof {
                let f = (n - old_order.len()) as nat;
                assert(f >= 1);
                assert(old_queue.last() == i);
                assert(q_rest == old_queue.drop_last());
                assert(kahn_pops(e, d_before, old_queue, f) == seq![i] + kahn_pops(
                    e,
                    relax(ti, d_before, q_rest).0,
                    relax(ti, d_before, q_rest).1,
                    (f - 1) as nat,
                ));
                assert(ti.take(0) =~= Seq::<usize>::empty());
            }
            proof {
                lemma_targets_edges(e, i);
            }
            let mut t: usize = 0;
            while t < targets_i.len()
                invariant
                    n == passes.len(),
                    e == edges_upto(reads, ws, n as int),
                    edges_bounded(e, n as int),
                    edges_match(e, reads, ws, n as int),
                    targets_i@ == ti,
                    ti == targets(e, i),
                    forall|m: int| 0 <= m < ti.len() ==> e.contains((i, #[trigger] ti[m])),
                    i < n,
                    done == old_order.push(i),
                    !old_order.contains(i),
                    forall|m: int| 0 <= m < old_order.len() ==> open_in(e, #[trigger] old_order[m], old_order) == 0,
                    t <= ti.len(),
                    indegree@.len() == n,
                    forall|j: usize| j < n ==> open_in(e, j, done) + occ(ti, j) == open_in(e, j, old_order),
                    forall|j: usize| j < n ==> #[trigger] indegree@[j as int] == open_in(e, j, old_order) - occ(ti.take(t as int), j),
                    forall|m: int| 0 <= m < done.len() ==> open_in(e, #[trigger] done[m], done) == 0,
                    queue@.no_duplicates(),
                    forall|m: int| 0 <= m < queue@.len() ==> (#[trigger] queue@[m]) < n && !done.contains(queue@[m]) && indegree@[queue@[m] as int] == 0,
                    forall|j: usize| j < n && !done.contains(j) && indegree@[j as int] == 0 ==> queue@.contains(j),
                    (indegree@, queue@) == relax(ti.take(t as int), d_before, q_rest),
                decreases ti.len() - t,
            {
                let j = targets_i[t];
                proof {
                    assert(e.contains((i, j)));
                    let m = choose|m: int| 0 <= m < e.len() && #[trigger] e[m] == (i, j);
                    assert(j < n);
                    lemma_occ_prefix_le(ti, t as int, j);
                    lemma_open_in_bounds(e, j, done);
                    assert(ti.take(t + 1).drop_last() =~= ti.take(t as int));
                    assert forall|v: usize| v < n && v != j implies occ(ti.take(t + 1), v) == occ(ti.take(t as int), v) by {
                        lemma_occ_push(ti.take(t as int), j, v);
                    }
                    lemma_occ_push(ti.take(t as int), j, j);
                    // A pass scheduled earlier has no open edges, so `j` is not scheduled.
                    assert(j != i);
                    if done.contains(j) {
                        let r = choose|r: int| 0 <= r < done.len() && #[trigger] done[r] == j;
                        if r == done.len() - 1 {
                            assert(done[r] == i);
                        } else {
                            assert(old_order[r] == j);
                            assert(open_in(e, old_order[r], old_order) == 0);
                            lemma_open_in_zero_sources(e, j, old_order, m);
                        }
                    }
                }
                indegree.set(j, indegree[j] - 1);
                if indegree[j] == 0 {
                    assert(!queue@.contains(j));
                    queue.push(j);
                }
                t += 1;
            }
            assert(ti.take(ti.len() as int) =~= ti);
            proof {
                let f = (n - old_order.len()) as nat;
                assert(old_order + kahn_pops(e, d_before, old_queue, f) == whole);
                assert(order@ + kahn_pops(e, indegree@, queue@, (f - 1) as nat) =~= old_order + (seq![i]
                    + kahn_pops(e, indegree@, queue@, (f - 1) as nat)));
            }
        }
        assert(order@ + kahn_pops(e, indegree@, queue@, (n - order@.len()) as nat) =~= order@);

        proof {
            lemma_pigeonhole(order@, n as nat);
        }
        if order.len() != n {
            proof {
                assert forall|o: Seq<usize>| is_schedule(o, n as int) implies !respects_dependencies(reads, ws, o) by {
                    if respects_dependencies(reads, ws, o) {
                        lemma_pigeonhole(o, n as nat);
                        lemma_schedule_all_done(reads, ws, e, o, order@, indegree@, n as int, o.len() as int);
                        assert(forall|q: int| 0 <= q < o.len() ==> order@.contains(#[trigger] o[q]));
                        assert forall|j: usize| (j as int) < n implies order@.contains(j) by {
                            assert(o.contains(j));
                            let p = choose|p: int| 0 <= p < o.len() && #[trigger] o[p] == j;
                        }
                        lemma_pigeonhole_cover(order@, n as nat);
                    }
                }
            }
            return Err(GraphError::Cycle);
        }
        Ok(order)
    }
}

// Every edge into a pass without open edges comes from a scheduled pass.
proof fn lemma_open_in_zero_sources(e: Seq<(usize, usize)>, j: usize, done: Seq<usize>, m: int)
    requires
        open_in(e, j, done) == 0,
        0 <= m < e.len(),
        e[m].1 == j,
    ensures
        done.contains(e[m].0),
    decreases e.len(),
{
    lemma_open_in_bounds(e.drop_last(), j, done);
    if m < e.len() - 1 {
        assert(e.drop_last()[m] == e[m]);
        lemma_open_in_zero_sources(e.drop_last(), j, done, m);
    }
}

// With no pass left ready, every pass of a dependency-respecting schedule has
// been scheduled (by induction on positions in that schedule).
proof fn lemma_schedule_all_done(
    reads: Seq<Seq<ResourceId>>,
    ws: Seq<Seq<ResourceId>>,
    e: Seq<(usize, usize)>,
    o: Seq<usize>,
    done: Seq<usize>,
    indegree: Seq<u32>,
    n: int,
    p: int,
)
    requires
        is_schedule(o, n),
        respects_dependencies(reads, ws, o),
        forall|j: usize| (j as int) < n ==> o.contains(j),
        edges_match(e, reads, ws, n as int),
        edges_bounded(e, n as int),
        indegree.len() == n,
        forall|j: usize| (j as int) < n ==> #[trigger] indegree[j as int] == open_in(e, j, done),
        forall|j: usize| (j as int) < n && !done.contains(j) ==> indegree[j as int] != 0,
        0 <= p <= n,
    ensures
        forall|q: int| 0 <= q < p ==> done.contains(#[trigger] o[q]),
    decreases p,
{
    if p > 0 {
        lemma_schedule_all_done(reads, ws, e, o, done, indegree, n, p - 1);
        let j = o[p - 1];
        if !done.contains(j) {
            assert(indegree[j as int] != 0);
            lemma_open_in_bounds(e, j, done);
            let m = choose|m: int| 0 <= m < e.len() && (#[trigger] e[m]).1 == j && !done.contains(e[m].0);
            let w = e[m].0;
            assert(e[m] == (w, j));
            assert((w as int) < n);
            assert(e.contains((w, j)));
            assert(depends(reads, ws, j as int, w as int));
            assert(o.contains(w));
            let q = choose|q: int| 0 <= q < o.len() && #[trigger] o[q] == w;
            if q >= p - 1 {
                assert(!depends(reads, ws, o[p - 1] as int, o[q] as int));
            } else {
                assert(done.contains(o[q]));
            }
        }
    }
}

proof fn lemma_pigeonhole_cover(s: Seq<usize>, n: nat)
    requires
        n <= usize::MAX,
        s.no_duplicates(),
        forall|k: int| 0 <= k < s.len() ==> (s[k] as int) < n,
        forall|j: usize| (j as int) < n ==> s.contains(j),
    ensures
        s.len() == n,
{
    let r = Set::new(|j: usize| (j as int) < n);
    lemma_usize_range(n);
    s.unique_seq_to_set();
    assert(s.to_set() =~= r);
}

proof fn lemma_first_undeclared_in_prefix(w: Seq<ResourceId>, t: int, declared: Map<u32, Seq<char>>)
    requires
        0 <= t <= w.len(),
        first_undeclared_in(w.take(t), declared) is Some,
    ensures
        first_undeclared_in(w, declared) == first_undeclared_in(w.take(t), declared),
    decreases w.len(),
{
    if t == w.len() {
        assert(w.take(t) =~= w);
    } else {
        assert(w.drop_last().take(t) =~= w.take(t));
        lemma_first_undeclared_in_prefix(w.drop_last(), t, declared);
    }
}

proof fn lemma_first_undeclared_prefix(ws: Seq<Seq<ResourceId>>, i: int, declared: Map<u32, Seq<char>>)
    requires
        0 <= i <= ws.len(),
        first_undeclared(ws.take(i), declared) is Some,
    ensures
        first_undeclared(ws, declared) == first_undeclared(ws.take(i), declared),
    decreases ws.len(),
{
    if i == ws.len() {
        assert(ws.take(i) =~= ws);
    } else {
        assert(ws.drop_last().take(i) =~= ws.take(i));
        lemma_first_undeclared_prefix(ws.drop_last(), i, declared);
    }
}


// ---------------------------------------------------------------------------
// Renderer.

/// High-level renderer owning the per-frame graph.
pub struct Renderer {
    graph: RenderGraph,
}

impl Renderer {
    /// The frame graph.
    pub closed spec fn frame_graph(&self) -> RenderGraph {
        self.graph
    }

    pub fn new() -> (r: Self)
        ensures
            r.frame_graph().pass_list() == Seq::<PassNode>::empty(),
            r.frame_graph().declared() == Map::<u32, Seq<char>>::empty(),
            r.frame_graph().next_id() == 0,
    {
        Renderer { graph: RenderGraph::new() }
    }

    /// Start a frame: the graph is rebuilt with one resource,
    /// `swapchain_color` (id 0), and one pass, `clear`, that reads nothing
    /// and writes it.
    pub fn begin_frame(&mut self)
        ensures
            final(self).frame_graph().declared() == Map::<u32, Seq<char>>::empty().insert(
                0,
                "swapchain_color"@,
            ),
            final(self).frame_graph().next_id() == 1,
            final(self).frame_graph().pass_list().len() == 1,
            final(self).frame_graph().pass_list()[0].name@ == "clear"@,
            resource_list_items(final(self).frame_graph().pass_list()[0].reads) == Seq::<
                ResourceId,
            >::empty(),
            resource_list_items(final(self).frame_graph().pass_list()[0].writes) == seq![
                ResourceId(0),
            ],
    {
        self.graph.clear();
        let color = self.graph.create_resource("swapchain_color");
        let mut writes: Vec<ResourceId> = Vec::new();
        writes.push(color);
        self.graph.add_pass(PassNode::new("clear", Vec::new(), writes));
        assert(self.graph.pass_list() =~= seq![self.graph.pass_list()[0]]);
        assert(writes@ =~= seq![ResourceId(0)]);
    }

    /// The frame graph, for adding passes.
    pub fn graph_mut(&mut self) -> (g: &mut RenderGraph)
        ensures
            *g == old(self).frame_graph(),
            final(self).frame_graph() == *final(g),
    {
        &mut self.graph
    }

    /// The frame graph.
    pub fn graph(&self) -> (g: &RenderGraph)
        ensures
            *g == self.frame_graph(),
    {
        &self.graph
    }
}

impl Default for RenderGraph {
    fn default() -> (g: Self)
        ensures
            g.pass_list() == Seq::<PassNode>::empty(),
            g.declared() == Map::<u32, Seq<char>>::empty(),
            g.next_id() == 0,
    {
        RenderGraph::new()
    }
}

impl Default for Renderer {
    fn default() -> (r: Self)
        ensures
            r.frame_graph().pass_list() == Seq::<PassNode>::empty(),
            r.frame_graph().declared() == Map::<u32, Seq<char>>::empty(),
            r.frame_graph().next_id() == 0,
    {
        Renderer::new()
    }
}

} // verus!
