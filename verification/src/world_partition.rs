//! Large-world partitioning: grid cells around a focus cell and their
//! streaming states (load, keep, evict).
//!
//! The focus is given here as a grid cell; turning a world position into its
//! cell is floating-point work done by the caller.

use vstd::prelude::*;
use vstd::arithmetic::div_mod::lemma_fundamental_div_mod_converse;

verus! {

/// Stable id for a streamed world cell.
#[derive(Debug, Clone, Copy, PartialEq, Eq, Structural, Hash)]
pub struct ChunkId {
    pub x: i32,
    pub z: i32,
}

impl ChunkId {
    /// The eight cells around `self`, row by row (z - 1, z, z + 1), left to right.
    pub fn neighbors(self) -> (r: [ChunkId; 8])
        requires
            i32::MIN < self.x < i32::MAX,
            i32::MIN < self.z < i32::MAX,
        ensures
            r@ == seq![
                ChunkId { x: (self.x - 1) as i32, z: (self.z - 1) as i32 },
                ChunkId { x: self.x, z: (self.z - 1) as i32 },
                ChunkId { x: (self.x + 1) as i32, z: (self.z - 1) as i32 },
                ChunkId { x: (self.x - 1) as i32, z: self.z },
                ChunkId { x: (self.x + 1) as i32, z: self.z },
                ChunkId { x: (self.x - 1) as i32, z: (self.z + 1) as i32 },
                ChunkId { x: self.x, z: (self.z + 1) as i32 },
                ChunkId { x: (self.x + 1) as i32, z: (self.z + 1) as i32 },
            ],
    {
        [
            ChunkId { x: self.x - 1, z: self.z - 1 },
            ChunkId { x: self.x, z: self.z - 1 },
            ChunkId { x: self.x + 1, z: self.z - 1 },
            ChunkId { x: self.x - 1, z: self.z },
            ChunkId { x: self.x + 1, z: self.z },
            ChunkId { x: self.x - 1, z: self.z + 1 },
            ChunkId { x: self.x, z: self.z + 1 },
            ChunkId { x: self.x + 1, z: self.z + 1 },
        ]
    }
}

/// Streaming state of one cell.
#[derive(Debug, Clone, Copy, PartialEq, Eq, Structural)]
pub enum ChunkState {
    Unloaded,
    Loading,
    Resident,
    Evicting,
}

/// Streaming budget for a focus cell (camera / player): the cells that are
/// wanted, being loaded, resident or on their way out.
#[derive(Debug, Clone)]
pub struct WorldPartition {
    pub load_radius: i32,
    pub resident: Vec<(ChunkId, ChunkState)>,
}

/// Side length of the square of cells within `r` of the focus (none when `r < 0`).
pub open spec fn side(r: int) -> int {
    if r >= 0 { 2 * r + 1 } else { 0 }
}

/// The cells within Chebyshev distance `r` of `center`, row by row
/// (z ascending), each row left to right (x ascending).
pub open spec fn square_cells(center: ChunkId, r: int) -> Seq<ChunkId> {
    Seq::new(
        (side(r) * side(r)) as nat,
        |k: int|
            ChunkId {
                x: (center.x + k % side(r) - r) as i32,
                z: (center.z + k / side(r) - r) as i32,
            },
    )
}

/// Whether `id` lies in the square of cells within `r` of `center`.
pub open spec fn in_square(center: ChunkId, r: int, id: ChunkId) -> bool {
    &&& center.x - r <= id.x <= center.x + r
    &&& center.z - r <= id.z <= center.z + r
}

/// The square around `center` fits in `i32` coordinates.
pub open spec fn square_fits(center: ChunkId, r: int) -> bool {
    r >= 0 ==> {
        &&& i32::MIN <= center.x - r
        &&& center.x + r <= i32::MAX
        &&& i32::MIN <= center.z - r
        &&& center.z + r <= i32::MAX
    }
}

/// Index of the first entry of `s` for cell `id`, if any.
pub open spec fn first_index(s: Seq<(ChunkId, ChunkState)>, id: ChunkId) -> Option<int>
    decreases s.len(),
{
    if s.len() == 0 {
        None
    } else {
        match first_index(s.drop_last(), id) {
            Some(i) => Some(i),
            None => if s.last().0 == id { Some(s.len() - 1) } else { None },
        }
    }
}

/// State a wanted cell takes when the focus moves: a cell that was unloaded
/// or on its way out is loaded again, a loading or resident one keeps its state,
/// and an unknown one starts loading.
pub open spec fn carried_state(prev: Seq<(ChunkId, ChunkState)>, id: ChunkId) -> ChunkState {
    match first_index(prev, id) {
        Some(i) => match prev[i].1 {
            ChunkState::Unloaded | ChunkState::Evicting => ChunkState::Loading,
            other => other,
        },
        None => ChunkState::Loading,
    }
}

/// Entries outside the new square that were resident, loading or evicting,
/// in their former order, each now evicting.
pub open spec fn evicted_tail(prev: Seq<(ChunkId, ChunkState)>, center: ChunkId, r: int) -> Seq<
    (ChunkId, ChunkState),
>
    decreases prev.len(),
{
    if prev.len() == 0 {
        Seq::empty()
    } else {
        let rest = evicted_tail(prev.drop_last(), center, r);
        let e = prev.last();
        if !in_square(center, r, e.0) && e.1 != ChunkState::Unloaded {
            rest.push((e.0, ChunkState::Evicting))
        } else {
            rest
        }
    }
}

/// Resident list after focusing on `center`: every cell of the square with its
/// carried state, then the out-of-range entries marked as evicting.
pub open spec fn focused(prev: Seq<(ChunkId, ChunkState)>, center: ChunkId, r: int) -> Seq<
    (ChunkId, ChunkState),
> {
    square_cells(center, r).map_values(|id: ChunkId| (id, carried_state(prev, id)))
        + evicted_tail(prev, center, r)
}

/// Resident list after a streaming tick: loading and resident entries stay, as resident.
pub open spec fn ticked(s: Seq<(ChunkId, ChunkState)>) -> Seq<(ChunkId, ChunkState)>
    decreases s.len(),
{
    if s.len() == 0 {
        Seq::empty()
    } else {
        let rest = ticked(s.drop_last());
        let e = s.last();
        if e.1 == ChunkState::Loading || e.1 == ChunkState::Resident {
            rest.push((e.0, ChunkState::Resident))
        } else {
            rest
        }
    }
}

/// Cells whose entries in `s` have state `st`, in order.
pub open spec fn ids_in_state(s: Seq<(ChunkId, ChunkState)>, st: ChunkState) -> Seq<ChunkId>
    decreases s.len(),
{
    if s.len() == 0 {
        Seq::empty()
    } else {
        let rest = ids_in_state(s.drop_last(), st);
        if s.last().1 == st {
            rest.push(s.last().0)
        } else {
            rest
        }
    }
}

/// Cells a tick drops: those evicting or unloaded, in order.
pub open spec fn dropped_ids(s: Seq<(ChunkId, ChunkState)>) -> Seq<ChunkId>
    decreases s.len(),
{
    if s.len() == 0 {
        Seq::empty()
    } else {
        let rest = dropped_ids(s.drop_last());
        let e = s.last();
        if e.1 == ChunkState::Evicting || e.1 == ChunkState::Unloaded {
            rest.push(e.0)
        } else {
            rest
        }
    }
}

/// Resident list after marking `id` resident: its first entry becomes resident,
/// or a new resident entry is appended.
pub open spec fn marked_resident(s: Seq<(ChunkId, ChunkState)>, id: ChunkId) -> Seq<
    (ChunkId, ChunkState),
> {
    match first_index(s, id) {
        Some(i) => s.update(i, (id, ChunkState::Resident)),
        None => s.push((id, ChunkState::Resident)),
    }
}

proof fn lemma_first_index_bounds(s: Seq<(ChunkId, ChunkState)>, id: ChunkId)
    ensures
        first_index(s, id) matches Some(i) ==> 0 <= i < s.len() && s[i].0 == id,
    decreases s.len(),
{
    if s.len() > 0 {
        lemma_first_index_bounds(s.drop_last(), id);
    }
}

proof fn lemma_first_index_prefix(s: Seq<(ChunkId, ChunkState)>, j: int, id: ChunkId)
    requires
        0 <= j <= s.len(),
        first_index(s.take(j), id) is Some,
    ensures
        first_index(s, id) == first_index(s.take(j), id),
    decreases s.len(),
{
    if j == s.len() {
        assert(s.take(j) =~= s);
    } else {
        assert(s.drop_last().take(j) =~= s.take(j));
        lemma_first_index_prefix(s.drop_last(), j, id);
    }
}


proof fn lemma_ticked_concat(a: Seq<(ChunkId, ChunkState)>, b: Seq<(ChunkId, ChunkState)>)
    ensures
        ticked(a + b) == ticked(a) + ticked(b),
    decreases b.len(),
{
    if b.len() == 0 {
        assert(a + b =~= a);
        assert(ticked(a) + ticked(b) =~= ticked(a));
    } else {
        assert((a + b).drop_last() =~= a + b.drop_last());
        lemma_ticked_concat(a, b.drop_last());
        let e = b.last();
        if e.1 == ChunkState::Loading || e.1 == ChunkState::Resident {
            assert(ticked(a + b) =~= ticked(a) + ticked(b));
        } else {
            assert(ticked(a + b) =~= ticked(a) + ticked(b));
        }
    }
}

proof fn lemma_ticked_evicted_tail(prev: Seq<(ChunkId, ChunkState)>, center: ChunkId, r: int)
    ensures
        ticked(evicted_tail(prev, center, r)) == Seq::<(ChunkId, ChunkState)>::empty(),
    decreases prev.len(),
{
    if prev.len() > 0 {
        lemma_ticked_evicted_tail(prev.drop_last(), center, r);
        let rest = evicted_tail(prev.drop_last(), center, r);
        let e = prev.last();
        if !in_square(center, r, e.0) && e.1 != ChunkState::Unloaded {
            assert(rest.push((e.0, ChunkState::Evicting)).drop_last() =~= rest);
        }
    }
}

proof fn lemma_ticked_wanted(prev: Seq<(ChunkId, ChunkState)>, cells: Seq<ChunkId>)
    ensures
        ticked(cells.map_values(|id: ChunkId| (id, carried_state(prev, id))))
            == cells.map_values(|id: ChunkId| (id, ChunkState::Resident)),
    decreases cells.len(),
{
    let w = cells.map_values(|id: ChunkId| (id, carried_state(prev, id)));
    let t = cells.map_values(|id: ChunkId| (id, ChunkState::Resident));
    if cells.len() == 0 {
        assert(w =~= Seq::<(ChunkId, ChunkState)>::empty());
        assert(t =~= Seq::<(ChunkId, ChunkState)>::empty());
    } else {
        let c2 = cells.drop_last();
        lemma_ticked_wanted(prev, c2);
        assert(w.drop_last() =~= c2.map_values(|id: ChunkId| (id, carried_state(prev, id))));
        assert(t =~= c2.map_values(|id: ChunkId| (id, ChunkState::Resident)).push(
            (cells.last(), ChunkState::Resident),
        ));
        lemma_first_index_bounds(prev, cells.last());
        assert(ticked(w) =~= t);
    }
}

proof fn lemma_tick_settles(s: Seq<(ChunkId, ChunkState)>)
    ensures
        ticked(ticked(s)) == ticked(s),
        ids_in_state(ticked(s), ChunkState::Loading) == Seq::<ChunkId>::empty(),
        dropped_ids(ticked(s)) == Seq::<ChunkId>::empty(),
        forall|i: int| 0 <= i < ticked(s).len() ==> (#[trigger] ticked(s)[i]).1 == ChunkState::Resident,
    decreases s.len(),
{
    if s.len() > 0 {
        lemma_tick_settles(s.drop_last());
        let rest = ticked(s.drop_last());
        let e = s.last();
        if e.1 == ChunkState::Loading || e.1 == ChunkState::Resident {
            let t = rest.push((e.0, ChunkState::Resident));
            assert(t.drop_last() =~= rest);
        }
    }
}

/// Focusing on a cell and then running one streaming tick leaves exactly the
/// cells within the load radius of that cell, in row order, all resident: every
/// cell out of range has been evicted.
pub proof fn law_focus_then_tick_is_square(
    prev: Seq<(ChunkId, ChunkState)>,
    center: ChunkId,
    r: int,
)
    ensures
        ticked(focused(prev, center, r)) == square_cells(center, r).map_values(
            |id: ChunkId| (id, ChunkState::Resident),
        ),
        ids_in_state(ticked(focused(prev, center, r)), ChunkState::Resident) == square_cells(
            center,
            r,
        ),
{
    let cells = square_cells(center, r);
    let w = cells.map_values(|id: ChunkId| (id, carried_state(prev, id)));
    lemma_ticked_concat(w, evicted_tail(prev, center, r));
    lemma_ticked_evicted_tail(prev, center, r);
    lemma_ticked_wanted(prev, cells);
    assert(ticked(focused(prev, center, r)) =~= cells.map_values(
        |id: ChunkId| (id, ChunkState::Resident),
    ));
    lemma_ids_resident_of_all_resident(cells);
}

proof fn lemma_ids_resident_of_all_resident(cells: Seq<ChunkId>)
    ensures
        ids_in_state(cells.map_values(|id: ChunkId| (id, ChunkState::Resident)), ChunkState::Resident)
            == cells,
    decreases cells.len(),
{
    if cells.len() == 0 {
        assert(cells.map_values(|id: ChunkId| (id, ChunkState::Resident)) =~= Seq::<
            (ChunkId, ChunkState),
        >::empty());
        assert(Seq::<ChunkId>::empty() =~= cells);
    } else {
        lemma_ids_resident_of_all_resident(cells.drop_last());
        assert(cells.map_values(|id: ChunkId| (id, ChunkState::Resident)).drop_last()
            =~= cells.drop_last().map_values(|id: ChunkId| (id, ChunkState::Resident)));
        assert(cells.drop_last().push(cells.last()) =~= cells);
    }
}

/// After one streaming tick every entry is resident, and a second tick neither
/// loads nor evicts anything and leaves the list unchanged.
pub proof fn law_tick_settles(s: Seq<(ChunkId, ChunkState)>)
    ensures
        forall|i: int| 0 <= i < ticked(s).len() ==> (#[trigger] ticked(s)[i]).1 == ChunkState::Resident,
        ticked(ticked(s)) == ticked(s),
        ids_in_state(ticked(s), ChunkState::Loading) == Seq::<ChunkId>::empty(),
        dropped_ids(ticked(s)) == Seq::<ChunkId>::empty(),
{
    lemma_tick_settles(s);
}

/// Marking a cell resident makes it resident: its first entry now reads resident.
pub proof fn law_mark_resident(s: Seq<(ChunkId, ChunkState)>, id: ChunkId)
    ensures
        first_index(marked_resident(s, id), id) matches Some(i)
            && marked_resident(s, id)[i] == (id, ChunkState::Resident),
{
    lemma_first_index_bounds(s, id);
    let m = marked_resident(s, id);
    match first_index(s, id) {
        Some(i) => {
            lemma_first_index_update(s, id, i);
        },
        None => {
            assert(m.drop_last() =~= s);
        },
    }
}

proof fn lemma_first_index_update(s: Seq<(ChunkId, ChunkState)>, id: ChunkId, i: int)
    requires
        first_index(s, id) == Some(i),
    ensures
        first_index(s.update(i, (id, ChunkState::Resident)), id) == Some(i),
    decreases s.len(),
{
    lemma_first_index_bounds(s, id);
    let u = s.update(i, (id, ChunkState::Resident));
    if i == s.len() - 1 {
        assert(u.drop_last() =~= s.drop_last());
    } else {
        lemma_first_index_bounds(s.drop_last(), id);
        assert(u.drop_last() =~= s.drop_last().update(i, (id, ChunkState::Resident)));
        lemma_first_index_update(s.drop_last(), id, i);
    }
}

/// Finds the first entry of `s` for `id`.
fn find_entry(s: &Vec<(ChunkId, ChunkState)>, id: ChunkId) -> (r: Option<usize>)
    ensures
        match first_index(s@, id) {
            Some(i) => r == Some(i as usize),
            None => r is None,
        },
{
    let mut i: usize = 0;
    while i < s.len()
        invariant
            i <= s.len(),
            first_index(s@.take(i as int), id) is None,
        decreases s.len() - i,
    {
        assert(s@.take(i + 1).drop_last() =~= s@.take(i as int));
        if s[i].0 == id {
            proof {
                lemma_first_index_prefix(s@, i + 1, id);
            }
            return Some(i);
        }
        i += 1;
    }
    assert(s@.take(s@.len() as int) =~= s@);
    None
}

impl Default for WorldPartition {
    fn default() -> (r: Self)
        ensures
            r.load_radius == 2,
            r.resident@ == Seq::<(ChunkId, ChunkState)>::empty(),
    {
        WorldPartition { load_radius: 2, resident: Vec::new() }
    }
}

impl WorldPartition {
    /// Re-focus streaming on `center`: every cell within `load_radius` is wanted
    /// (keeping a resident or loading state, loading otherwise), and entries that
    /// fall out of range stay as evicting until the next tick drops them.
    pub fn set_focus_chunk(&mut self, center: ChunkId)
        requires
            square_fits(center, old(self).load_radius as int),
        ensures
            final(self).load_radius == old(self).load_radius,
            final(self).resident@ == focused(old(self).resident@, center, old(self).load_radius as int),
    {
        let r = self.load_radius;
        let ghost rr = r as int;
        let mut prev: Vec<(ChunkId, ChunkState)> = Vec::new();
        std::mem::swap(&mut prev, &mut self.resident);
        let ghost cells = square_cells(center, rr);
        let ghost wanted = cells.map_values(|id: ChunkId| (id, carried_state(prev@, id)));
        let mut next: Vec<(ChunkId, ChunkState)> = Vec::new();
        if r >= 0 {
            let s: i64 = 2 * (r as i64) + 1;
            let mut zi: i64 = 0;
            while zi < s
                invariant
                    rr == r as int,
                    r >= 0,
                    s == side(rr),
                    0 <= zi <= s,
                    square_fits(center, rr),
                    cells == square_cells(center, rr),
                    wanted == cells.map_values(|id: ChunkId| (id, carried_state(prev@, id))),
                    next@.len() == zi * s,
                    next@ =~= wanted.take(zi * s),
                decreases s - zi,
            {
                let mut xi: i64 = 0;
                while xi < s
                    invariant
                        rr == r as int,
                        r >= 0,
                        s == side(rr),
                        0 <= zi < s,
                        0 <= xi <= s,
                        square_fits(center, rr),
                        cells == square_cells(center, rr),
                        wanted == cells.map_values(|id: ChunkId| (id, carried_state(prev@, id))),
                        next@.len() == zi * s + xi,
                        next@ =~= wanted.take(zi * s + xi),
                    decreases s - xi,
                {
                    let ghost k: int = zi * s + xi;
                    assert(0 <= k < s * s) by (nonlinear_arith)
                        requires
                            0 <= zi < s,
                            0 <= xi < s,
                            k == zi * s + xi,
                    ;
                    proof {
                        lemma_fundamental_div_mod_converse(k, s as int, zi as int, xi as int);
                    }
                    let id = ChunkId {
                        x: (center.x as i64 + xi - r as i64) as i32,
                        z: (center.z as i64 + zi - r as i64) as i32,
                    };
                    assert(cells[k] == id);
                    let found = find_entry(&prev, id);
                    let state = match found {
                        Some(i) => {
                            proof {
                                lemma_first_index_bounds(prev@, id);
                            }
                            match prev[i].1 {
                                ChunkState::Unloaded | ChunkState::Evicting => ChunkState::Loading,
                                other => other,
                            }
                        },
                        None => ChunkState::Loading,
                    };
                    assert(state == carried_state(prev@, id));
                    next.push((id, state));
                    assert(wanted.take(k + 1) =~= wanted.take(k).push(wanted[k]));
                    xi += 1;
                }
                assert((zi + 1) * s == zi * s + s) by (nonlinear_arith);
                zi += 1;
            }
            assert(s * s == side(rr) * side(rr));
        }
        assert(next@ =~= wanted);
        let mut i: usize = 0;
        while i < prev.len()
            invariant
                rr == r as int,
                i <= prev@.len(),
                next@ =~= wanted + evicted_tail(prev@.take(i as int), center, rr),
            decreases prev.len() - i,
        {
            let e = prev[i];
            assert(prev@.take(i + 1).drop_last() =~= prev@.take(i as int));
            let inside = center.x as i64 - r as i64 <= e.0.x as i64 && e.0.x as i64 <= center.x as i64
                + r as i64 && center.z as i64 - r as i64 <= e.0.z as i64 && e.0.z as i64
                <= center.z as i64 + r as i64;
            let keep = match e.1 {
                ChunkState::Unloaded => false,
                _ => true,
            };
            if !inside && keep {
                next.push((e.0, ChunkState::Evicting));
            }
            i += 1;
        }
        assert(prev@.take(prev@.len() as int) =~= prev@);
        self.resident = next;
    }

    /// Promote loading cells to resident and drop evicting (or unloaded) ones.
    /// Returns `(newly_resident, evicted)`.
    pub fn tick_streaming(&mut self) -> (res: (Vec<ChunkId>, Vec<ChunkId>))
        ensures
            final(self).load_radius == old(self).load_radius,
            final(self).resident@ == ticked(old(self).resident@),
            res.0@ == ids_in_state(old(self).resident@, ChunkState::Loading),
            res.1@ == dropped_ids(old(self).resident@),
    {
        let mut prev: Vec<(ChunkId, ChunkState)> = Vec::new();
        std::mem::swap(&mut prev, &mut self.resident);
        let mut newly: Vec<ChunkId> = Vec::new();
        let mut evicted: Vec<ChunkId> = Vec::new();
        let mut next: Vec<(ChunkId, ChunkState)> = Vec::new();
        let mut i: usize = 0;
        while i < prev.len()
            invariant
                i <= prev@.len(),
                next@ == ticked(prev@.take(i as int)),
                newly@ == ids_in_state(prev@.take(i as int), ChunkState::Loading),
                evicted@ == dropped_ids(prev@.take(i as int)),
            decreases prev.len() - i,
        {
            let (id, state) = prev[i];
            assert(prev@.take(i + 1).drop_last() =~= prev@.take(i as int));
            match state {
                ChunkState::Loading => {
                    newly.push(id);
                    next.push((id, ChunkState::Resident));
                },
                ChunkState::Evicting | ChunkState::Unloaded => {
                    evicted.push(id);
                },
                ChunkState::Resident => {
                    next.push((id, ChunkState::Resident));
                },
            }
            i += 1;
        }
        assert(prev@.take(prev@.len() as int) =~= prev@);
        self.resident = next;
        (newly, evicted)
    }

    /// Mark `id` resident (its first entry, or a new one at the end).
    pub fn mark_resident(&mut self, id: ChunkId)
        ensures
            final(self).load_radius == old(self).load_radius,
            final(self).resident@ == marked_resident(old(self).resident@, id),
    {
        proof {
            lemma_first_index_bounds(self.resident@, id);
        }
        match find_entry(&self.resident, id) {
            Some(i) => {
                self.resident.set(i, (id, ChunkState::Resident));
            },
            None => {
                self.resident.push((id, ChunkState::Resident));
            },
        }
    }

    /// Cells currently resident, in list order.
    pub fn resident_ids(&self) -> (r: Vec<ChunkId>)
        ensures
            r@ == ids_in_state(self.resident@, ChunkState::Resident),
    {
        let mut out: Vec<ChunkId> = Vec::new();
        let mut i: usize = 0;
        while i < self.resident.len()
            invariant
                i <= self.resident@.len(),
                out@ == ids_in_state(self.resident@.take(i as int), ChunkState::Resident),
            decreases self.resident.len() - i,
        {
            assert(self.resident@.take(i + 1).drop_last() =~= self.resident@.take(i as int));
            if self.resident[i].1 == ChunkState::Resident {
                out.push(self.resident[i].0);
            }
            i += 1;
        }
        assert(self.resident@.take(self.resident@.len() as int) =~= self.resident@);
        out
    }
}

} // verus!
