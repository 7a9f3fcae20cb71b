//! Triangle topology of the generated meshes: the icosahedron's faces, the
//! subdivision that splits each triangle in four, sharing one new vertex per
//! edge, and the two triangles of each four-corner face of a box. Vertex
//! positions are computed by the caller.

use vstd::prelude::*;

use ahash::AHashMap;

use crate::collections::{midpoint_table, midpoint_table_get, midpoint_table_insert, midpoint_table_new};

verus! {

/// The twenty faces of the unit icosahedron over its twelve vertices.
pub open spec fn icosahedron() -> Seq<[u32; 3]> {
    seq![
        [0, 11, 5], [0, 5, 1], [0, 1, 7], [0, 7, 10], [0, 10, 11],
        [1, 5, 9], [5, 11, 4], [11, 10, 2], [10, 7, 6], [7, 1, 8],
        [3, 9, 4], [3, 4, 2], [3, 2, 6], [3, 6, 8], [3, 8, 9],
        [4, 9, 5], [2, 4, 11], [6, 2, 10], [8, 6, 7], [9, 8, 1],
    ]
}

/// The icosahedron's faces (see [`icosahedron`]).
pub fn icosahedron_faces() -> (r: Vec<[u32; 3]>)
    ensures
        r@ == icosahedron(),
{
    let r = vec![
        [0, 11, 5], [0, 5, 1], [0, 1, 7], [0, 7, 10], [0, 10, 11],
        [1, 5, 9], [5, 11, 4], [11, 10, 2], [10, 7, 6], [7, 1, 8],
        [3, 9, 4], [3, 4, 2], [3, 2, 6], [3, 6, 8], [3, 8, 9],
        [4, 9, 5], [2, 4, 11], [6, 2, 10], [8, 6, 7], [9, 8, 1],
    ];
    assert(r@ =~= icosahedron());
    r
}

/// An edge as its two vertex indices, smaller first.
pub open spec fn edge_key(i: u32, j: u32) -> (u32, u32) {
    if i < j { (i, j) } else { (j, i) }
}

/// The midpoint vertex of edge `(i, j)` when the new vertices so far are
/// the midpoints of `mids`, numbered from `base`: the existing one, or a new
/// one at the end. Returns its index and the new list.
pub open spec fn midpoint(mids: Seq<(u32, u32)>, base: nat, i: u32, j: u32) -> (u32, Seq<(u32, u32)>) {
    let key = edge_key(i, j);
    if mids.contains(key) {
        ((base + mids.index_of(key)) as u32, mids)
    } else {
        ((base + mids.len()) as u32, mids.push(key))
    }
}

/// Split each of `faces` in four, in order: `[a, ab, ca]`, `[b, bc, ab]`,
/// `[c, ca, bc]`, `[ab, bc, ca]`, where `ab` is the midpoint of edge
/// `(a, b)`, and so on. Returns the new faces and the edges whose midpoints
/// became the new vertices `base`, `base + 1`, ... in order.
pub open spec fn subdivision(faces: Seq<[u32; 3]>, base: nat) -> (Seq<[u32; 3]>, Seq<(u32, u32)>)
    decreases faces.len(),
{
    if faces.len() == 0 {
        (Seq::empty(), Seq::empty())
    } else {
        let (prev_faces, mids0) = subdivision(faces.drop_last(), base);
        let f = faces.last();
        let (a, b, c) = (f[0], f[1], f[2]);
        let (ab, mids1) = midpoint(mids0, base, a, b);
        let (bc, mids2) = midpoint(mids1, base, b, c);
        let (ca, mids3) = midpoint(mids2, base, c, a);
        (prev_faces + seq![[a, ab, ca], [b, bc, ab], [c, ca, bc], [ab, bc, ca]], mids3)
    }
}

/// `table` maps the `k`-th edge of `mids` to vertex `base + k`, and nothing
/// else.
spec fn table_matches(table: Map<(u32, u32), u32>, mids: Seq<(u32, u32)>, base: nat) -> bool {
    &&& forall|key: (u32, u32)| #[trigger] table.dom().contains(key) <==> mids.contains(key)
    &&& forall|key: (u32, u32)| mids.contains(key) ==> #[trigger] table[key] == base + mids.index_of(key)
}

proof fn lemma_subdivision_len(faces: Seq<[u32; 3]>, base: nat)
    ensures
        subdivision(faces, base).0.len() == 4 * faces.len(),
        subdivision(faces, base).1.len() <= 3 * faces.len(),
        subdivision(faces, base).1.no_duplicates(),
    decreases faces.len(),
{
    if faces.len() > 0 {
        lemma_subdivision_len(faces.drop_last(), base);
        let (pf, m0) = subdivision(faces.drop_last(), base);
        let f = faces.last();
        lemma_midpoint(m0, base, f[0], f[1]);
        let m1 = midpoint(m0, base, f[0], f[1]).1;
        lemma_midpoint(m1, base, f[1], f[2]);
        let m2 = midpoint(m1, base, f[1], f[2]).1;
        lemma_midpoint(m2, base, f[2], f[0]);
    }
}

proof fn lemma_index_of_unique(s: Seq<(u32, u32)>, x: (u32, u32), p: int)
    requires
        s.no_duplicates(),
        0 <= p < s.len(),
        s[p] == x,
    ensures
        s.index_of(x) == p,
{
    let q = s.index_of(x);
    assert(0 <= q < s.len() && s[q] == x);
}

proof fn lemma_midpoint(mids: Seq<(u32, u32)>, base: nat, i: u32, j: u32)
    requires
        mids.no_duplicates(),
    ensures
        midpoint(mids, base, i, j).1.no_duplicates(),
        midpoint(mids, base, i, j).1.len() <= mids.len() + 1,
        midpoint(mids, base, i, j).1.len() >= mids.len(),
        midpoint(mids, base, i, j).1.take(mids.len() as int) == mids,
        midpoint(mids, base, i, j).1.contains(edge_key(i, j)),
{
    let key = edge_key(i, j);
    if !mids.contains(key) {
        let m = mids.push(key);
        assert(m.take(mids.len() as int) =~= mids);
        assert(m[mids.len() as int] == key);
        assert forall|a: int, b: int| 0 <= a < b < m.len() implies m[a] != m[b] by {
            if b == mids.len() {
                assert(mids[a] == m[a]);
            }
        }
    } else {
        assert(mids.take(mids.len() as int) =~= mids);
    }
}

/// Split every face of `faces` in four (see [`subdivision`]); the new
/// vertices are numbered from `vertex_count`. Returns the new faces and the
/// edge each new vertex is the midpoint of.
pub fn subdivide_faces(faces: &Vec<[u32; 3]>, vertex_count: u32) -> (r: (Vec<[u32; 3]>, Vec<(u32, u32)>))
    requires
        vertex_count + 3 * faces@.len() <= u32::MAX,
    ensures
        (r.0@, r.1@) == subdivision(faces@, vertex_count as nat),
{
    let ghost base = vertex_count as nat;
    let mut table: AHashMap<(u32, u32), u32> = midpoint_table_new();
    let mut out: Vec<[u32; 3]> = Vec::new();
    let mut mids: Vec<(u32, u32)> = Vec::new();
    let mut k: usize = 0;
    proof {
        assert(table_matches(midpoint_table(table), mids@, base));
        assert(faces@.take(0) =~= Seq::<[u32; 3]>::empty());
    }
    while k < faces.len()
        invariant
            base == vertex_count as nat,
            vertex_count + 3 * faces@.len() <= u32::MAX,
            k <= faces@.len(),
            (out@, mids@) == subdivision(faces@.take(k as int), base),
            mids@.len() <= 3 * k,
            mids@.no_duplicates(),
            table_matches(midpoint_table(table), mids@, base),
        decreases faces.len() - k,
    {
        proof {
            assert(faces@.take(k + 1).drop_last() =~= faces@.take(k as int));
            lemma_subdivision_len(faces@.take(k as int), base);
        }
        let f = faces[k];
        let ghost m0 = mids@;
        let ab = mid_vertex(&mut table, &mut mids, vertex_count, f[0], f[1]);
        let ghost m1 = mids@;
        let bc = mid_vertex(&mut table, &mut mids, vertex_count, f[1], f[2]);
        let ghost m2 = mids@;
        let ca = mid_vertex(&mut table, &mut mids, vertex_count, f[2], f[0]);
        let ghost before = out@;
        out.push([f[0], ab, ca]);
        out.push([f[1], bc, ab]);
        out.push([f[2], ca, bc]);
        out.push([ab, bc, ca]);
        proof {
            assert(faces@.take(k + 1).last() == f);
            assert(out@ =~= before + seq![[f[0], ab, ca], [f[1], bc, ab], [f[2], ca, bc], [ab, bc, ca]]);
        }
        k += 1;
    }
    proof {
        assert(faces@.take(faces@.len() as int) =~= faces@);
    }
    (out, mids)
}

/// The midpoint vertex of edge `(i, j)`, made when new (see [`midpoint`]).
fn mid_vertex(
    table: &mut AHashMap<(u32, u32), u32>,
    mids: &mut Vec<(u32, u32)>,
    vertex_count: u32,
    i: u32,
    j: u32,
) -> (v: u32)
    requires
        vertex_count + old(mids)@.len() < u32::MAX,
        old(mids)@.no_duplicates(),
        table_matches(midpoint_table(*old(table)), old(mids)@, vertex_count as nat),
    ensures
        (v, final(mids)@) == midpoint(old(mids)@, vertex_count as nat, i, j),
        final(mids)@.no_duplicates(),
        table_matches(midpoint_table(*final(table)), final(mids)@, vertex_count as nat),
{
    let ghost base = vertex_count as nat;
    let key = if i < j { (i, j) } else { (j, i) };
    match midpoint_table_get(table, key) {
        Some(m) => {
            m
        },
        None => {
            let ghost old_mids = mids@;
            let idx = vertex_count + mids.len() as u32;
            mids.push(key);
            midpoint_table_insert(table, key, idx);
            proof {
                lemma_midpoint(old_mids, base, i, j);
                assert(mids@ == old_mids.push(key));
                assert forall|k2: (u32, u32)| mids@.contains(k2) implies #[trigger] midpoint_table(*table)[k2]
                    == base + mids@.index_of(k2) by {
                    if k2 == key {
                        assert(mids@[old_mids.len() as int] == key);
                        lemma_index_of_unique(mids@, key, old_mids.len() as int);
                    } else {
                        let p = choose|p: int| 0 <= p < mids@.len() && mids@[p] == k2;
                        assert(old_mids.contains(k2)) by {
                            assert(old_mids[p] == k2);
                        }
                        lemma_index_of_unique(mids@, k2, p);
                        lemma_index_of_unique(old_mids, k2, p);
                    }
                }
            }
            idx
        },
    }
}

/// Subdivision splits each face in four and makes one new vertex per
/// distinct edge: no edge gets two midpoints.
pub proof fn law_subdivision_shares_edges(faces: Seq<[u32; 3]>, base: nat)
    ensures
        subdivision(faces, base).0.len() == 4 * faces.len(),
        subdivision(faces, base).1.no_duplicates(),
        subdivision(faces, base).1.len() <= 3 * faces.len(),
{
    lemma_subdivision_len(faces, base);
}

/// Corner of a quad (0 to 3, counter-clockwise) used at position `k` of its
/// six indices: triangles `0 1 2` and `0 2 3`, which share the diagonal `0 2`.
pub open spec fn quad_corner(k: int) -> int {
    if k == 0 || k == 3 {
        0
    } else if k == 1 {
        1
    } else if k == 2 || k == 4 {
        2
    } else {
        3
    }
}

/// Index list of `quads` four-vertex faces stored one after another (face
/// `q` uses vertices `4q .. 4q + 4`), each split into two triangles.
pub fn quad_face_indices(quads: u32) -> (r: Vec<u32>)
    requires
        4 * quads <= u32::MAX,
    ensures
        r@.len() == 6 * quads,
        forall|q: int, k: int|
            0 <= q < quads && 0 <= k < 6 ==> #[trigger] r@[6 * q + k] == 4 * q + quad_corner(k),
{
    let mut out: Vec<u32> = Vec::new();
    let mut q: u32 = 0;
    while q < quads
        invariant
            q <= quads,
            4 * quads <= u32::MAX,
            out@.len() == 6 * q,
            forall|p: int, k: int|
                0 <= p < q && 0 <= k < 6 ==> #[trigger] out@[6 * p + k] == 4 * p + quad_corner(k),
        decreases quads - q,
    {
        let base: u32 = q * 4;
        let ghost before = out@;
        out.push(base);
        out.push(base + 1);
        out.push(base + 2);
        out.push(base);
        out.push(base + 2);
        out.push(base + 3);
        proof {
            assert forall|p: int, k: int|
                0 <= p < q + 1 && 0 <= k < 6 implies #[trigger] out@[6 * p + k] == 4 * p + quad_corner(k) by {
                if p < q {
                    assert(out@[6 * p + k] == before[6 * p + k]);
                }
            }
        }
        q += 1;
    }
    out
}

} // verus!
