//! Mesh storage and construction.
//!
//! A [`Mesh`] holds parallel `positions` and `uvs` arrays, deduplicated
//! by (position index, texture-coordinate index) pair, and a flat
//! `indices` list in which every three entries form one triangle.
//! [`Mesh::new`] builds a mesh from polygon data (as produced by a
//! wavefront loader): each polygon's vertex pairs are interned in an
//! insertion-ordered set, and the polygon is fanned into triangles.

use vstd::prelude::*;
use crate::interpolant::{UV, uv_ok, ASCALE};
use crate::scanline::Vec3x;

verus! {

/// Bound on model-space coordinate numerators (at scale `SCALE`).
pub const MPOS: i128 = 0x10_0000;

/// The model-space point is inside the coordinate range the transform
/// stage supports.
pub open spec fn pos_ok(p: Vec3x) -> bool {
    &&& -MPOS <= p.xn <= MPOS
    &&& -MPOS <= p.yn <= MPOS
    &&& -MPOS <= p.zn <= MPOS
}

/// A triangle mesh: parallel vertex arrays and a flat triangle list.
pub struct Mesh {
    pub positions: Vec<Vec3x>,
    pub indices: Vec<usize>,
    pub uvs: Vec<UV>,
}

/// Well-formed mesh: the vertex arrays run in parallel, every index
/// points into them, and every vertex is in range.
pub open spec fn mesh_ok(m: Mesh) -> bool {
    &&& m.positions@.len() == m.uvs@.len()
    &&& forall|i: int|
        0 <= i < m.indices@.len() ==> (#[trigger] m.indices@[i]) < m.positions@.len()
    &&& forall|i: int| 0 <= i < m.uvs@.len() ==> uv_ok((#[trigger] m.uvs@[i])@)
    &&& forall|i: int| 0 <= i < m.positions@.len() ==> pos_ok(#[trigger] m.positions@[i])
}

/// One polygon's vertex list is usable: at least a triangle, and every
/// (position, texture-coordinate) index pair is inside the raw tables.
pub open spec fn poly_ok(p: Seq<(usize, usize)>, np: int, nu: int) -> bool {
    &&& p.len() >= 3
    &&& forall|k: int| 0 <= k < p.len() ==> (#[trigger] p[k]).0 < np && p[k].1 < nu
}

/// Triangle count of fanning the first `n` polygons.
pub open spec fn total_fan(polys: Seq<Vec<(usize, usize)>>, n: int) -> int
    decreases n,
{
    if n <= 0 {
        0
    } else {
        total_fan(polys, n - 1) + (polys[n - 1]@.len() - 2)
    }
}

/// The mesh's vertex arrays are a gather of the raw tables through a
/// list of distinct index pairs.
pub open spec fn gathered(
    m: Mesh,
    pairs: Seq<(usize, usize)>,
    raw_positions: Seq<Vec3x>,
    raw_uvs: Seq<UV>,
) -> bool {
    &&& m.positions@.len() == pairs.len()
    &&& m.uvs@.len() == pairs.len()
    &&& forall|k: int|
        0 <= k < pairs.len() ==> (#[trigger] pairs[k]).0 < raw_positions.len() && pairs[k].1
            < raw_uvs.len()
    &&& forall|k: int|
        0 <= k < pairs.len() ==> #[trigger] m.positions@[k] == raw_positions[pairs[k].0 as int]
    &&& forall|k: int| 0 <= k < pairs.len() ==> #[trigger] m.uvs@[k] == raw_uvs[pairs[k].1 as int]
    &&& forall|k1: int, k2: int|
        0 <= k1 < k2 < pairs.len() ==> #[trigger] pairs[k1] != #[trigger] pairs[k2]
}

/// All corners of the first `n` polygons, flattened in document order.
pub open spec fn flat_pairs(polys: Seq<Vec<(usize, usize)>>, n: int) -> Seq<(usize, usize)>
    decreases n,
{
    if n <= 0 {
        Seq::empty()
    } else {
        flat_pairs(polys, n - 1) + polys[n - 1]@
    }
}

/// First-occurrence interning of a sequence of pairs: the distinct
/// pairs, each at the position of its first appearance.
pub open spec fn interned(s: Seq<(usize, usize)>) -> Seq<(usize, usize)>
    decreases s.len(),
{
    if s.len() == 0 {
        Seq::empty()
    } else {
        let prev = interned(s.drop_last());
        if prev.contains(s.last()) {
            prev
        } else {
            prev.push(s.last())
        }
    }
}

/// Triangle `j` of polygon `pi` occupies the index slots starting at
/// `3 * total_fan(polys, pi) + 3 * j` and references the pairs of the
/// polygon's corners `0`, `j + 1`, `j + 2`.
pub open spec fn fan_triple_ok(
    polys: Seq<Vec<(usize, usize)>>,
    pairs: Seq<(usize, usize)>,
    indices: Seq<usize>,
    pi: int,
    j: int,
) -> bool {
    let b = 3 * total_fan(polys, pi) + 3 * j;
    &&& 0 <= b
    &&& b + 2 < indices.len()
    &&& pairs[indices[b] as int] == polys[pi]@[0]
    &&& pairs[indices[b + 1] as int] == polys[pi]@[j + 1]
    &&& pairs[indices[b + 2] as int] == polys[pi]@[j + 2]
}

/// The whole index list is the triangle-fan expansion of the polygons
/// over the pair list: every fan triangle's three slots reference its
/// corners' pairs. With the pairs distinct this pins each index to the
/// unique slot of its corner's pair.
pub open spec fn fan_indices_ok(
    polys: Seq<Vec<(usize, usize)>>,
    pairs: Seq<(usize, usize)>,
    indices: Seq<usize>,
) -> bool {
    forall|pi: int, j: int|
        0 <= pi < polys.len() && 0 <= j < polys[pi]@.len() - 2 ==> #[trigger] fan_triple_ok(
            polys,
            pairs,
            indices,
            pi,
            j,
        )
}

/// Deduplication is observable sharing: over a distinct pair list (as
/// [`gathered`] guarantees), two index slots hold the same pair exactly
/// when they are the same slot — so two fan corners (pinned to their
/// pairs by [`fan_indices_ok`]) share a mesh index iff they carry the
/// same (position, texture-coordinate) index pair.
pub proof fn lemma_shared_slot_iff_same_pair(pairs: Seq<(usize, usize)>, i1: int, i2: int)
    requires
        forall|k1: int, k2: int|
            0 <= k1 < k2 < pairs.len() ==> #[trigger] pairs[k1] != #[trigger] pairs[k2],
        0 <= i1 < pairs.len(),
        0 <= i2 < pairs.len(),
    ensures
        i1 == i2 <==> pairs[i1] == pairs[i2],
{
    if i1 < i2 {
        assert(pairs[i1] != pairs[i2]);
    } else if i2 < i1 {
        assert(pairs[i2] != pairs[i1]);
    }
}

/// Relies on `indexmap::IndexSet`: an insertion-ordered set.
#[verifier::external_type_specification]
#[verifier::external_body]
#[verifier::reject_recursive_types(T)]
#[verifier::reject_recursive_types(S)]
pub struct ExIndexSet<T, S>(indexmap::IndexSet<T, S>);

/// The elements of an insertion-ordered set of index pairs, in order.
pub uninterp spec fn iset_entries(
    s: indexmap::IndexSet<(usize, usize), std::collections::hash_map::RandomState>,
) -> Seq<(usize, usize)>;

/// Relies on `indexmap::IndexSet::new`: the new set is empty.
#[verifier::external_body]
fn new_pair_set() -> (r: indexmap::IndexSet<(usize, usize), std::collections::hash_map::RandomState>)
    ensures
        iset_entries(r) == Seq::<(usize, usize)>::empty(),
{
    indexmap::IndexSet::new()
}

/// Relies on `indexmap::IndexSet::insert_full`: a present value leaves
/// the set unchanged and yields its index and `false`; an absent value
/// is appended at the end and yields its new index and `true`.
#[verifier::external_body]
fn iset_insert_full(
    s: &mut indexmap::IndexSet<(usize, usize), std::collections::hash_map::RandomState>,
    value: (usize, usize),
) -> (r: (usize, bool))
    ensures
        iset_entries(*old(s)).contains(value) ==> iset_entries(*final(s)) == iset_entries(*old(s))
            && r.1 == false && 0 <= r.0 < iset_entries(*old(s)).len() && iset_entries(*old(s))[r.0
            as int] == value,
        !iset_entries(*old(s)).contains(value) ==> iset_entries(*final(s)) == iset_entries(
            *old(s),
        ).push(value) && r.1 == true && r.0 == iset_entries(*old(s)).len(),
{
    s.insert_full(value)
}

/// Relies on `indexmap::IndexSet::into_iter`: iteration yields the
/// elements in insertion order.
#[verifier::external_body]
fn iset_into_vec(
    s: indexmap::IndexSet<(usize, usize), std::collections::hash_map::RandomState>,
) -> (r: Vec<(usize, usize)>)
    ensures
        r@ == iset_entries(s),
{
    s.into_iter().collect()
}

impl Mesh {
    /// Build a mesh from polygon data: every polygon vertex is a
    /// (position index, texture-coordinate index) pair into the raw
    /// tables; equal pairs are shared, and each polygon is fanned into
    /// triangles. `None` when a polygon has fewer than three vertices
    /// or points outside the tables.
    #[verifier::loop_isolation(false)]
    pub fn new(
        polys: &Vec<Vec<(usize, usize)>>,
        raw_positions: &Vec<Vec3x>,
        raw_uvs: &Vec<UV>,
    ) -> (r: (Option<Mesh>, Ghost<Seq<(usize, usize)>>))
        requires
            forall|i: int|
                0 <= i < raw_positions@.len() ==> pos_ok(#[trigger] raw_positions@[i]),
            forall|i: int| 0 <= i < raw_uvs@.len() ==> uv_ok((#[trigger] raw_uvs@[i])@),
        ensures
            r.0 is Some <==> (forall|i: int|
                0 <= i < polys@.len() ==> poly_ok(
                    (#[trigger] polys@[i])@,
                    raw_positions@.len() as int,
                    raw_uvs@.len() as int,
                )),
            r.0 matches Some(m) ==> mesh_ok(m) && gathered(m, r.1@, raw_positions@, raw_uvs@)
                && m.indices@.len() == 3 * total_fan(polys@, polys@.len() as int),
            r.0 matches Some(m) ==> r.1@ == interned(flat_pairs(polys@, polys@.len() as int))
                && fan_indices_ok(polys@, r.1@, m.indices@),
    {
        let np = raw_positions.len();
        let nu = raw_uvs.len();
        let mut unique_obj_indices = new_pair_set();
        let mut indices: Vec<usize> = Vec::new();
        let mut p: usize = 0;
        while p < polys.len()
            invariant
                p <= polys@.len(),
                forall|i: int|
                    0 <= i < p ==> poly_ok(
                        (#[trigger] polys@[i])@,
                        raw_positions@.len() as int,
                        raw_uvs@.len() as int,
                    ),
                forall|k: int|
                    0 <= k < iset_entries(unique_obj_indices).len() ==> (#[trigger] iset_entries(
                        unique_obj_indices,
                    )[k]).0 < raw_positions@.len() && iset_entries(unique_obj_indices)[k].1
                        < raw_uvs@.len(),
                forall|k1: int, k2: int|
                    0 <= k1 < k2 < iset_entries(unique_obj_indices).len()
                        ==> #[trigger] iset_entries(unique_obj_indices)[k1]
                        != #[trigger] iset_entries(unique_obj_indices)[k2],
                forall|k: int|
                    0 <= k < indices@.len() ==> (#[trigger] indices@[k]) < iset_entries(
                        unique_obj_indices,
                    ).len(),
                indices@.len() == 3 * total_fan(polys@, p as int),
                iset_entries(unique_obj_indices) == interned(flat_pairs(polys@, p as int)),
                forall|pi: int, j: int|
                    0 <= pi < p && 0 <= j < polys@[pi]@.len() - 2 ==> #[trigger] fan_triple_ok(
                        polys@,
                        iset_entries(unique_obj_indices),
                        indices@,
                        pi,
                        j,
                    ),
            decreases polys@.len() - p,
        {
            let poly = &polys[p];
            if poly.len() < 3 {
                proof {
                    assert(!poly_ok(polys@[p as int]@, raw_positions@.len() as int, raw_uvs@.len() as int));
                }
                return (None, Ghost(Seq::empty()));
            }
            let mut set_indices: Vec<usize> = Vec::new();
            let mut v: usize = 0;
            proof {
                assert(polys@[p as int]@.subrange(0, 0) =~= Seq::<(usize, usize)>::empty());
                assert(flat_pairs(polys@, p as int) + polys@[p as int]@.subrange(0, 0)
                    =~= flat_pairs(polys@, p as int));
            }
            while v < poly.len()
                invariant
                    v <= poly@.len(),
                    poly == &polys@[p as int],
                    p < polys@.len(),
                    forall|k: int|
                        0 <= k < v ==> (#[trigger] poly@[k]).0 < raw_positions@.len()
                            && poly@[k].1 < raw_uvs@.len(),
                    forall|k: int|
                        0 <= k < iset_entries(unique_obj_indices).len() ==> (
                        #[trigger] iset_entries(unique_obj_indices)[k]).0 < raw_positions@.len()
                            && iset_entries(unique_obj_indices)[k].1 < raw_uvs@.len(),
                    forall|k1: int, k2: int|
                        0 <= k1 < k2 < iset_entries(unique_obj_indices).len()
                            ==> #[trigger] iset_entries(unique_obj_indices)[k1]
                            != #[trigger] iset_entries(unique_obj_indices)[k2],
                    set_indices@.len() == v,
                    forall|k: int|
                        0 <= k < v ==> (#[trigger] set_indices@[k]) < iset_entries(
                            unique_obj_indices,
                        ).len(),
                    forall|k: int|
                        0 <= k < indices@.len() ==> (#[trigger] indices@[k]) < iset_entries(
                            unique_obj_indices,
                        ).len(),
                    iset_entries(unique_obj_indices) == interned(
                        flat_pairs(polys@, p as int) + polys@[p as int]@.subrange(0, v as int),
                    ),
                    forall|k: int|
                        0 <= k < v ==> iset_entries(unique_obj_indices)[(
                        #[trigger] set_indices@[k]) as int] == poly@[k],
                    forall|pi: int, j: int|
                        0 <= pi < p && 0 <= j < polys@[pi]@.len() - 2 ==> #[trigger] fan_triple_ok(
                            polys@,
                            iset_entries(unique_obj_indices),
                            indices@,
                            pi,
                            j,
                        ),
                decreases poly@.len() - v,
            {
                let pair = poly[v];
                if pair.0 >= np || pair.1 >= nu {
                    proof {
                        assert(polys@[p as int]@[v as int] == pair);
                        assert(!poly_ok(
                            polys@[p as int]@,
                            raw_positions@.len() as int,
                            raw_uvs@.len() as int,
                        ));
                    }
                    return (None, Ghost(Seq::empty()));
                }
                let ghost e0 = iset_entries(unique_obj_indices);
                let ghost pv = flat_pairs(polys@, p as int) + polys@[p as int]@.subrange(
                    0,
                    v as int,
                );
                let (idx, _inserted) = iset_insert_full(&mut unique_obj_indices, pair);
                set_indices.push(idx);
                proof {
                    let pv1 = flat_pairs(polys@, p as int) + polys@[p as int]@.subrange(
                        0,
                        v as int + 1,
                    );
                    assert(polys@[p as int]@.subrange(0, v as int + 1) =~= polys@[p
                        as int]@.subrange(0, v as int).push(polys@[p as int]@[v as int]));
                    assert(pv1 =~= pv.push(pair));
                    assert(pv.push(pair).drop_last() =~= pv);
                    assert(pv1.len() > 0);
                    assert(iset_entries(unique_obj_indices) == interned(pv1));
                    assert(iset_entries(unique_obj_indices)[set_indices@[v as int] as int]
                        == poly@[v as int]);
                    assert forall|k: int|
                        0 <= k < v implies iset_entries(unique_obj_indices)[(
                    #[trigger] set_indices@[k]) as int] == poly@[k] by {
                        assert(e0[set_indices@[k] as int] == poly@[k]);
                    }
                    assert forall|pi: int, j: int|
                        0 <= pi < p && 0 <= j < polys@[pi]@.len() - 2 implies #[trigger] fan_triple_ok(
                        polys@,
                        iset_entries(unique_obj_indices),
                        indices@,
                        pi,
                        j,
                    ) by {
                        assert(fan_triple_ok(polys@, e0, indices@, pi, j));
                    }
                }
                v = v + 1;
            }
            proof {
                assert(polys@[p as int]@.subrange(0, polys@[p as int]@.len() as int) =~= polys@[p
                    as int]@);
                assert(flat_pairs(polys@, p as int + 1) == flat_pairs(polys@, p as int) + polys@[p
                    as int]@);
                assert(iset_entries(unique_obj_indices) == interned(
                    flat_pairs(polys@, p as int + 1),
                ));
            }
            let mut jj: usize = 0;
            while jj < poly.len() - 2
                invariant
                    poly@.len() >= 3,
                    jj <= poly@.len() - 2,
                    set_indices@.len() == poly@.len(),
                    forall|k: int|
                        0 <= k < set_indices@.len() ==> (#[trigger] set_indices@[k])
                            < iset_entries(unique_obj_indices).len(),
                    forall|k: int|
                        0 <= k < indices@.len() ==> (#[trigger] indices@[k]) < iset_entries(
                            unique_obj_indices,
                        ).len(),
                    indices@.len() == 3 * total_fan(polys@, p as int) + 3 * (jj as int),
                    forall|k: int|
                        0 <= k < set_indices@.len() ==> iset_entries(unique_obj_indices)[(
                        #[trigger] set_indices@[k]) as int] == poly@[k],
                    forall|pi: int, j: int|
                        0 <= pi < p && 0 <= j < polys@[pi]@.len() - 2 ==> #[trigger] fan_triple_ok(
                            polys@,
                            iset_entries(unique_obj_indices),
                            indices@,
                            pi,
                            j,
                        ),
                    forall|j: int|
                        0 <= j < jj ==> #[trigger] fan_triple_ok(
                            polys@,
                            iset_entries(unique_obj_indices),
                            indices@,
                            p as int,
                            j,
                        ),
                decreases poly@.len() - 2 - jj,
            {
                let ghost ind0 = indices@;
                indices.push(set_indices[0]);
                indices.push(set_indices[jj + 1]);
                indices.push(set_indices[jj + 2]);
                proof {
                    let e = iset_entries(unique_obj_indices);
                    let b = 3 * total_fan(polys@, p as int) + 3 * (jj as int);
                    assert(b == ind0.len());
                    assert(indices@[b] == set_indices@[0]);
                    assert(indices@[b + 1] == set_indices@[jj as int + 1]);
                    assert(indices@[b + 2] == set_indices@[jj as int + 2]);
                    assert(fan_triple_ok(polys@, e, indices@, p as int, jj as int));
                    assert forall|pi: int, j: int|
                        0 <= pi < p && 0 <= j < polys@[pi]@.len() - 2 implies #[trigger] fan_triple_ok(
                        polys@,
                        e,
                        indices@,
                        pi,
                        j,
                    ) by {
                        assert(fan_triple_ok(polys@, e, ind0, pi, j));
                    }
                    assert forall|j: int|
                        0 <= j < jj + 1 implies #[trigger] fan_triple_ok(
                        polys@,
                        e,
                        indices@,
                        p as int,
                        j,
                    ) by {
                        if j < jj {
                            assert(fan_triple_ok(polys@, e, ind0, p as int, j));
                        }
                    }
                }
                jj = jj + 1;
            }
            p = p + 1;
        }
        proof {
            assert(fan_indices_ok(polys@, iset_entries(unique_obj_indices), indices@));
        }
        let pairs = iset_into_vec(unique_obj_indices);
        let ghost gpairs = pairs@;
        let mut positions: Vec<Vec3x> = Vec::new();
        let mut uvs: Vec<UV> = Vec::new();
        let mut k: usize = 0;
        while k < pairs.len()
            invariant
                k <= pairs@.len(),
                pairs@ == gpairs,
                forall|i: int|
                    0 <= i < pairs@.len() ==> (#[trigger] pairs@[i]).0 < raw_positions@.len()
                        && pairs@[i].1 < raw_uvs@.len(),
                positions@.len() == k,
                uvs@.len() == k,
                forall|i: int|
                    0 <= i < k ==> #[trigger] positions@[i] == raw_positions@[pairs@[i].0 as int],
                forall|i: int| 0 <= i < k ==> #[trigger] uvs@[i] == raw_uvs@[pairs@[i].1 as int],
            decreases pairs@.len() - k,
        {
            let pr = pairs[k];
            positions.push(raw_positions[pr.0]);
            uvs.push(raw_uvs[pr.1]);
            k = k + 1;
        }
        (Some(Mesh { positions, indices, uvs }), Ghost(gpairs))
    }

    /// Assemble a mesh directly from prepared arrays, after checking
    /// the well-formedness conditions: the result is `Some` exactly
    /// when the arrays already form a well-formed mesh.
    #[verifier::loop_isolation(false)]
    pub fn from_parts(positions: Vec<Vec3x>, indices: Vec<usize>, uvs: Vec<UV>) -> (r: Option<
        Mesh,
    >)
        ensures
            r is Some <==> (positions@.len() == uvs@.len() && (forall|k: int|
                0 <= k < indices@.len() ==> (#[trigger] indices@[k]) < positions@.len()) && (
            forall|k: int| 0 <= k < positions@.len() ==> pos_ok(#[trigger] positions@[k])) && (
            forall|k: int| 0 <= k < uvs@.len() ==> uv_ok((#[trigger] uvs@[k])@))),
            r matches Some(m) ==> mesh_ok(m) && m.positions == positions && m.indices == indices
                && m.uvs == uvs,
    {
        if positions.len() != uvs.len() {
            return None;
        }
        let mut i: usize = 0;
        while i < indices.len()
            invariant
                i <= indices@.len(),
                forall|k: int| 0 <= k < i ==> (#[trigger] indices@[k]) < positions@.len(),
            decreases indices@.len() - i,
        {
            if indices[i] >= positions.len() {
                proof {
                    assert(!((#[trigger] indices@[i as int]) < positions@.len()));
                }
                return None;
            }
            i = i + 1;
        }
        let mut j: usize = 0;
        while j < positions.len()
            invariant
                j <= positions@.len(),
                positions@.len() == uvs@.len(),
                forall|k: int| 0 <= k < j ==> pos_ok(#[trigger] positions@[k]),
                forall|k: int| 0 <= k < j ==> uv_ok((#[trigger] uvs@[k])@),
            decreases positions@.len() - j,
        {
            let pp = positions[j];
            let tt = uvs[j];
            if pp.xn < -MPOS || pp.xn > MPOS || pp.yn < -MPOS || pp.yn > MPOS || pp.zn < -MPOS
                || pp.zn > MPOS {
                proof {
                    assert(!pos_ok(positions@[j as int]));
                }
                return None;
            }
            if tt.un < 0 || tt.un > ASCALE || tt.vn < 0 || tt.vn > ASCALE {
                proof {
                    assert(!uv_ok(uvs@[j as int]@));
                }
                return None;
            }
            j = j + 1;
        }
        Some(Mesh { positions, indices, uvs })
    }
}

} // verus!
