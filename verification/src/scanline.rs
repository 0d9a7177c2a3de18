//! The scanline triangle rasterizer.
//!
//! A triangle's vertices are transformed, ordered by `y`, culled by
//! facing, and split into one long edge and two short ones; every row
//! between paired edges is filled pixel by pixel with the perspective-
//! correct texture sample. Every step of that pipeline is specified
//! over exact fractions and each pixel write is pinned down by the
//! contracts.

use vstd::prelude::*;
use crate::rat::{
    Rat, Ratio, rok, rat_eq, rceil, rclamp01, rdiv, rround, mulb, lemma_rceil_char,
    lemma_rceil_mono,
};
use crate::interpolant::{
    Interpolant, ScreenVert, VertModel, UV, UVModel, interp_at, ival_num, ival0_num, istep_num,
    qden, dnum, dypos, vsel, slope_rat, yprestep, rx, ry, tri_ok, uv_ok, vert_ok, uw_attr,
    vw_attr, iw_attr, attr_ok, SCALE, ASCALE, AA, IWMAX, AMAX, HMAX, CMAX, IV0B, IVB, ISTB, QDB,
};
use crate::edge::{
    Edge, edge_at, ystart_spec, yend_spec, xnum0, xstep_num, xnum_at, imax, imin,
    lemma_edge_bounds, lemma_edge_step,
};
use crate::bitmap::{Bitmap, bitmap_ok, bitmap_sample, TEXR};
use crate::render_system::{Renderable, RenderSystem};
use crate::mesh_loader::{Mesh, mesh_ok, pos_ok, MPOS};

verus! {

/// A model-space point or vector, fixed-point at scale [`SCALE`].
#[derive(Clone, Copy)]
pub struct Vec3x {
    pub xn: i128,
    pub yn: i128,
    pub zn: i128,
}

/// A homogeneous vertex, fixed-point at scale [`SCALE`].
#[derive(Clone, Copy)]
pub struct Vert4 {
    pub xn: i128,
    pub yn: i128,
    pub zn: i128,
    pub wn: i128,
}

/// A position becomes a homogeneous vertex with `w = 1`.
pub fn new_vertex(position: &Vec3x) -> (r: Vert4)
    ensures
        r.xn == position.xn,
        r.yn == position.yn,
        r.zn == position.zn,
        r.wn == SCALE,
{
    Vert4 { xn: position.xn, yn: position.yn, zn: position.zn, wn: SCALE }
}

/// Numerator (at scale `SCALE * SCALE`) of twice the signed area of the
/// triangle `(a, b, c)`: the 2D cross product of `b - a` and `c - a`.
pub open spec fn area_num(a: VertModel, b: VertModel, c: VertModel) -> int {
    (b.x - a.x) * (c.y - a.y) - (c.x - a.x) * (b.y - a.y)
}

/// The gradient denominator is the same cross product with the second
/// and third vertices exchanged.
pub proof fn lemma_dnum_is_area(a: VertModel, b: VertModel, c: VertModel)
    by (nonlinear_arith)
    ensures
        dnum(a, b, c) == area_num(a, c, b),
{
}

/// Swapping two vertices flips the sign of the signed area; a cyclic
/// shift keeps it.
pub proof fn lemma_area_swap(a: VertModel, b: VertModel, c: VertModel)
    ensures
        area_num(a, b, c) == -area_num(a, c, b),
        area_num(a, b, c) == -area_num(b, a, c),
        area_num(a, b, c) == -area_num(c, b, a),
        area_num(a, b, c) == area_num(b, c, a),
        area_num(a, b, c) == area_num(c, a, b),
{
    let n0 = area_num(a, b, c);
    let n1 = area_num(a, c, b);
    let n2 = area_num(b, a, c);
    let n3 = area_num(c, b, a);
    let n4 = area_num(b, c, a);
    let n5 = area_num(c, a, b);
    assert(n0 == -n1) by (nonlinear_arith)
        requires
            n0 == (b.x - a.x) * (c.y - a.y) - (c.x - a.x) * (b.y - a.y),
            n1 == (c.x - a.x) * (b.y - a.y) - (b.x - a.x) * (c.y - a.y),
    ;
    assert(n0 == -n2) by (nonlinear_arith)
        requires
            n0 == (b.x - a.x) * (c.y - a.y) - (c.x - a.x) * (b.y - a.y),
            n2 == (a.x - b.x) * (c.y - b.y) - (c.x - b.x) * (a.y - b.y),
    ;
    assert(n0 == -n3) by (nonlinear_arith)
        requires
            n0 == (b.x - a.x) * (c.y - a.y) - (c.x - a.x) * (b.y - a.y),
            n3 == (b.x - c.x) * (a.y - c.y) - (a.x - c.x) * (b.y - c.y),
    ;
    assert(n0 == n4) by (nonlinear_arith)
        requires
            n0 == (b.x - a.x) * (c.y - a.y) - (c.x - a.x) * (b.y - a.y),
            n4 == (c.x - b.x) * (a.y - b.y) - (a.x - b.x) * (c.y - b.y),
    ;
    assert(n0 == n5) by (nonlinear_arith)
        requires
            n0 == (b.x - a.x) * (c.y - a.y) - (c.x - a.x) * (b.y - a.y),
            n5 == (a.x - c.x) * (b.y - c.y) - (b.x - c.x) * (a.y - c.y),
    ;
}

/// Half the `z` component of the cross product of two screen-space
/// vectors, as an exact fraction.
pub fn xy_cross_product_magnitude(v1: &Vec3x, v2: &Vec3x) -> (r: Rat)
    requires
        -16384 <= v1.xn <= 16384,
        -16384 <= v1.yn <= 16384,
        -16384 <= v2.xn <= 16384,
        -16384 <= v2.yn <= 16384,
    ensures
        r.n == v1.xn * v2.yn - v2.xn * v1.yn,
        r.d == 2 * SCALE * SCALE,
{
    let t1 = mulb(v1.xn, v2.yn, Ghost(16384), Ghost(16384));
    let t2 = mulb(v2.xn, v1.yn, Ghost(16384), Ghost(16384));
    Rat { n: t1 - t2, d: 2 * SCALE * SCALE }
}

/// Twice-signed-area numerator over the denominator `2 * SCALE * SCALE`:
/// positive exactly when `(v_min_y, v_max_y, v_mid_y)` winds one way.
pub fn triangle_signed_area(v_min_y: &ScreenVert, v_max_y: &ScreenVert, v_mid_y: &ScreenVert) -> (r:
    Rat)
    requires
        vert_ok(v_min_y@),
        vert_ok(v_max_y@),
        vert_ok(v_mid_y@),
    ensures
        r.n == area_num(v_min_y@, v_max_y@, v_mid_y@),
        r.d == 2 * SCALE * SCALE,
{
    xy_cross_product_magnitude(
        &Vec3x {
            xn: v_max_y.xn - v_min_y.xn,
            yn: v_max_y.yn - v_min_y.yn,
            zn: v_max_y.zn - v_min_y.zn,
        },
        &Vec3x {
            xn: v_mid_y.xn - v_min_y.xn,
            yn: v_mid_y.yn - v_min_y.yn,
            zn: v_mid_y.zn - v_min_y.zn,
        },
    )
}

/// Everything the rasterization of one triangle depends on: the three
/// sorted screen vertices, their texture coordinates, and the viewport
/// dimensions.
pub ghost struct TriCtx {
    pub p0: VertModel,
    pub p1: VertModel,
    pub p2: VertModel,
    pub t0: UVModel,
    pub t1: UVModel,
    pub t2: UVModel,
    pub w: int,
    pub h: int,
}

pub open spec fn tri_ctx_ok(c: TriCtx) -> bool {
    &&& tri_ok(c.p0, c.p1, c.p2)
    &&& uv_ok(c.t0)
    &&& uv_ok(c.t1)
    &&& uv_ok(c.t2)
    &&& dnum(c.p0, c.p1, c.p2) != 0
    &&& 0 < c.w <= HMAX as int
    &&& 0 < c.h <= HMAX as int
}

/// Indices form one of the three directed edges of a sorted triangle.
pub open spec fn edge_idx_ok(s: int, e: int) -> bool {
    (s == 0 && e == 1) || (s == 0 && e == 2) || (s == 1 && e == 2)
}

pub open spec fn cvert(c: TriCtx, i: int) -> VertModel {
    vsel(c.p0, c.p1, c.p2, i)
}

/// The first viewport row the triangle can touch.
pub open spec fn ymin_spec(c: TriCtx) -> int {
    imax(rceil(ry(c.p0)), 0)
}

/// One past the last viewport row the triangle can touch.
pub open spec fn ymax_spec(c: TriCtx) -> int {
    imin(rceil(ry(c.p2)), c.h)
}

/// First sampled row of the edge starting at vertex `s`.
pub open spec fn row_ys(c: TriCtx, s: int) -> int {
    ystart_spec(cvert(c, s), ymin_spec(c))
}

/// One past the last sampled row of the edge ending at vertex `e`.
pub open spec fn row_ye(c: TriCtx, e: int) -> int {
    yend_spec(cvert(c, e), ymax_spec(c))
}

/// The x crossing of edge `(s, e)` with row `j`, as an exact fraction.
pub open spec fn edge_x_ratio(c: TriCtx, s: int, e: int, j: int) -> Ratio {
    Ratio {
        n: xnum_at(cvert(c, s), cvert(c, e), row_ys(c, s), j),
        d: (SCALE as int) * dypos(cvert(c, s), cvert(c, e)),
    }
}

/// Numerator (over [`qden`]) of `u/w` along edge `(s, e)` at row `j`.
pub open spec fn attr_uw(c: TriCtx, s: int, e: int, j: int) -> int {
    ival_num(
        c.p0,
        c.p1,
        c.p2,
        uw_attr(c.p0, c.t0),
        uw_attr(c.p1, c.t1),
        uw_attr(c.p2, c.t2),
        s,
        e,
        row_ys(c, s),
        j,
    )
}

/// Numerator (over [`qden`]) of `v/w` along edge `(s, e)` at row `j`.
pub open spec fn attr_vw(c: TriCtx, s: int, e: int, j: int) -> int {
    ival_num(
        c.p0,
        c.p1,
        c.p2,
        vw_attr(c.p0, c.t0),
        vw_attr(c.p1, c.t1),
        vw_attr(c.p2, c.t2),
        s,
        e,
        row_ys(c, s),
        j,
    )
}

/// Numerator (over [`qden`]) of `1/w` along edge `(s, e)` at row `j`.
pub open spec fn attr_iw(c: TriCtx, s: int, e: int, j: int) -> int {
    ival_num(
        c.p0,
        c.p1,
        c.p2,
        iw_attr(c.p0),
        iw_attr(c.p1),
        iw_attr(c.p2),
        s,
        e,
        row_ys(c, s),
        j,
    )
}

/// First filled column of row `j`: the ceiling of the left edge's x,
/// clamped to the viewport.
pub open spec fn row_xmin(c: TriCtx, ls: int, le: int, j: int) -> int {
    imax(rceil(edge_x_ratio(c, ls, le, j)), 0)
}

/// The ceiling of the right edge's x, clamped to zero (columns beyond
/// the viewport's width are cut when the span is walked).
pub open spec fn row_xmax(c: TriCtx, rs: int, re: int, j: int) -> int {
    imax(rceil(edge_x_ratio(c, rs, re, j)), 0)
}

/// Linear interpolation of two numerators over a common denominator:
/// the result is over that denominator times `td`.
pub open spec fn lerp_num(ln: int, rn: int, tn: int, td: int) -> int {
    ln * td + (rn - ln) * tn
}

/// Numerator of the interpolated `1/w` at column `i` of row `j`.
pub open spec fn row_iw(c: TriCtx, ls: int, le: int, rs: int, re: int, j: int, i: int) -> int {
    lerp_num(
        attr_iw(c, ls, le, j),
        attr_iw(c, rs, re, j),
        i - row_xmin(c, ls, le, j),
        row_xmax(c, rs, re, j) - row_xmin(c, ls, le, j),
    )
}

/// Numerator of the interpolated `u/w` at column `i` of row `j`.
pub open spec fn row_uw(c: TriCtx, ls: int, le: int, rs: int, re: int, j: int, i: int) -> int {
    lerp_num(
        attr_uw(c, ls, le, j),
        attr_uw(c, rs, re, j),
        i - row_xmin(c, ls, le, j),
        row_xmax(c, rs, re, j) - row_xmin(c, ls, le, j),
    )
}

/// Numerator of the interpolated `v/w` at column `i` of row `j`.
pub open spec fn row_vw(c: TriCtx, ls: int, le: int, rs: int, re: int, j: int, i: int) -> int {
    lerp_num(
        attr_vw(c, ls, le, j),
        attr_vw(c, rs, re, j),
        i - row_xmin(c, ls, le, j),
        row_xmax(c, rs, re, j) - row_xmin(c, ls, le, j),
    )
}

/// The pixel `(i, j)` is filled by the span between the left edge
/// `(ls, le)` and the right edge `(rs, re)`: it lies in the span's
/// column range and the interpolated `1/w` there is positive.
pub open spec fn row_hit(c: TriCtx, ls: int, le: int, rs: int, re: int, j: int, i: int) -> bool {
    &&& row_xmin(c, ls, le, j) <= i < imin(row_xmax(c, rs, re, j), c.w)
    &&& row_iw(c, ls, le, rs, re, j, i) > 0
}

/// The perspective-correct texture sample written at `(i, j)`: the
/// interpolated `uv/w` divided by the interpolated `1/w` (an exact
/// division of numerators over one common denominator), clamped into
/// the unit square, sampled nearest-neighbor.
pub open spec fn row_color(
    c: TriCtx,
    tex: Bitmap,
    ls: int,
    le: int,
    rs: int,
    re: int,
    j: int,
    i: int,
) -> [u8; 4] {
    bitmap_sample(
        tex,
        rclamp01(
            Ratio { n: row_uw(c, ls, le, rs, re, j, i), d: row_iw(c, ls, le, rs, re, j, i) },
        ),
        rclamp01(
            Ratio { n: row_vw(c, ls, le, rs, re, j, i), d: row_iw(c, ls, le, rs, re, j, i) },
        ),
    )
}

/// The pixel value after one edge pair `(a, b)` has been walked with
/// the given handedness: rows in the short edge's range take the span's
/// color where the span hits, everything else keeps `base`.
pub open spec fn pair_pix(
    c: TriCtx,
    tex: Bitmap,
    asi: int,
    aei: int,
    bsi: int,
    bei: int,
    hand: bool,
    y: int,
    x: int,
    base: [u8; 4],
) -> [u8; 4] {
    let ls = if hand { bsi } else { asi };
    let le = if hand { bei } else { aei };
    let rs = if hand { asi } else { bsi };
    let re = if hand { aei } else { bei };
    if row_ys(c, bsi) <= y < row_ye(c, bei) && row_hit(c, ls, le, rs, re, y, x) {
        row_color(c, tex, ls, le, rs, re, y, x)
    } else {
        base
    }
}

/// On every row an edge actually samples, its x crossing stays within
/// the coordinate range, because the crossing is a convex combination
/// of the edge's two endpoints.
pub proof fn lemma_edge_x_range(ps: VertModel, pe: VertModel, ymin: int, j: int)
    requires
        vert_ok(ps),
        vert_ok(pe),
        ps.y <= pe.y,
        0 <= ymin,
        ystart_spec(ps, ymin) <= j,
        j < rceil(ry(pe)),
    ensures
        -512 <= rceil(
            Ratio {
                n: xnum_at(ps, pe, ystart_spec(ps, ymin), j),
                d: (SCALE as int) * dypos(ps, pe),
            },
        ) <= 512,
{
    let ys = ystart_spec(ps, ymin);
    lemma_rceil_char(ry(ps), rceil(ry(ps)));
    lemma_rceil_char(ry(pe), rceil(ry(pe)));
    assert(SCALE == 8);
    assert(8 * j >= ps.y);
    assert(8 * j < pe.y) by {
        assert(8 * (rceil(ry(pe)) - 1) < pe.y);
        assert(j <= rceil(ry(pe)) - 1);
        assert(8 * j <= 8 * (rceil(ry(pe)) - 1));
    }
    let dy = pe.y - ps.y;
    assert(dy >= 1);
    assert(dypos(ps, pe) == dy);
    let ypnj = 8 * j - ps.y;
    assert(0 <= ypnj < dy);
    let xn = xnum_at(ps, pe, ys, j);
    assert(xn == ps.x * dy + ypnj * (pe.x - ps.x)) by (nonlinear_arith)
        requires
            xn == ps.x * dy + (ys * 8 - ps.y) * (pe.x - ps.x) + (j - ys) * ((pe.x - ps.x) * 8),
            ypnj == 8 * j - ps.y,
    ;
    assert(-4096 * dy <= xn <= 4096 * dy) by (nonlinear_arith)
        requires
            xn == ps.x * dy + ypnj * (pe.x - ps.x),
            0 <= ypnj < dy,
            -4096 <= ps.x <= 4096,
            -4096 <= pe.x <= 4096,
    ;
    let xr = Ratio { n: xn, d: 8 * dy };
    let cx = rceil(xr);
    lemma_rceil_char(xr, cx);
    assert(8 * dy * (cx - 1) < xn <= 8 * dy * cx);
    assert(-512 <= cx <= 512) by (nonlinear_arith)
        requires
            8 * dy * (cx - 1) < xn <= 8 * dy * cx,
            -4096 * dy <= xn <= 4096 * dy,
            dy >= 1,
    ;
}

/// Lifts [`lemma_edge_x_range`] to the row's clamped column bounds.
proof fn lemma_span_cols(c: TriCtx, s: int, e: int, j: int)
    requires
        tri_ctx_ok(c),
        edge_idx_ok(s, e),
        row_ys(c, s) <= j,
        j < row_ye(c, e),
    ensures
        -512 <= rceil(edge_x_ratio(c, s, e, j)) <= 512,
{
    lemma_edge_x_range(cvert(c, s), cvert(c, e), ymin_spec(c), j);
}

/// The combined model, perspective and screen-space transform: sixteen
/// entries over one common denominator.
#[derive(Clone, Copy)]
pub struct Mat4x {
    pub m: [[i128; 4]; 4],
    pub d: i128,
}

/// Well-formed transform: positive denominator and bounded entries.
pub open spec fn mat_ok(t: Mat4x) -> bool {
    &&& 0 < t.d <= 65536
    &&& forall|r: int, c: int|
        0 <= r < 4 && 0 <= c < 4 ==> -0x100_0000 <= #[trigger] t.m@[r]@[c] <= 0x100_0000
}

/// One row of the transform applied to a homogeneous vertex: the
/// numerator of the resulting clip-space component over `t.d * SCALE`.
pub open spec fn mrow(t: Mat4x, r: int, v: Vert4) -> int {
    t.m@[r]@[0] * v.xn + t.m@[r]@[1] * v.yn + t.m@[r]@[2] * v.zn + t.m@[r]@[3] * v.wn
}

/// The screen vertex the transform stage produces: each clip component
/// divided by `w` and rounded to the coordinate scale, and the inverse
/// of `w` rounded to the attribute scale. `w` itself survives only as
/// that inverse.
pub open spec fn xform_vert(t: Mat4x, v: Vert4) -> VertModel {
    let wr = mrow(t, 3, v);
    VertModel {
        x: rround(Ratio { n: mrow(t, 0, v) * (SCALE as int), d: wr }),
        y: rround(Ratio { n: mrow(t, 1, v) * (SCALE as int), d: wr }),
        z: rround(Ratio { n: mrow(t, 2, v) * (SCALE as int), d: wr }),
        iw: rround(Ratio { n: t.d * (SCALE as int) * (ASCALE as int), d: wr }),
    }
}

/// The transform's guards for one vertex: the point lies strictly in
/// front of the viewer and the rounded results stay in the coordinate
/// and depth ranges the rasterizer supports.
pub open spec fn xform_ok(t: Mat4x, v: Vert4) -> bool {
    let m = xform_vert(t, v);
    &&& mrow(t, 3, v) > 0
    &&& vert_ok(m)
}

/// A mesh position as a homogeneous vertex with `w = 1`.
pub open spec fn vert4_of(p: Vec3x) -> Vert4 {
    Vert4 { xn: p.xn, yn: p.yn, zn: p.zn, wn: SCALE }
}

/// The ascending-by-`y` ordering of three keys, as indices; stable, so
/// equal keys keep their original order.
pub open spec fn sort3(y0: int, y1: int, y2: int) -> (int, int, int) {
    if y0 <= y1 {
        if y1 <= y2 {
            (0int, 1int, 2int)
        } else if y0 <= y2 {
            (0int, 2int, 1int)
        } else {
            (2int, 0int, 1int)
        }
    } else {
        if y0 <= y2 {
            (1int, 0int, 2int)
        } else if y1 <= y2 {
            (1int, 2int, 0int)
        } else {
            (2int, 1int, 0int)
        }
    }
}

/// Select one of three texture coordinates by index.
pub open spec fn uvsel(t0: UVModel, t1: UVModel, t2: UVModel, i: int) -> UVModel {
    if i == 0 {
        t0
    } else if i == 1 {
        t1
    } else {
        t2
    }
}

/// The triangle context the rasterizer works on for mesh triangle
/// `(i0, i1, i2)`: the transformed vertices sorted by `y`, with their
/// texture coordinates carried along.
pub open spec fn tri_sorted_ctx(
    m: Mesh,
    t: Mat4x,
    i0: int,
    i1: int,
    i2: int,
    w: int,
    h: int,
) -> TriCtx {
    let tv0 = xform_vert(t, vert4_of(m.positions@[i0]));
    let tv1 = xform_vert(t, vert4_of(m.positions@[i1]));
    let tv2 = xform_vert(t, vert4_of(m.positions@[i2]));
    let u0 = m.uvs@[i0]@;
    let u1 = m.uvs@[i1]@;
    let u2 = m.uvs@[i2]@;
    let ord = sort3(tv0.y, tv1.y, tv2.y);
    TriCtx {
        p0: vsel(tv0, tv1, tv2, ord.0),
        p1: vsel(tv0, tv1, tv2, ord.1),
        p2: vsel(tv0, tv1, tv2, ord.2),
        t0: uvsel(u0, u1, u2, ord.0),
        t1: uvsel(u0, u1, u2, ord.1),
        t2: uvsel(u0, u1, u2, ord.2),
        w,
        h,
    }
}

/// The triangle survives the transform guards and the facing test:
/// every vertex transforms cleanly and the signed area of
/// `(v0, v2, v1)` in screen space is positive.
pub open spec fn tri_visible(m: Mesh, t: Mat4x, i0: int, i1: int, i2: int) -> bool {
    let tv0 = xform_vert(t, vert4_of(m.positions@[i0]));
    let tv1 = xform_vert(t, vert4_of(m.positions@[i1]));
    let tv2 = xform_vert(t, vert4_of(m.positions@[i2]));
    &&& xform_ok(t, vert4_of(m.positions@[i0]))
    &&& xform_ok(t, vert4_of(m.positions@[i1]))
    &&& xform_ok(t, vert4_of(m.positions@[i2]))
    &&& area_num(tv0, tv2, tv1) > 0
}

/// Which side the long edge bounds: computed from the sorted vertices.
pub open spec fn tri_hand(c: TriCtx) -> bool {
    area_num(c.p0, c.p2, c.p1) >= 0
}

/// The pixel value after one whole triangle: the top half (long edge
/// paired with the top short edge) followed by the bottom half.
pub open spec fn tri_pix(
    c: TriCtx,
    tex: Bitmap,
    hand: bool,
    y: int,
    x: int,
    base: [u8; 4],
) -> [u8; 4] {
    pair_pix(c, tex, 0, 2, 1, 2, hand, y, x, pair_pix(c, tex, 0, 2, 0, 1, hand, y, x, base))
}

/// The pixel value after the first `k` triangles of the mesh.
pub open spec fn mesh_pix(
    s: Scanline,
    w: int,
    h: int,
    k: int,
    y: int,
    x: int,
    base: [u8; 4],
) -> [u8; 4]
    decreases k,
{
    if k <= 0 {
        base
    } else {
        let prev = mesh_pix(s, w, h, k - 1, y, x, base);
        let i0 = s.mesh.indices@[3 * (k - 1)] as int;
        let i1 = s.mesh.indices@[3 * (k - 1) + 1] as int;
        let i2 = s.mesh.indices@[3 * (k - 1) + 2] as int;
        if tri_visible(s.mesh, s.transform_matrix, i0, i1, i2) {
            tri_pix(
                tri_sorted_ctx(s.mesh, s.transform_matrix, i0, i1, i2, w, h),
                s.texture,
                tri_hand(tri_sorted_ctx(s.mesh, s.transform_matrix, i0, i1, i2, w, h)),
                y,
                x,
                prev,
            )
        } else {
            prev
        }
    }
}

/// The scanline rasterizer: a mesh, a texture, and the transform that
/// carries model-space vertices into screen space.
pub struct Scanline {
    pub mesh: Mesh,
    pub texture: Bitmap,
    pub transform_matrix: Mat4x,
}

impl Scanline {
    /// Assemble a rasterizer from its parts. The transform matrix is
    /// built by the caller (it involves the camera's projection).
    pub fn new(mesh: Mesh, texture: Bitmap, transform_matrix: Mat4x) -> (r: Scanline)
        requires
            mesh_ok(mesh),
            bitmap_ok(texture),
            mat_ok(transform_matrix),
        ensures
            r.mesh == mesh,
            r.texture == texture,
            r.transform_matrix == transform_matrix,
    {
        Scanline { mesh, texture, transform_matrix }
    }

    /// Transform one homogeneous vertex to screen space: apply the
    /// matrix, divide the position by `w` (keeping `1/w` for the
    /// perspective correction), and round to the fixed-point scales.
    /// `None` when a guard of [`xform_ok`] fails.
    fn transform_one(&self, v: &Vert4) -> (r: Option<ScreenVert>)
        requires
            mat_ok(self.transform_matrix),
            -0x20_0000 <= v.xn <= 0x20_0000,
            -0x20_0000 <= v.yn <= 0x20_0000,
            -0x20_0000 <= v.zn <= 0x20_0000,
            -0x20_0000 <= v.wn <= 0x20_0000,
        ensures
            r is Some <==> xform_ok(self.transform_matrix, *v),
            r is Some ==> r->Some_0@ == xform_vert(self.transform_matrix, *v)
                && vert_ok(r->Some_0@),
    {
        let t = &self.transform_matrix;
        let r0 = Scanline::apply_row(t, 0, v);
        let r1 = Scanline::apply_row(t, 1, v);
        let r2 = Scanline::apply_row(t, 2, v);
        let wr = Scanline::apply_row(t, 3, v);
        if wr <= 0 {
            return None;
        }
        let xq = Rat { n: mulb(r0, SCALE, Ghost(0x8000_0000_0000 as int), Ghost(8)), d: wr }.round();
        let yq = Rat { n: mulb(r1, SCALE, Ghost(0x8000_0000_0000 as int), Ghost(8)), d: wr }.round();
        let zq = Rat { n: mulb(r2, SCALE, Ghost(0x8000_0000_0000 as int), Ghost(8)), d: wr }.round();
        let iwnum = mulb(
            mulb(t.d, SCALE, Ghost(65536), Ghost(8)),
            ASCALE,
            Ghost(0x80000 as int),
            Ghost(256),
        );
        let iwq = Rat { n: iwnum, d: wr }.round();
        if xq < -CMAX || xq > CMAX || yq < -CMAX || yq > CMAX || zq < -CMAX || zq > CMAX || iwq < 1
            || iwq > IWMAX {
            return None;
        }
        Some(ScreenVert { xn: xq, yn: yq, zn: zq, iwn: iwq })
    }

    /// One row of the matrix dotted with the vertex.
    fn apply_row(t: &Mat4x, r: usize, v: &Vert4) -> (n: i128)
        requires
            mat_ok(*t),
            r < 4,
            -0x20_0000 <= v.xn <= 0x20_0000,
            -0x20_0000 <= v.yn <= 0x20_0000,
            -0x20_0000 <= v.zn <= 0x20_0000,
            -0x20_0000 <= v.wn <= 0x20_0000,
        ensures
            n == mrow(*t, r as int, *v),
            -0x8000_0000_0000 <= n <= 0x8000_0000_0000,
    {
        let row = &t.m[r];
        mulb(row[0], v.xn, Ghost(0x100_0000 as int), Ghost(0x20_0000 as int)) + mulb(
            row[1],
            v.yn,
            Ghost(0x100_0000 as int),
            Ghost(0x20_0000 as int),
        ) + mulb(row[2], v.zn, Ghost(0x100_0000 as int), Ghost(0x20_0000 as int)) + mulb(
            row[3],
            v.wn,
            Ghost(0x100_0000 as int),
            Ghost(0x20_0000 as int),
        )
    }

    /// Transform a triangle's three vertices; `None` as soon as one of
    /// them fails a guard of [`xform_ok`].
    fn transformed_vertices(&self, vertices: &[Vert4; 3]) -> (r: Option<[ScreenVert; 3]>)
        requires
            mat_ok(self.transform_matrix),
            forall|k: int|
                0 <= k < 3 ==> -0x20_0000 <= (#[trigger] vertices@[k]).xn <= 0x20_0000
                    && -0x20_0000 <= vertices@[k].yn <= 0x20_0000 && -0x20_0000 <= vertices@[k].zn
                    <= 0x20_0000 && -0x20_0000 <= vertices@[k].wn <= 0x20_0000,
        ensures
            r is Some <==> (xform_ok(self.transform_matrix, vertices@[0]) && xform_ok(
                self.transform_matrix,
                vertices@[1],
            ) && xform_ok(self.transform_matrix, vertices@[2])),
            r is Some ==> (forall|k: int|
                0 <= k < 3 ==> (#[trigger] r->Some_0@[k])@ == xform_vert(
                    self.transform_matrix,
                    vertices@[k],
                ) && vert_ok(r->Some_0@[k]@)),
    {
        let t0 = self.transform_one(&vertices[0]);
        let t1 = self.transform_one(&vertices[1]);
        let t2 = self.transform_one(&vertices[2]);
        match (t0, t1, t2) {
            (Some(a), Some(b), Some(c)) => Some([a, b, c]),
            _ => None,
        }
    }

    /// Fill one horizontal span of row `j` between the left and right
    /// edges: each column linearly interpolates the perspective-ready
    /// attributes between the two edge crossings, divides by the
    /// interpolated `1/w`, and writes the texture sample.
    #[verifier::loop_isolation(false)]
    fn draw_scan_line<R: Renderable>(
        &self,
        context: &mut R,
        left: &Edge,
        right: &Edge,
        j: i128,
        Ghost(c): Ghost<TriCtx>,
        Ghost(ls): Ghost<int>,
        Ghost(le): Ghost<int>,
        Ghost(rs): Ghost<int>,
        Ghost(re): Ghost<int>,
    )
        requires
            tri_ctx_ok(c),
            bitmap_ok(self.texture),
            old(context).wf(),
            old(context).width_spec() == c.w,
            old(context).height_spec() == c.h,
            edge_idx_ok(ls, le),
            edge_idx_ok(rs, re),
            edge_at(
                *left,
                c.p0,
                c.p1,
                c.p2,
                c.t0,
                c.t1,
                c.t2,
                ls,
                le,
                ymin_spec(c),
                ymax_spec(c),
                j as int,
            ),
            edge_at(
                *right,
                c.p0,
                c.p1,
                c.p2,
                c.t0,
                c.t1,
                c.t2,
                rs,
                re,
                ymin_spec(c),
                ymax_spec(c),
                j as int,
            ),
            row_ys(c, ls) <= j as int,
            row_ys(c, rs) <= j as int,
            (j as int) < row_ye(c, le),
            (j as int) < row_ye(c, re),
            0 <= (j as int) && (j as int) < ymax_spec(c),
        ensures
            final(context).wf(),
            final(context).width_spec() == c.w,
            final(context).height_spec() == c.h,
            forall|x: int, y: int|
                0 <= x < c.w && 0 <= y < c.h ==> #[trigger] final(context).pix(x, y) == (if y == j
                    as int && row_hit(c, ls, le, rs, re, j as int, x) {
                    row_color(c, self.texture, ls, le, rs, re, j as int, x)
                } else {
                    old(context).pix(x, y)
                }),
    {
        proof {
            lemma_span_cols(c, ls, le, j as int);
            lemma_span_cols(c, rs, re, j as int);
            lemma_edge_bounds(
                *left,
                c.p0,
                c.p1,
                c.p2,
                c.t0,
                c.t1,
                c.t2,
                ls,
                le,
                ymin_spec(c),
                ymax_spec(c),
                j as int,
            );
            lemma_edge_bounds(
                *right,
                c.p0,
                c.p1,
                c.p2,
                c.t0,
                c.t1,
                c.t2,
                rs,
                re,
                ymin_spec(c),
                ymax_spec(c),
                j as int,
            );
            assert(left.x@ == edge_x_ratio(c, ls, le, j as int));
            assert(right.x@ == edge_x_ratio(c, rs, re, j as int));
        }
        let x_min_raw = left.x().ceil();
        let x_min: i128 = if x_min_raw >= 0 {
            x_min_raw
        } else {
            0
        };
        let x_max_raw = right.x().ceil();
        let x_max_sat: i128 = if x_max_raw >= 0 {
            x_max_raw
        } else {
            0
        };
        let wvp = context.width();
        let x_end: i128 = if x_max_sat <= wvp as i128 {
            x_max_sat
        } else {
            wvp as i128
        };
        proof {
            assert(x_min == row_xmin(c, ls, le, j as int));
            assert(x_max_sat == row_xmax(c, rs, re, j as int));
            assert(x_end == imin(row_xmax(c, rs, re, j as int), c.w));
        }
        let min_uv = left.uv();
        let max_uv = right.uv();
        let min_inverse_w = left.inverse_w();
        let max_inverse_w = right.inverse_w();
        let uv_delta = (max_uv.0.n - min_uv.0.n, max_uv.1.n - min_uv.1.n);
        let inverse_w_delta = max_inverse_w.n - min_inverse_w.n;
        let x_delta = x_max_sat - x_min;
        let base_u = mulb(min_uv.0.n, x_delta, Ghost(IVB as int), Ghost(1024));
        let base_v = mulb(min_uv.1.n, x_delta, Ghost(IVB as int), Ghost(1024));
        let base_iw = mulb(min_inverse_w.n, x_delta, Ghost(IVB as int), Ghost(1024));
        let mut i = x_min;
        while i < x_end
            invariant
                x_min <= i,
                i <= x_end || i == x_min,
                context.wf(),
                context.width_spec() == c.w,
                context.height_spec() == c.h,
                forall|x: int, y: int|
                    0 <= x < c.w && 0 <= y < c.h ==> #[trigger] context.pix(x, y) == (if y == j
                        as int && x < i && row_hit(c, ls, le, rs, re, j as int, x) {
                        row_color(c, self.texture, ls, le, rs, re, j as int, x)
                    } else {
                        old(context).pix(x, y)
                    }),
            decreases x_end - i,
        {
            let tn = i - x_min;
            let u_n = base_u + mulb(uv_delta.0, tn, Ghost(2 * IVB as int), Ghost(1024));
            let v_n = base_v + mulb(uv_delta.1, tn, Ghost(2 * IVB as int), Ghost(1024));
            let iw_n = base_iw + mulb(inverse_w_delta, tn, Ghost(2 * IVB as int), Ghost(1024));
            proof {
                assert(u_n == row_uw(c, ls, le, rs, re, j as int, i as int));
                assert(v_n == row_vw(c, ls, le, rs, re, j as int, i as int));
                assert(iw_n == row_iw(c, ls, le, rs, re, j as int, i as int));
            }
            if iw_n > 0 {
                let cu = if u_n < 0 {
                    Rat { n: 0, d: 1 }
                } else if u_n > iw_n {
                    Rat { n: 1, d: 1 }
                } else {
                    Rat { n: u_n, d: iw_n }
                };
                let cv = if v_n < 0 {
                    Rat { n: 0, d: 1 }
                } else if v_n > iw_n {
                    Rat { n: 1, d: 1 }
                } else {
                    Rat { n: v_n, d: iw_n }
                };
                let color_bytes = self.texture.get_pixel(&cu, &cv);
                context.plot(color_bytes, i as usize, j as usize);
            }
            i = i + 1;
        }
    }

    /// Walk every row of the short edge `b`'s range, pairing it with
    /// the long edge `a`; the handedness says which of the two bounds
    /// the span on the left. Both edges advance one row per iteration.
    #[verifier::loop_isolation(false)]
    fn scan_convert_edge_pair<R: Renderable>(
        &self,
        context: &mut R,
        a: &mut Edge,
        b: &mut Edge,
        handedness: bool,
        Ghost(c): Ghost<TriCtx>,
        Ghost(asi): Ghost<int>,
        Ghost(aei): Ghost<int>,
        Ghost(bsi): Ghost<int>,
        Ghost(bei): Ghost<int>,
    )
        requires
            tri_ctx_ok(c),
            bitmap_ok(self.texture),
            old(context).wf(),
            old(context).width_spec() == c.w,
            old(context).height_spec() == c.h,
            edge_idx_ok(asi, aei),
            edge_idx_ok(bsi, bei),
            edge_at(
                *old(b),
                c.p0,
                c.p1,
                c.p2,
                c.t0,
                c.t1,
                c.t2,
                bsi,
                bei,
                ymin_spec(c),
                ymax_spec(c),
                row_ys(c, bsi),
            ),
            row_ys(c, bsi) < row_ye(c, bei) ==> edge_at(
                *old(a),
                c.p0,
                c.p1,
                c.p2,
                c.t0,
                c.t1,
                c.t2,
                asi,
                aei,
                ymin_spec(c),
                ymax_spec(c),
                row_ys(c, bsi),
            ),
            row_ys(c, asi) <= row_ys(c, bsi),
            row_ye(c, bei) <= row_ye(c, aei),
        ensures
            final(context).wf(),
            final(context).width_spec() == c.w,
            final(context).height_spec() == c.h,
            forall|x: int, y: int|
                0 <= x < c.w && 0 <= y < c.h ==> #[trigger] final(context).pix(x, y) == pair_pix(
                    c,
                    self.texture,
                    asi,
                    aei,
                    bsi,
                    bei,
                    handedness,
                    y,
                    x,
                    old(context).pix(x, y),
                ),
            row_ys(c, bsi) < row_ye(c, bei) ==> edge_at(
                *final(a),
                c.p0,
                c.p1,
                c.p2,
                c.t0,
                c.t1,
                c.t2,
                asi,
                aei,
                ymin_spec(c),
                ymax_spec(c),
                row_ye(c, bei),
            ) && edge_at(
                *final(b),
                c.p0,
                c.p1,
                c.p2,
                c.t0,
                c.t1,
                c.t2,
                bsi,
                bei,
                ymin_spec(c),
                ymax_spec(c),
                row_ye(c, bei),
            ),
            !(row_ys(c, bsi) < row_ye(c, bei)) ==> *final(a) == *old(a) && *final(b) == *old(b),
    {
        let y_start = b.y_start();
        let y_end = b.y_end();
        let mut j = y_start;
        while j < y_end
            invariant
                y_start <= j,
                j <= y_end || j == y_start,
                context.wf(),
                context.width_spec() == c.w,
                context.height_spec() == c.h,
                y_start < y_end ==> edge_at(
                    *a,
                    c.p0,
                    c.p1,
                    c.p2,
                    c.t0,
                    c.t1,
                    c.t2,
                    asi,
                    aei,
                    ymin_spec(c),
                    ymax_spec(c),
                    j as int,
                ) && edge_at(
                    *b,
                    c.p0,
                    c.p1,
                    c.p2,
                    c.t0,
                    c.t1,
                    c.t2,
                    bsi,
                    bei,
                    ymin_spec(c),
                    ymax_spec(c),
                    j as int,
                ),
                !(y_start < y_end) ==> *a == *old(a) && *b == *old(b),
                forall|x: int, y: int|
                    0 <= x < c.w && 0 <= y < c.h ==> #[trigger] context.pix(x, y) == (if y < j
                        as int {
                        pair_pix(
                            c,
                            self.texture,
                            asi,
                            aei,
                            bsi,
                            bei,
                            handedness,
                            y,
                            x,
                            old(context).pix(x, y),
                        )
                    } else {
                        old(context).pix(x, y)
                    }),
            decreases y_end - j,
        {
            if handedness {
                self.draw_scan_line(
                    context,
                    b,
                    a,
                    j,
                    Ghost(c),
                    Ghost(bsi),
                    Ghost(bei),
                    Ghost(asi),
                    Ghost(aei),
                );
            } else {
                self.draw_scan_line(
                    context,
                    a,
                    b,
                    j,
                    Ghost(c),
                    Ghost(asi),
                    Ghost(aei),
                    Ghost(bsi),
                    Ghost(bei),
                );
            }
            let ghost a_pre = *a;
            let ghost b_pre = *b;
            proof {
                lemma_edge_bounds(
                    *a,
                    c.p0,
                    c.p1,
                    c.p2,
                    c.t0,
                    c.t1,
                    c.t2,
                    asi,
                    aei,
                    ymin_spec(c),
                    ymax_spec(c),
                    j as int,
                );
                lemma_edge_bounds(
                    *b,
                    c.p0,
                    c.p1,
                    c.p2,
                    c.t0,
                    c.t1,
                    c.t2,
                    bsi,
                    bei,
                    ymin_spec(c),
                    ymax_spec(c),
                    j as int,
                );
            }
            a.step();
            b.step();
            proof {
                lemma_edge_step(
                    a_pre,
                    *a,
                    c.p0,
                    c.p1,
                    c.p2,
                    c.t0,
                    c.t1,
                    c.t2,
                    asi,
                    aei,
                    ymin_spec(c),
                    ymax_spec(c),
                    j as int,
                );
                lemma_edge_step(
                    b_pre,
                    *b,
                    c.p0,
                    c.p1,
                    c.p2,
                    c.t0,
                    c.t1,
                    c.t2,
                    bsi,
                    bei,
                    ymin_spec(c),
                    ymax_spec(c),
                    j as int,
                );
            }
            j = j + 1;
        }
    }

    /// Rasterize one mesh triangle: transform its vertices, cull it by
    /// facing, order the vertices by `y`, build the three edges, and
    /// walk the two edge pairs. A triangle that fails a transform guard
    /// or the facing test leaves the sink untouched.
    fn scan_convert_triangle<R: Renderable>(&self, raw_indices: &[usize], context: &mut R)
        requires
            mesh_ok(self.mesh),
            bitmap_ok(self.texture),
            mat_ok(self.transform_matrix),
            old(context).wf(),
            0 < old(context).width_spec() <= HMAX as int,
            0 < old(context).height_spec() <= HMAX as int,
            raw_indices@.len() == 3,
            forall|k: int|
                0 <= k < 3 ==> (#[trigger] raw_indices@[k]) < self.mesh.positions@.len(),
        ensures
            final(context).wf(),
            final(context).width_spec() == old(context).width_spec(),
            final(context).height_spec() == old(context).height_spec(),
            tri_visible(
                self.mesh,
                self.transform_matrix,
                raw_indices@[0] as int,
                raw_indices@[1] as int,
                raw_indices@[2] as int,
            ) ==> forall|x: int, y: int|
                0 <= x < old(context).width_spec() && 0 <= y < old(context).height_spec()
                    ==> #[trigger] final(context).pix(x, y) == tri_pix(
                    tri_sorted_ctx(
                        self.mesh,
                        self.transform_matrix,
                        raw_indices@[0] as int,
                        raw_indices@[1] as int,
                        raw_indices@[2] as int,
                        old(context).width_spec(),
                        old(context).height_spec(),
                    ),
                    self.texture,
                    tri_hand(
                        tri_sorted_ctx(
                            self.mesh,
                            self.transform_matrix,
                            raw_indices@[0] as int,
                            raw_indices@[1] as int,
                            raw_indices@[2] as int,
                            old(context).width_spec(),
                            old(context).height_spec(),
                        ),
                    ),
                    y,
                    x,
                    old(context).pix(x, y),
                ),
            !tri_visible(
                self.mesh,
                self.transform_matrix,
                raw_indices@[0] as int,
                raw_indices@[1] as int,
                raw_indices@[2] as int,
            ) ==> forall|x: int, y: int|
                0 <= x < old(context).width_spec() && 0 <= y < old(context).height_spec()
                    ==> #[trigger] final(context).pix(x, y) == old(context).pix(x, y),
    {
        let i0 = raw_indices[0];
        let i1 = raw_indices[1];
        let i2 = raw_indices[2];
        let tri_verts: [Vert4; 3] = [
            new_vertex(&self.mesh.positions[i0]),
            new_vertex(&self.mesh.positions[i1]),
            new_vertex(&self.mesh.positions[i2]),
        ];
        let tri_uvs: [UV; 3] = [self.mesh.uvs[i0], self.mesh.uvs[i1], self.mesh.uvs[i2]];
        proof {
            assert(tri_verts@[0] == vert4_of(self.mesh.positions@[i0 as int]));
            assert(tri_verts@[1] == vert4_of(self.mesh.positions@[i1 as int]));
            assert(tri_verts@[2] == vert4_of(self.mesh.positions@[i2 as int]));
        }
        let trans = self.transformed_vertices(&tri_verts);
        let tv = match trans {
            Some(tv) => tv,
            None => {
                return ;
            },
        };
        let area = triangle_signed_area(&tv[0], &tv[2], &tv[1]);
        if area.n <= 0 {
            return ;
        }
        let y0 = tv[0].yn;
        let y1 = tv[1].yn;
        let y2 = tv[2].yn;
        let ord: (usize, usize, usize) = if y0 <= y1 {
            if y1 <= y2 {
                (0, 1, 2)
            } else if y0 <= y2 {
                (0, 2, 1)
            } else {
                (2, 0, 1)
            }
        } else {
            if y0 <= y2 {
                (1, 0, 2)
            } else if y1 <= y2 {
                (1, 2, 0)
            } else {
                (2, 1, 0)
            }
        };
        let ovs: [ScreenVert; 3] = [tv[ord.0], tv[ord.1], tv[ord.2]];
        let ovvs: [UV; 3] = [tri_uvs[ord.0], tri_uvs[ord.1], tri_uvs[ord.2]];
        let ghost c = tri_sorted_ctx(
            self.mesh,
            self.transform_matrix,
            i0 as int,
            i1 as int,
            i2 as int,
            old(context).width_spec(),
            old(context).height_spec(),
        );
        proof {
            let sord = sort3(tv@[0]@.y, tv@[1]@.y, tv@[2]@.y);
            assert(ord.0 as int == sord.0 && ord.1 as int == sord.1 && ord.2 as int == sord.2);
            assert(c.p0 == ovs@[0]@ && c.p1 == ovs@[1]@ && c.p2 == ovs@[2]@);
            assert(c.t0 == ovvs@[0]@ && c.t1 == ovvs@[1]@ && c.t2 == ovvs@[2]@);
            lemma_sorted_dnum(tv@[0]@, tv@[1]@, tv@[2]@, sord.0, sord.1, sord.2);
            assert(tri_ctx_ok(c));
        }
        let cy0 = Rat { n: ovs[0].yn, d: SCALE }.ceil();
        let y_min: i128 = if cy0 >= 0 {
            cy0
        } else {
            0
        };
        let hvp = context.height();
        let cy2 = Rat { n: ovs[2].yn, d: SCALE }.ceil();
        let y_max: i128 = if cy2 <= hvp as i128 {
            cy2
        } else {
            hvp as i128
        };
        proof {
            assert(y_min == ymin_spec(c));
            assert(y_max == ymax_spec(c));
            lemma_rceil_mono(ry(c.p0), ry(c.p1));
            lemma_rceil_mono(ry(c.p1), ry(c.p2));
        }
        if y_max <= y_min {
            proof {
                assert(forall|s: int| row_ys(c, s) >= ymin_spec(c));
                assert(forall|e: int| row_ye(c, e) <= ymax_spec(c));
            }
            return ;
        }
        let mut top_to_bottom = Edge::new(&ovs, 0, 2, y_min, y_max, &ovvs);
        let mut top_to_middle = Edge::new(&ovs, 0, 1, y_min, y_max, &ovvs);
        let mut middle_to_bottom = Edge::new(&ovs, 1, 2, y_min, y_max, &ovvs);
        let handedness = {
            let h = triangle_signed_area(&ovs[0], &ovs[2], &ovs[1]);
            h.n >= 0
        };
        proof {
            assert(handedness == tri_hand(c));
        }
        self.scan_convert_edge_pair(
            context,
            &mut top_to_bottom,
            &mut top_to_middle,
            handedness,
            Ghost(c),
            Ghost(0int),
            Ghost(2int),
            Ghost(0int),
            Ghost(1int),
        );
        proof {
            let ys2 = row_ys(c, 1);
            let ye2 = row_ye(c, 2);
            let ys1 = row_ys(c, 0);
            let ye1 = row_ye(c, 1);
            if ys2 < ye2 {
                assert(rceil(ry(c.p1)) < ymax_spec(c));
                if ys1 < ye1 {
                    assert(ye1 == ys2);
                } else {
                    assert(ys1 == ys2);
                }
            }
        }
        self.scan_convert_edge_pair(
            context,
            &mut top_to_bottom,
            &mut middle_to_bottom,
            handedness,
            Ghost(c),
            Ghost(0int),
            Ghost(2int),
            Ghost(1int),
            Ghost(2int),
        );
    }
}

/// The sorted order of a culled triangle has a nonzero gradient
/// denominator, and its `y` keys ascend.
proof fn lemma_sorted_dnum(tv0: VertModel, tv1: VertModel, tv2: VertModel, s0: int, s1: int, s2: int)
    requires
        (s0, s1, s2) == sort3(tv0.y, tv1.y, tv2.y),
        area_num(tv0, tv2, tv1) != 0,
    ensures
        dnum(vsel(tv0, tv1, tv2, s0), vsel(tv0, tv1, tv2, s1), vsel(tv0, tv1, tv2, s2)) != 0,
        vsel(tv0, tv1, tv2, s0).y <= vsel(tv0, tv1, tv2, s1).y,
        vsel(tv0, tv1, tv2, s1).y <= vsel(tv0, tv1, tv2, s2).y,
{
    lemma_area_swap(tv0, tv1, tv2);
    lemma_area_swap(tv0, tv2, tv1);
    lemma_dnum_is_area(tv0, tv1, tv2);
    lemma_dnum_is_area(tv0, tv2, tv1);
    lemma_dnum_is_area(tv1, tv0, tv2);
    lemma_dnum_is_area(tv1, tv2, tv0);
    lemma_dnum_is_area(tv2, tv0, tv1);
    lemma_dnum_is_area(tv2, tv1, tv0);
}

/// Row coverage: the rows walked by the two edge pairs of a triangle
/// are disjoint, and together they cover exactly the triangle's row
/// range `[row_ys(c, 0), row_ye(c, 2))` — no gaps, no duplicates.
pub proof fn lemma_row_coverage(c: TriCtx, j: int)
    requires
        tri_ctx_ok(c),
    ensures
        ((row_ys(c, 0) <= j < row_ye(c, 1)) || (row_ys(c, 1) <= j < row_ye(c, 2))) <==> (row_ys(
            c,
            0,
        ) <= j < row_ye(c, 2)),
        !((row_ys(c, 0) <= j < row_ye(c, 1)) && (row_ys(c, 1) <= j < row_ye(c, 2))),
{
    lemma_rceil_mono(ry(c.p0), ry(c.p1));
    lemma_rceil_mono(ry(c.p1), ry(c.p2));
}

/// Degenerate guard: a triangle whose three vertices share one `y` has
/// zero signed area, so the facing test culls it and no row is drawn.
pub proof fn lemma_flat_triangle_zero_area(a: VertModel, b: VertModel, c: VertModel)
    by (nonlinear_arith)
    requires
        a.y == b.y,
        b.y == c.y,
    ensures
        area_num(a, b, c) == 0,
{
}

/// Handedness invariance: with pairwise distinct transformed `y`
/// coordinates, swapping the winding order of a triangle's vertices
/// yields the same sorted context — so the same rows, spans and colors
/// — while [`lemma_area_swap`] shows the facing sign flips.
pub proof fn lemma_winding_sorted(
    m: Mesh,
    t: Mat4x,
    i0: int,
    i1: int,
    i2: int,
    w: int,
    h: int,
)
    requires
        xform_vert(t, vert4_of(m.positions@[i0])).y != xform_vert(t, vert4_of(m.positions@[i1])).y,
        xform_vert(t, vert4_of(m.positions@[i1])).y != xform_vert(t, vert4_of(m.positions@[i2])).y,
        xform_vert(t, vert4_of(m.positions@[i0])).y != xform_vert(t, vert4_of(m.positions@[i2])).y,
    ensures
        tri_sorted_ctx(m, t, i0, i2, i1, w, h) == tri_sorted_ctx(m, t, i0, i1, i2, w, h),
{
}

/// Handedness invariance at the pixel level: both winding orders of
/// one triangle (with distinct `y` coordinates) produce the same pixel
/// value everywhere — the swapped winding flips the signed area, but
/// the sorted context, and with it every span and color, is unchanged.
pub proof fn lemma_winding_same_pixels(
    m: Mesh,
    t: Mat4x,
    i0: int,
    i1: int,
    i2: int,
    w: int,
    h: int,
    tex: Bitmap,
    y: int,
    x: int,
    base: [u8; 4],
)
    requires
        xform_vert(t, vert4_of(m.positions@[i0])).y != xform_vert(t, vert4_of(m.positions@[i1])).y,
        xform_vert(t, vert4_of(m.positions@[i1])).y != xform_vert(t, vert4_of(m.positions@[i2])).y,
        xform_vert(t, vert4_of(m.positions@[i0])).y != xform_vert(t, vert4_of(m.positions@[i2])).y,
    ensures
        tri_pix(
            tri_sorted_ctx(m, t, i0, i2, i1, w, h),
            tex,
            tri_hand(tri_sorted_ctx(m, t, i0, i2, i1, w, h)),
            y,
            x,
            base,
        ) == tri_pix(
            tri_sorted_ctx(m, t, i0, i1, i2, w, h),
            tex,
            tri_hand(tri_sorted_ctx(m, t, i0, i1, i2, w, h)),
            y,
            x,
            base,
        ),
{
    lemma_winding_sorted(m, t, i0, i1, i2, w, h);
}

/// Perspective correctness: dividing the screen-interpolated `u/w` by
/// the screen-interpolated `1/w` yields the barycentric combination of
/// the vertex attributes whose weights are the screen weights scaled by
/// each vertex's `1/w` — the true, depth-compensated interpolation.
/// `an, bn, cn` are the screen-space weights over the denominator `wd`;
/// `u0, u1, u2` the vertex attribute; `iw0, iw1, iw2` the inverse `w`s.
pub proof fn lemma_perspective_correct(
    an: int,
    bn: int,
    cn: int,
    wd: int,
    u0: int,
    u1: int,
    u2: int,
    iw0: int,
    iw1: int,
    iw2: int,
)
    by (nonlinear_arith)
    requires
        wd > 0,
        an * iw0 + bn * iw1 + cn * iw2 > 0,
    ensures
        rok(
            rdiv(
                Ratio { n: an * (u0 * iw0) + bn * (u1 * iw1) + cn * (u2 * iw2), d: wd },
                Ratio { n: an * iw0 + bn * iw1 + cn * iw2, d: wd },
            ),
        ),
        rat_eq(
            rdiv(
                Ratio { n: an * (u0 * iw0) + bn * (u1 * iw1) + cn * (u2 * iw2), d: wd },
                Ratio { n: an * iw0 + bn * iw1 + cn * iw2, d: wd },
            ),
            Ratio {
                n: (an * iw0) * u0 + (bn * iw1) * u1 + (cn * iw2) * u2,
                d: an * iw0 + bn * iw1 + cn * iw2,
            },
        ),
{
}

impl<R: Renderable> RenderSystem<R> for Scanline {
    open spec fn render_req(&self, context: R) -> bool {
        &&& mesh_ok(self.mesh)
        &&& bitmap_ok(self.texture)
        &&& mat_ok(self.transform_matrix)
        &&& context.wf()
        &&& 0 < context.width_spec() <= HMAX as int
        &&& 0 < context.height_spec() <= HMAX as int
    }

    open spec fn render_ens(&self, pre: R, post: R) -> bool {
        &&& post.wf()
        &&& post.width_spec() == pre.width_spec()
        &&& post.height_spec() == pre.height_spec()
        &&& forall|x: int, y: int|
            0 <= x < pre.width_spec() && 0 <= y < pre.height_spec() ==> #[trigger] post.pix(x, y)
                == mesh_pix(
                *self,
                pre.width_spec(),
                pre.height_spec(),
                self.mesh.indices@.len() as int / 3,
                y,
                x,
                pre.pix(x, y),
            )
    }

    /// Rasterize every complete triangle of the mesh, in order.
    #[verifier::loop_isolation(false)]
    fn render(&self, context: &mut R) {
        let n: usize = self.mesh.indices.len() / 3;
        proof {
            vstd::arithmetic::div_mod::lemma_fundamental_div_mod(
                self.mesh.indices@.len() as int,
                3,
            );
        }
        let mut t: usize = 0;
        while t < n
            invariant
                t <= n,
                context.wf(),
                context.width_spec() == old(context).width_spec(),
                context.height_spec() == old(context).height_spec(),
                forall|x: int, y: int|
                    0 <= x < old(context).width_spec() && 0 <= y < old(context).height_spec()
                        ==> #[trigger] context.pix(x, y) == mesh_pix(
                        *self,
                        old(context).width_spec(),
                        old(context).height_spec(),
                        t as int,
                        y,
                        x,
                        old(context).pix(x, y),
                    ),
            decreases n - t,
        {
            let triangle_indices = vstd::slice::slice_subrange(
                self.mesh.indices.as_slice(),
                3 * t,
                3 * t + 3,
            );
            self.scan_convert_triangle(triangle_indices, context);
            t = t + 1;
        }
    }
}

} // verus!
