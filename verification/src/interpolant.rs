//! Attribute interpolation over a triangle.
//!
//! Given a triangle's screen positions and one scalar attribute per
//! vertex, an [`Interpolant`] carries the attribute value at the current
//! scanline row of one edge, together with the constant per-row step
//! derived from the attribute's plane gradient. All quantities are exact
//! fractions held over one triangle-wide denominator [`qden`], so two
//! interpolants of the same triangle can be combined without rescaling.

use vstd::prelude::*;
use crate::rat::{Rat, Ratio, rok, rat_eq, radd, rsub, rmul, rceil, mulb, lemma_rceil_char};

verus! {

/// Subpixel scale of screen coordinates: a numerator `n` denotes the
/// coordinate `n / SCALE`, in pixels.
pub const SCALE: i128 = 8;

/// Scale of texture coordinates: a numerator `n` denotes `n / ASCALE`.
pub const ASCALE: i128 = 256;

/// Scale of the per-vertex interpolated attributes (`uv/w` and `1/w`).
pub const AA: i128 = ASCALE * ASCALE;

/// Bound on coordinate numerators: coordinates stay within 512 pixels.
pub const CMAX: i128 = 4096;

/// Bound on inverse-w numerators (at scale `ASCALE`).
pub const IWMAX: i128 = 32768;

/// Bound on attribute numerators (at scale `AA`).
pub const AMAX: i128 = ASCALE * IWMAX;

/// Bound on viewport dimensions, in pixels.
pub const HMAX: i128 = 512;

/// Bound on the numerator of a freshly built interpolant value.
pub const IV0B: i128 = 0x8000_0000_0000_0000_0000_0000;

/// Bound on an interpolant value numerator at any visited row.
pub const IVB: i128 = 0x2_0000_0000_0000_0000_0000_0000;

/// Bound on interpolant step numerators.
pub const ISTB: i128 = 0x20_0000_0000_0000_0000_0000;

/// Bound on the triangle-wide denominator [`qden`].
pub const QDB: i128 = 0x400_0000_0000_0000_0000_0000;

/// Model of a screen-space vertex: `x`, `y`, `z` are numerators at scale
/// `SCALE`; `iw` is the numerator of `1/w` at scale `ASCALE`.
pub ghost struct VertModel {
    pub x: int,
    pub y: int,
    pub z: int,
    pub iw: int,
}

/// A screen-space vertex after perspective division. `xn`, `yn`, `zn`
/// are fixed-point at scale [`SCALE`]; `iwn` holds the inverse of the
/// pre-division `w`, fixed-point at scale [`ASCALE`].
#[derive(Clone, Copy)]
pub struct ScreenVert {
    pub xn: i128,
    pub yn: i128,
    pub zn: i128,
    pub iwn: i128,
}

impl View for ScreenVert {
    type V = VertModel;

    open spec fn view(&self) -> VertModel {
        VertModel { x: self.xn as int, y: self.yn as int, z: self.zn as int, iw: self.iwn as int }
    }
}

/// The vertex is inside the coordinate range the rasterizer supports,
/// and comes from a point in front of the viewer (`1/w > 0`).
pub open spec fn vert_ok(v: VertModel) -> bool {
    &&& -(CMAX as int) <= v.x <= CMAX as int
    &&& -(CMAX as int) <= v.y <= CMAX as int
    &&& -(CMAX as int) <= v.z <= CMAX as int
    &&& 0 < v.iw <= IWMAX as int
}

/// Three vertices in range, sorted by ascending `y`.
pub open spec fn tri_ok(p0: VertModel, p1: VertModel, p2: VertModel) -> bool {
    &&& vert_ok(p0)
    &&& vert_ok(p1)
    &&& vert_ok(p2)
    &&& p0.y <= p1.y
    &&& p1.y <= p2.y
}

/// The attribute numerator (at scale `AA`) is in range.
pub open spec fn attr_ok(a: int) -> bool {
    -(AMAX as int) <= a <= AMAX as int
}

pub open spec fn iabs(x: int) -> int {
    if x >= 0 {
        x
    } else {
        -x
    }
}

/// `n` multiplied by the sign of `s` (with `sgn(0) == 1`).
pub open spec fn sgn_adj(n: int, s: int) -> int {
    if s >= 0 {
        n
    } else {
        -n
    }
}

/// The `x` coordinate of a vertex as a fraction of pixels.
pub open spec fn rx(v: VertModel) -> Ratio {
    Ratio { n: v.x, d: SCALE as int }
}

/// The `y` coordinate of a vertex as a fraction of pixels.
pub open spec fn ry(v: VertModel) -> Ratio {
    Ratio { n: v.y, d: SCALE as int }
}

/// Gradient denominator: `(P1.x-P2.x)(P0.y-P2.y) - (P0.x-P2.x)(P1.y-P2.y)`
/// on coordinate numerators. This is twice the triangle's signed area
/// times `SCALE * SCALE`; zero exactly for a degenerate triangle.
pub open spec fn dnum(p0: VertModel, p1: VertModel, p2: VertModel) -> int {
    (p1.x - p2.x) * (p0.y - p2.y) - (p0.x - p2.x) * (p1.y - p2.y)
}

/// Numerator of `dA/dx`: `(A1-A2)(P0.y-P2.y) - (A0-A2)(P1.y-P2.y)`.
pub open spec fn gxnum(p0: VertModel, p1: VertModel, p2: VertModel, a0: int, a1: int, a2: int) -> int {
    (a1 - a2) * (p0.y - p2.y) - (a0 - a2) * (p1.y - p2.y)
}

/// Numerator of the (negated) `dA/dy`: `(A1-A2)(P0.x-P2.x) - (A0-A2)(P1.x-P2.x)`.
pub open spec fn gynum(p0: VertModel, p1: VertModel, p2: VertModel, a0: int, a1: int, a2: int) -> int {
    (a1 - a2) * (p0.x - p2.x) - (a0 - a2) * (p1.x - p2.x)
}

/// The `y` extent of an edge in coordinate numerators, forced to at
/// least 1 so it can serve as a denominator. For every edge that is
/// actually walked the extent is positive and the forcing is inert.
pub open spec fn dypos(ps: VertModel, pe: VertModel) -> int {
    if pe.y - ps.y >= 1 {
        pe.y - ps.y
    } else {
        1
    }
}

/// Select one of the three vertices by index.
pub open spec fn vsel(p0: VertModel, p1: VertModel, p2: VertModel, i: int) -> VertModel {
    if i == 0 {
        p0
    } else if i == 1 {
        p1
    } else {
        p2
    }
}

/// Select one of the three attribute numerators by index.
pub open spec fn asel(a0: int, a1: int, a2: int, i: int) -> int {
    if i == 0 {
        a0
    } else if i == 1 {
        a1
    } else {
        a2
    }
}

/// Numerator of `dA/dx` over the denominator [`gden`].
pub open spec fn gxn_s(p0: VertModel, p1: VertModel, p2: VertModel, a0: int, a1: int, a2: int) -> int {
    sgn_adj(gxnum(p0, p1, p2, a0, a1, a2), dnum(p0, p1, p2)) * (SCALE as int)
}

/// Numerator of `dA/dy` over the denominator [`gden`].
pub open spec fn gyn_s(p0: VertModel, p1: VertModel, p2: VertModel, a0: int, a1: int, a2: int) -> int {
    (-sgn_adj(gynum(p0, p1, p2, a0, a1, a2), dnum(p0, p1, p2))) * (SCALE as int)
}

/// Common (positive) denominator of both gradient components.
pub open spec fn gden(p0: VertModel, p1: VertModel, p2: VertModel) -> int {
    (AA as int) * iabs(dnum(p0, p1, p2))
}

/// The attribute gradient in `x` as a fraction, per pixel.
pub open spec fn grad_x_rat(p0: VertModel, p1: VertModel, p2: VertModel, a0: int, a1: int, a2: int) -> Ratio {
    Ratio { n: gxn_s(p0, p1, p2, a0, a1, a2), d: gden(p0, p1, p2) }
}

/// The attribute gradient in `y` as a fraction, per pixel.
pub open spec fn grad_y_rat(p0: VertModel, p1: VertModel, p2: VertModel, a0: int, a1: int, a2: int) -> Ratio {
    Ratio { n: gyn_s(p0, p1, p2, a0, a1, a2), d: gden(p0, p1, p2) }
}

/// The triangle-wide positive denominator all interpolant values of one
/// triangle are held over.
pub open spec fn qden(p0: VertModel, p1: VertModel, p2: VertModel) -> int {
    (AA as int) * (SCALE as int) * iabs(dnum(p0, p1, p2)) * dypos(p0, p1) * dypos(p0, p2) * dypos(
        p1,
        p2,
    )
}

/// The factor that lifts a value held over this edge's own denominator
/// to the triangle-wide denominator [`qden`]: the `y` extents of the
/// other two edges.
pub open spec fn mfac(p0: VertModel, p1: VertModel, p2: VertModel, s: int, e: int) -> int {
    if s == 0 && e == 1 {
        dypos(p0, p2) * dypos(p1, p2)
    } else if s == 0 && e == 2 {
        dypos(p0, p1) * dypos(p1, p2)
    } else {
        dypos(p0, p1) * dypos(p0, p2)
    }
}

/// `dx/dy` of the edge from `ps` to `pe`.
pub open spec fn slope_rat(ps: VertModel, pe: VertModel) -> Ratio {
    Ratio { n: pe.x - ps.x, d: dypos(ps, pe) }
}

/// Vertical prestep from the edge's start vertex down to row `ystart`,
/// as a numerator at scale `SCALE`.
pub open spec fn yprestep(ps: VertModel, ystart: int) -> int {
    ystart * (SCALE as int) - ps.y
}

/// Numerator (over [`qden`]) of the interpolant's constant per-row step
/// `dA/dy + dA/dx * dx_over_dy` along edge `(s, e)`.
pub open spec fn istep_num(
    p0: VertModel,
    p1: VertModel,
    p2: VertModel,
    a0: int,
    a1: int,
    a2: int,
    s: int,
    e: int,
) -> int {
    let ps = vsel(p0, p1, p2, s);
    let pe = vsel(p0, p1, p2, e);
    (gyn_s(p0, p1, p2, a0, a1, a2) * dypos(ps, pe) + gxn_s(p0, p1, p2, a0, a1, a2) * (pe.x - ps.x))
        * (SCALE as int) * mfac(p0, p1, p2, s, e)
}

/// Numerator (over [`qden`]) of the interpolant value at row `ystart`:
/// the start vertex's attribute plus the gradient dotted with the
/// prestep to that row.
pub open spec fn ival0_num(
    p0: VertModel,
    p1: VertModel,
    p2: VertModel,
    a0: int,
    a1: int,
    a2: int,
    s: int,
    e: int,
    ystart: int,
) -> int {
    let ps = vsel(p0, p1, p2, s);
    let pe = vsel(p0, p1, p2, e);
    let ypn = yprestep(ps, ystart);
    (asel(a0, a1, a2, s) * iabs(dnum(p0, p1, p2)) * (SCALE as int) * dypos(ps, pe) + gxn_s(
        p0,
        p1,
        p2,
        a0,
        a1,
        a2,
    ) * ypn * (pe.x - ps.x) + gyn_s(p0, p1, p2, a0, a1, a2) * ypn * dypos(ps, pe)) * mfac(
        p0,
        p1,
        p2,
        s,
        e,
    )
}

/// Numerator (over [`qden`]) of the interpolant value at row `j`.
pub open spec fn ival_num(
    p0: VertModel,
    p1: VertModel,
    p2: VertModel,
    a0: int,
    a1: int,
    a2: int,
    s: int,
    e: int,
    ystart: int,
    j: int,
) -> int {
    ival0_num(p0, p1, p2, a0, a1, a2, s, e, ystart) + (j - ystart) * istep_num(
        p0,
        p1,
        p2,
        a0,
        a1,
        a2,
        s,
        e,
    )
}

/// The attribute plane spanned by the gradient: the anchor vertex's
/// value plus the gradient dotted with the offset from the anchor.
pub open spec fn plane_at(
    p0: VertModel,
    p1: VertModel,
    p2: VertModel,
    a0: int,
    a1: int,
    a2: int,
    s: int,
    x: Ratio,
    y: Ratio,
) -> Ratio {
    radd(
        radd(
            Ratio { n: asel(a0, a1, a2, s), d: AA as int },
            rmul(grad_x_rat(p0, p1, p2, a0, a1, a2), rsub(x, rx(vsel(p0, p1, p2, s)))),
        ),
        rmul(grad_y_rat(p0, p1, p2, a0, a1, a2), rsub(y, ry(vsel(p0, p1, p2, s)))),
    )
}

/// Gradient correctness, integer form: clearing denominators, the
/// plane anchored at the third vertex passes through the other two.
pub proof fn lemma_gradient_plane(
    p0: VertModel,
    p1: VertModel,
    p2: VertModel,
    a0: int,
    a1: int,
    a2: int,
)
    ensures
        a0 * dnum(p0, p1, p2) == a2 * dnum(p0, p1, p2) + gxnum(p0, p1, p2, a0, a1, a2) * (p0.x
            - p2.x) - gynum(p0, p1, p2, a0, a1, a2) * (p0.y - p2.y),
        a1 * dnum(p0, p1, p2) == a2 * dnum(p0, p1, p2) + gxnum(p0, p1, p2, a0, a1, a2) * (p1.x
            - p2.x) - gynum(p0, p1, p2, a0, a1, a2) * (p1.y - p2.y),
{
    let d = dnum(p0, p1, p2);
    let gx = gxnum(p0, p1, p2, a0, a1, a2);
    let gy = gynum(p0, p1, p2, a0, a1, a2);
    let xa = p0.x - p2.x;
    let xb = p1.x - p2.x;
    let ya = p0.y - p2.y;
    let yb = p1.y - p2.y;
    let aa_ = a0 - a2;
    let ab_ = a1 - a2;
    assert(aa_ * d == gx * xa - gy * ya) by (nonlinear_arith)
        requires
            d == xb * ya - xa * yb,
            gx == ab_ * ya - aa_ * yb,
            gy == ab_ * xa - aa_ * xb,
    ;
    assert(ab_ * d == gx * xb - gy * yb) by (nonlinear_arith)
        requires
            d == xb * ya - xa * yb,
            gx == ab_ * ya - aa_ * yb,
            gy == ab_ * xa - aa_ * xb,
    ;
    assert(a0 * d == a2 * d + aa_ * d) by (nonlinear_arith)
        requires
            aa_ == a0 - a2,
    ;
    assert(a1 * d == a2 * d + ab_ * d) by (nonlinear_arith)
        requires
            ab_ == a1 - a2,
    ;
}

/// Gradient correctness: for a non-degenerate triangle, evaluating the
/// gradient plane at any of the three vertex positions reproduces that
/// vertex's attribute value exactly.
pub proof fn lemma_gradient_correct(
    p0: VertModel,
    p1: VertModel,
    p2: VertModel,
    a0: int,
    a1: int,
    a2: int,
    i: int,
)
    requires
        dnum(p0, p1, p2) != 0,
        0 <= i < 3,
    ensures
        rok(plane_at(p0, p1, p2, a0, a1, a2, 2, rx(vsel(p0, p1, p2, i)), ry(vsel(p0, p1, p2, i)))),
        rat_eq(
            plane_at(p0, p1, p2, a0, a1, a2, 2, rx(vsel(p0, p1, p2, i)), ry(vsel(p0, p1, p2, i))),
            Ratio { n: asel(a0, a1, a2, i), d: AA as int },
        ),
{
    let d = dnum(p0, p1, p2);
    let gx = gxnum(p0, p1, p2, a0, a1, a2);
    let gy = gynum(p0, p1, p2, a0, a1, a2);
    let adn = iabs(d);
    let sgx = sgn_adj(gx, d);
    let sgy = -sgn_adj(gy, d);
    lemma_gradient_plane(p0, p1, p2, a0, a1, a2);
    let pi = vsel(p0, p1, p2, i);
    let ai = asel(a0, a1, a2, i);
    if i == 0 {
        assert(ai * d == a2 * d + gx * (pi.x - p2.x) - gy * (pi.y - p2.y));
    } else if i == 1 {
        assert(ai * d == a2 * d + gx * (pi.x - p2.x) - gy * (pi.y - p2.y));
    } else {
        assert(pi == p2 && ai == a2);
        assert(gx * (pi.x - p2.x) == 0) by (nonlinear_arith)
            requires
                pi.x - p2.x == 0,
        ;
        assert(gy * (pi.y - p2.y) == 0) by (nonlinear_arith)
            requires
                pi.y - p2.y == 0,
        ;
        assert(ai * d == a2 * d + gx * (pi.x - p2.x) - gy * (pi.y - p2.y));
    }
    let dx = pi.x - p2.x;
    let dy = pi.y - p2.y;
    if d >= 0 {
        assert(ai * adn == a2 * adn + sgx * dx + sgy * dy) by (nonlinear_arith)
            requires
                adn == d,
                sgx == gx,
                sgy == -gy,
                ai * d == a2 * d + gx * dx - gy * dy,
        ;
    } else {
        assert(ai * adn == a2 * adn + sgx * dx + sgy * dy) by (nonlinear_arith)
            requires
                adn == -d,
                sgx == -gx,
                sgy == gy,
                ai * d == a2 * d + gx * dx - gy * dy,
        ;
    }
    let lhs = plane_at(p0, p1, p2, a0, a1, a2, 2, rx(pi), ry(pi));
    let mn = (sgx * 8) * (pi.x * 8 - p2.x * 8);
    let md = (65536 * adn) * 64;
    let on = (sgy * 8) * (pi.y * 8 - p2.y * 8);
    let inner_n = a2 * md + mn * 65536;
    let inner_d = 65536 * md;
    assert(AA == 65536 && SCALE == 8);
    assert(adn >= 1);
    assert(lhs.n == inner_n * md + on * inner_d);
    assert(lhs.d == inner_d * md);
    assert(a2 * md + mn * 65536 + on * 65536 == ai * md) by (nonlinear_arith)
        requires
            md == (65536 * adn) * 64,
            mn == (sgx * 8) * (dx * 8),
            on == (sgy * 8) * (dy * 8),
            ai * adn == a2 * adn + sgx * dx + sgy * dy,
    ;
    assert(lhs.n * 65536 == ai * lhs.d) by (nonlinear_arith)
        requires
            lhs.n == inner_n * md + on * inner_d,
            lhs.d == inner_d * md,
            inner_n == a2 * md + mn * 65536,
            inner_d == 65536 * md,
            a2 * md + mn * 65536 + on * 65536 == ai * md,
    ;
    assert(lhs.d > 0) by (nonlinear_arith)
        requires
            lhs.d == inner_d * md,
            inner_d == 65536 * md,
            md == (65536 * adn) * 64,
            adn >= 1,
    ;
}

/// Model of a texture coordinate: numerators of `u` and `v` at scale
/// `ASCALE`, both within `[0, 1]` of texture space.
pub ghost struct UVModel {
    pub u: int,
    pub v: int,
}

/// A texture coordinate, fixed-point at scale [`ASCALE`].
#[derive(Clone, Copy)]
pub struct UV {
    pub un: i128,
    pub vn: i128,
}

impl View for UV {
    type V = UVModel;

    open spec fn view(&self) -> UVModel {
        UVModel { u: self.un as int, v: self.vn as int }
    }
}

/// The texture coordinate lies in the unit square.
pub open spec fn uv_ok(t: UVModel) -> bool {
    0 <= t.u <= ASCALE as int && 0 <= t.v <= ASCALE as int
}

/// Numerator (at scale `AA`) of the perspective-ready attribute `u/w`.
pub open spec fn uw_attr(v: VertModel, t: UVModel) -> int {
    t.u * v.iw
}

/// Numerator (at scale `AA`) of the perspective-ready attribute `v/w`.
pub open spec fn vw_attr(v: VertModel, t: UVModel) -> int {
    t.v * v.iw
}

/// Numerator (at scale `AA`) of the attribute `1/w`.
pub open spec fn iw_attr(v: VertModel) -> int {
    v.iw * (ASCALE as int)
}

/// Current attribute value along one triangle edge, advanced one row at
/// a time. `value` and `step` are fractions over the triangle-wide
/// denominator [`qden`].
pub struct Interpolant {
    pub value: Rat,
    pub step: Rat,
}

/// The interpolant belongs to edge `(s, e)` of the given triangle,
/// started at row `ystart`, and currently holds the value for row `j`.
pub open spec fn interp_at(
    it: Interpolant,
    p0: VertModel,
    p1: VertModel,
    p2: VertModel,
    a0: int,
    a1: int,
    a2: int,
    s: int,
    e: int,
    ystart: int,
    j: int,
) -> bool {
    &&& it.value.d == qden(p0, p1, p2)
    &&& it.step.d == qden(p0, p1, p2)
    &&& it.step.n == istep_num(p0, p1, p2, a0, a1, a2, s, e)
    &&& it.value.n == ival_num(p0, p1, p2, a0, a1, a2, s, e, ystart, j)
    &&& -(IV0B as int) <= ival0_num(p0, p1, p2, a0, a1, a2, s, e, ystart) <= IV0B as int
    &&& -(ISTB as int) <= it.step.n <= ISTB as int
    &&& 0 < it.value.d <= QDB as int
}

impl Interpolant {
    /// The per-pixel attribute gradient `(dA/dx, dA/dy)` of the
    /// triangle's plane, computed by the area-ratio formulas.
    fn calculate_gradient(vertex_positions: &[ScreenVert; 3], vertex_values: &[i128; 3]) -> (g: (
        Rat,
        Rat,
    ))
        requires
            tri_ok(vertex_positions@[0]@, vertex_positions@[1]@, vertex_positions@[2]@),
            attr_ok(vertex_values@[0] as int),
            attr_ok(vertex_values@[1] as int),
            attr_ok(vertex_values@[2] as int),
            dnum(vertex_positions@[0]@, vertex_positions@[1]@, vertex_positions@[2]@) != 0,
        ensures
            g.0@ == grad_x_rat(
                vertex_positions@[0]@,
                vertex_positions@[1]@,
                vertex_positions@[2]@,
                vertex_values@[0] as int,
                vertex_values@[1] as int,
                vertex_values@[2] as int,
            ),
            g.1@ == grad_y_rat(
                vertex_positions@[0]@,
                vertex_positions@[1]@,
                vertex_positions@[2]@,
                vertex_values@[0] as int,
                vertex_values@[1] as int,
                vertex_values@[2] as int,
            ),
            0 < g.0@.d <= 0x800_0000_0000 as int,
            -0x200_0000_0000 <= g.0@.n <= 0x200_0000_0000,
            -0x200_0000_0000 <= g.1@.n <= 0x200_0000_0000,
            g.1@.d == g.0@.d,
    {
        let vp0 = vertex_positions[0];
        let vp1 = vertex_positions[1];
        let vp2 = vertex_positions[2];
        let vv0 = vertex_values[0];
        let vv1 = vertex_values[1];
        let vv2 = vertex_values[2];
        let t1 = mulb(vp1.xn - vp2.xn, vp0.yn - vp2.yn, Ghost(8192), Ghost(8192));
        let t2 = mulb(vp0.xn - vp2.xn, vp1.yn - vp2.yn, Ghost(8192), Ghost(8192));
        let dn = t1 - t2;
        let g1 = mulb(vv1 - vv2, vp0.yn - vp2.yn, Ghost(2 * AMAX as int), Ghost(8192));
        let g2 = mulb(vv0 - vv2, vp1.yn - vp2.yn, Ghost(2 * AMAX as int), Ghost(8192));
        let gxn = g1 - g2;
        let h1 = mulb(vv1 - vv2, vp0.xn - vp2.xn, Ghost(2 * AMAX as int), Ghost(8192));
        let h2 = mulb(vv0 - vv2, vp1.xn - vp2.xn, Ghost(2 * AMAX as int), Ghost(8192));
        let gyn = h1 - h2;
        let adn: i128 = if dn >= 0 { dn } else { -dn };
        let gxs: i128 = if dn >= 0 { gxn } else { -gxn };
        let gys: i128 = if dn >= 0 { gyn } else { -gyn };
        let gd = mulb(AA, adn, Ghost(65536), Ghost(0x800_0000 as int));
        let gxr = mulb(gxs, SCALE, Ghost(0x40_0000_0000 as int), Ghost(8));
        let gyr = mulb(-gys, SCALE, Ghost(0x40_0000_0000 as int), Ghost(8));
        (Rat { n: gxr, d: gd }, Rat { n: gyr, d: gd })
    }

    /// Build the interpolant for edge `(start, end)` of a sorted
    /// triangle: the value for row `y_start` and the per-row step.
    /// `dx_over_dy` must be the edge's slope; the prestep from the start
    /// vertex down to `y_start` is applied here.
    pub fn new(
        start: usize,
        end: usize,
        vertex_positions: &[ScreenVert; 3],
        vertex_values: &[i128; 3],
        dx_over_dy: &Rat,
        y_start: i128,
    ) -> (r: Interpolant)
        requires
            (start == 0 && end == 1) || (start == 0 && end == 2) || (start == 1 && end == 2),
            tri_ok(vertex_positions@[0]@, vertex_positions@[1]@, vertex_positions@[2]@),
            attr_ok(vertex_values@[0] as int),
            attr_ok(vertex_values@[1] as int),
            attr_ok(vertex_values@[2] as int),
            dnum(vertex_positions@[0]@, vertex_positions@[1]@, vertex_positions@[2]@) != 0,
            dx_over_dy@ == slope_rat(
                vertex_positions@[start as int]@,
                vertex_positions@[end as int]@,
            ),
            rceil(ry(vertex_positions@[start as int]@)) <= y_start <= HMAX,
        ensures
            interp_at(
                r,
                vertex_positions@[0]@,
                vertex_positions@[1]@,
                vertex_positions@[2]@,
                vertex_values@[0] as int,
                vertex_values@[1] as int,
                vertex_values@[2] as int,
                start as int,
                end as int,
                y_start as int,
                y_start as int,
            ),
            -IV0B <= r.value.n <= IV0B,
            -ISTB <= r.step.n <= ISTB,
            0 < r.value.d <= QDB,
    {
        let ghost p0 = vertex_positions@[0]@;
        let ghost p1 = vertex_positions@[1]@;
        let ghost p2 = vertex_positions@[2]@;
        let (gx, gy) = Interpolant::calculate_gradient(vertex_positions, vertex_values);
        let vp0 = vertex_positions[0];
        let vp1 = vertex_positions[1];
        let vp2 = vertex_positions[2];
        let t1 = mulb(vp1.xn - vp2.xn, vp0.yn - vp2.yn, Ghost(8192), Ghost(8192));
        let t2 = mulb(vp0.xn - vp2.xn, vp1.yn - vp2.yn, Ghost(8192), Ghost(8192));
        let dn = t1 - t2;
        let adn: i128 = if dn >= 0 { dn } else { -dn };
        let dyp01: i128 = if vp1.yn - vp0.yn >= 1 { vp1.yn - vp0.yn } else { 1 };
        let dyp02: i128 = if vp2.yn - vp0.yn >= 1 { vp2.yn - vp0.yn } else { 1 };
        let dyp12: i128 = if vp2.yn - vp1.yn >= 1 { vp2.yn - vp1.yn } else { 1 };
        proof {
            assert(AA * SCALE == 524288);
        }
        let q1 = mulb(AA * SCALE, adn, Ghost(524288), Ghost(0x800_0000 as int));
        let q2 = mulb(q1, dyp01, Ghost(0x4000_0000_0000 as int), Ghost(8192));
        let q3 = mulb(q2, dyp02, Ghost(0x800_0000_0000_0000 as int), Ghost(8192));
        let q = mulb(q3, dyp12, Ghost(0x100_0000_0000_0000_0000 as int), Ghost(8192));
        proof {
            assert(q1 > 0 && q2 > 0 && q3 > 0 && q > 0) by (nonlinear_arith)
                requires
                    q1 == 524288 * adn,
                    q2 == q1 * dyp01,
                    q3 == q2 * dyp02,
                    q == q3 * dyp12,
                    adn >= 1,
                    dyp01 >= 1,
                    dyp02 >= 1,
                    dyp12 >= 1,
            ;
        }
        let mf: i128 = if start == 0 && end == 1 {
            mulb(dyp02, dyp12, Ghost(8192), Ghost(8192))
        } else if start == 0 && end == 2 {
            mulb(dyp01, dyp12, Ghost(8192), Ghost(8192))
        } else {
            mulb(dyp01, dyp02, Ghost(8192), Ghost(8192))
        };
        let a_s = vertex_values[start];
        let ps = vertex_positions[start];
        proof {
            let psm = vertex_positions@[start as int]@;
            lemma_rceil_char(ry(psm), rceil(ry(psm)));
            assert(SCALE == 8);
            assert(-513 <= y_start <= 512);
        }
        let ysc = mulb(y_start, SCALE, Ghost(4096), Ghost(8));
        let ypn = ysc - ps.yn;
        let sn = dx_over_dy.n;
        let sd = dx_over_dy.d;
        proof {
            assert(0 <= ypn <= 8192);
        }
        let u1 = mulb(a_s, adn, Ghost(AMAX as int), Ghost(0x800_0000 as int));
        let u1s = mulb(u1, SCALE, Ghost(0x4_0000_0000_0000 as int), Ghost(8));
        let u2 = mulb(u1s, sd, Ghost(0x20_0000_0000_0000 as int), Ghost(8192));
        let v1 = mulb(gx.n, ypn, Ghost(0x200_0000_0000 as int), Ghost(8192));
        let v2 = mulb(v1, sn, Ghost(0x40_0000_0000_0000 as int), Ghost(8192));
        let w1 = mulb(gy.n, ypn, Ghost(0x200_0000_0000 as int), Ghost(8192));
        let w2 = mulb(w1, sd, Ghost(0x40_0000_0000_0000 as int), Ghost(8192));
        let val0 = mulb(
            u2 + v2 + w2,
            mf,
            Ghost(0x20_0000_0000_0000_0000 as int),
            Ghost(0x400_0000 as int),
        );
        let s1 = mulb(gy.n, sd, Ghost(0x200_0000_0000 as int), Ghost(8192));
        let s2 = mulb(gx.n, sn, Ghost(0x200_0000_0000 as int), Ghost(8192));
        let sts = mulb(s1 + s2, SCALE, Ghost(0x80_0000_0000_0000 as int), Ghost(8));
        let st = mulb(sts, mf, Ghost(0x400_0000_0000_0000 as int), Ghost(0x400_0000 as int));
        proof {
            assert(vsel(p0, p1, p2, start as int) == vertex_positions@[start as int]@);
            assert(vsel(p0, p1, p2, end as int) == vertex_positions@[end as int]@);
            assert(asel(
                vertex_values@[0] as int,
                vertex_values@[1] as int,
                vertex_values@[2] as int,
                start as int,
            ) == vertex_values@[start as int] as int);
        }
        Interpolant { value: Rat { n: val0, d: q }, step: Rat { n: st, d: q } }
    }

    /// Advance the value by one scanline row.
    pub fn step(&mut self)
        requires
            -0x8000_0000_0000_0000_0000_0000_0000_0000 < old(self).value.n + old(self).step.n,
            old(self).value.n + old(self).step.n < 0x8000_0000_0000_0000_0000_0000_0000_0000,
        ensures
            final(self).value.n == old(self).value.n + old(self).step.n,
            final(self).value.d == old(self).value.d,
            final(self).step == old(self).step,
    {
        self.value.n = self.value.n + self.step.n;
    }

    /// The attribute value at the current row.
    pub fn value(&self) -> (r: Rat)
        ensures
            r == self.value,
    {
        Rat { n: self.value.n, d: self.value.d }
    }
}

} // verus!
