//! One triangle edge walked scanline by scanline.
//!
//! An [`Edge`] tracks the exact x position where the edge crosses the
//! current scanline row, together with three attribute interpolants
//! (`u/w`, `v/w` and `1/w`) whose values move in lockstep with x. A
//! single [`Edge::step`] advances everything by one row.

use vstd::prelude::*;
use crate::rat::{Rat, Ratio, rok, rat_eq, rceil, mulb, lemma_mul_bound, lemma_rceil_char};
use crate::interpolant::{
    Interpolant, ScreenVert, VertModel, UV, UVModel, interp_at, ival_num, ival0_num, istep_num,
    qden, dnum, dypos, vsel, slope_rat, yprestep, ry, tri_ok, uv_ok, vert_ok, uw_attr, vw_attr,
    iw_attr, attr_ok, SCALE, ASCALE, IWMAX, AMAX, HMAX, CMAX, IV0B, IVB, ISTB, QDB,
};

verus! {

pub open spec fn imax(a: int, b: int) -> int {
    if a >= b {
        a
    } else {
        b
    }
}

pub open spec fn imin(a: int, b: int) -> int {
    if a <= b {
        a
    } else {
        b
    }
}

/// First sampled row of an edge: the first integer row at or below the
/// start vertex, clipped to the viewport's top.
pub open spec fn ystart_spec(ps: VertModel, ymin: int) -> int {
    imax(rceil(ry(ps)), ymin)
}

/// One past the last sampled row: the first integer row at or below the
/// end vertex, clipped to the viewport's bottom.
pub open spec fn yend_spec(pe: VertModel, ymax: int) -> int {
    imin(rceil(ry(pe)), ymax)
}

/// Numerator of the edge's x at its first row, over the denominator
/// `SCALE * dypos(ps, pe)`: the start vertex's x plus the vertical
/// prestep times the slope.
pub open spec fn xnum0(ps: VertModel, pe: VertModel, ystart: int) -> int {
    ps.x * dypos(ps, pe) + yprestep(ps, ystart) * (pe.x - ps.x)
}

/// Numerator of the per-row x step (the slope) over the same denominator.
pub open spec fn xstep_num(ps: VertModel, pe: VertModel) -> int {
    (pe.x - ps.x) * (SCALE as int)
}

/// Numerator of the edge's x at row `j`.
pub open spec fn xnum_at(ps: VertModel, pe: VertModel, ystart: int, j: int) -> int {
    xnum0(ps, pe, ystart) + (j - ystart) * xstep_num(ps, pe)
}

/// One edge of a triangle in screen space: the x of the crossing with
/// the current row, its per-row step, the sampled row range, and the
/// attribute interpolants advancing in lockstep.
pub struct Edge {
    pub x: Rat,
    pub dx_over_dy: Rat,
    pub y_start: i128,
    pub y_end: i128,
    pub uv: (Interpolant, Interpolant),
    pub inverse_w: Interpolant,
}

/// The edge runs from vertex `s` to vertex `ei` of the sorted triangle
/// `(p0, p1, p2)` with texture coordinates `(t0, t1, t2)`, was built for
/// the viewport rows `[ymin, ymax)`, and currently holds the values for
/// row `j`.
pub open spec fn edge_at(
    ed: Edge,
    p0: VertModel,
    p1: VertModel,
    p2: VertModel,
    t0: UVModel,
    t1: UVModel,
    t2: UVModel,
    s: int,
    ei: int,
    ymin: int,
    ymax: int,
    j: int,
) -> bool {
    let ps = vsel(p0, p1, p2, s);
    let pe = vsel(p0, p1, p2, ei);
    let ys = ystart_spec(ps, ymin);
    &&& ed.y_start == ys
    &&& ed.y_end == yend_spec(pe, ymax)
    &&& ed.dx_over_dy@ == slope_rat(ps, pe)
    &&& ed.x.d == (SCALE as int) * dypos(ps, pe)
    &&& 0 < ed.x.d <= 65536
    &&& ed.x.n == xnum_at(ps, pe, ys, j)
    &&& -0x1_0000_0000 <= ed.x.n <= 0x1_0000_0000
    &&& interp_at(
        ed.uv.0,
        p0,
        p1,
        p2,
        uw_attr(p0, t0),
        uw_attr(p1, t1),
        uw_attr(p2, t2),
        s,
        ei,
        ys,
        j,
    )
    &&& interp_at(
        ed.uv.1,
        p0,
        p1,
        p2,
        vw_attr(p0, t0),
        vw_attr(p1, t1),
        vw_attr(p2, t2),
        s,
        ei,
        ys,
        j,
    )
    &&& interp_at(ed.inverse_w, p0, p1, p2, iw_attr(p0), iw_attr(p1), iw_attr(p2), s, ei, ys, j)
}

proof fn lemma_step_lin(a: int, s: int, ys: int, j: int)
    by (nonlinear_arith)
    ensures
        a + (j - ys) * s + s == a + (j + 1 - ys) * s,
{
}

proof fn lemma_row_bound(a: int, s: int, ys: int, j: int, ba: int, bs: int)
    by (nonlinear_arith)
    requires
        -ba <= a <= ba,
        -bs <= s <= bs,
        0 <= ba,
        0 <= bs,
        0 <= j - ys <= 1024,
    ensures
        -(ba + 1024 * bs) <= a + (j - ys) * s <= ba + 1024 * bs,
{
}

/// The values an edge holds at row `j` stay inside fixed numeric bounds
/// as long as `j` lies in the viewport's row range.
pub proof fn lemma_edge_bounds(
    ed: Edge,
    p0: VertModel,
    p1: VertModel,
    p2: VertModel,
    t0: UVModel,
    t1: UVModel,
    t2: UVModel,
    s: int,
    ei: int,
    ymin: int,
    ymax: int,
    j: int,
)
    requires
        edge_at(ed, p0, p1, p2, t0, t1, t2, s, ei, ymin, ymax, j),
        0 <= ymin,
        ystart_spec(vsel(p0, p1, p2, s), ymin) <= j <= HMAX as int,
    ensures
        -(IVB as int) <= ed.uv.0.value.n <= IVB as int,
        -(IVB as int) <= ed.uv.1.value.n <= IVB as int,
        -(IVB as int) <= ed.inverse_w.value.n <= IVB as int,
{
    let ps = vsel(p0, p1, p2, s);
    let pe = vsel(p0, p1, p2, ei);
    let ys = ystart_spec(ps, ymin);
    lemma_row_bound(
        ival0_num(p0, p1, p2, uw_attr(p0, t0), uw_attr(p1, t1), uw_attr(p2, t2), s, ei, ys),
        istep_num(p0, p1, p2, uw_attr(p0, t0), uw_attr(p1, t1), uw_attr(p2, t2), s, ei),
        ys,
        j,
        IV0B as int,
        ISTB as int,
    );
    lemma_row_bound(
        ival0_num(p0, p1, p2, vw_attr(p0, t0), vw_attr(p1, t1), vw_attr(p2, t2), s, ei, ys),
        istep_num(p0, p1, p2, vw_attr(p0, t0), vw_attr(p1, t1), vw_attr(p2, t2), s, ei),
        ys,
        j,
        IV0B as int,
        ISTB as int,
    );
    lemma_row_bound(
        ival0_num(p0, p1, p2, iw_attr(p0), iw_attr(p1), iw_attr(p2), s, ei, ys),
        istep_num(p0, p1, p2, iw_attr(p0), iw_attr(p1), iw_attr(p2), s, ei),
        ys,
        j,
        IV0B as int,
        ISTB as int,
    );
}

/// Stepping an edge that holds row `j` yields an edge that holds row
/// `j + 1`: relates the stepped fields to the row-`j + 1` specification.
pub proof fn lemma_edge_step(
    ed: Edge,
    ed2: Edge,
    p0: VertModel,
    p1: VertModel,
    p2: VertModel,
    t0: UVModel,
    t1: UVModel,
    t2: UVModel,
    s: int,
    ei: int,
    ymin: int,
    ymax: int,
    j: int,
)
    requires
        edge_at(ed, p0, p1, p2, t0, t1, t2, s, ei, ymin, ymax, j),
        tri_ok(p0, p1, p2),
        0 <= ymin,
        ystart_spec(vsel(p0, p1, p2, s), ymin) <= j,
        j + 1 <= HMAX as int,
        ed2.y_start == ed.y_start,
        ed2.y_end == ed.y_end,
        ed2.dx_over_dy == ed.dx_over_dy,
        ed2.x.d == ed.x.d,
        ed2.x.n == ed.x.n + ed.dx_over_dy.n * (SCALE as int),
        ed2.uv.0.value.n == ed.uv.0.value.n + ed.uv.0.step.n,
        ed2.uv.0.value.d == ed.uv.0.value.d,
        ed2.uv.0.step == ed.uv.0.step,
        ed2.uv.1.value.n == ed.uv.1.value.n + ed.uv.1.step.n,
        ed2.uv.1.value.d == ed.uv.1.value.d,
        ed2.uv.1.step == ed.uv.1.step,
        ed2.inverse_w.value.n == ed.inverse_w.value.n + ed.inverse_w.step.n,
        ed2.inverse_w.value.d == ed.inverse_w.value.d,
        ed2.inverse_w.step == ed.inverse_w.step,
    ensures
        edge_at(ed2, p0, p1, p2, t0, t1, t2, s, ei, ymin, ymax, j + 1),
{
    let ps = vsel(p0, p1, p2, s);
    let pe = vsel(p0, p1, p2, ei);
    let ys = ystart_spec(ps, ymin);
    lemma_step_lin(xnum0(ps, pe, ys), xstep_num(ps, pe), ys, j);
    lemma_step_lin(
        ival0_num(p0, p1, p2, uw_attr(p0, t0), uw_attr(p1, t1), uw_attr(p2, t2), s, ei, ys),
        istep_num(p0, p1, p2, uw_attr(p0, t0), uw_attr(p1, t1), uw_attr(p2, t2), s, ei),
        ys,
        j,
    );
    lemma_step_lin(
        ival0_num(p0, p1, p2, vw_attr(p0, t0), vw_attr(p1, t1), vw_attr(p2, t2), s, ei, ys),
        istep_num(p0, p1, p2, vw_attr(p0, t0), vw_attr(p1, t1), vw_attr(p2, t2), s, ei),
        ys,
        j,
    );
    lemma_step_lin(
        ival0_num(p0, p1, p2, iw_attr(p0), iw_attr(p1), iw_attr(p2), s, ei, ys),
        istep_num(p0, p1, p2, iw_attr(p0), iw_attr(p1), iw_attr(p2), s, ei),
        ys,
        j,
    );
    lemma_mul_bound(ps.x, dypos(ps, pe), 4096, 8192);
    lemma_mul_bound(yprestep(ps, ys), pe.x - ps.x, 8192, 8192);
    lemma_row_bound(xnum0(ps, pe, ys), xstep_num(ps, pe), ys, j + 1, 0x8000000, 65536);
}

impl Edge {
    /// Build the edge from vertex `start` to vertex `end` of a sorted
    /// triangle, clipped to viewport rows `[y_min, y_max)`, with its
    /// three attribute interpolants started at the edge's first row.
    pub fn new(
        vertex_positions: &[ScreenVert; 3],
        start: usize,
        end: usize,
        y_min: i128,
        y_max: i128,
        vertex_uvs: &[UV; 3],
    ) -> (r: Edge)
        requires
            (start == 0 && end == 1) || (start == 0 && end == 2) || (start == 1 && end == 2),
            tri_ok(vertex_positions@[0]@, vertex_positions@[1]@, vertex_positions@[2]@),
            uv_ok(vertex_uvs@[0]@),
            uv_ok(vertex_uvs@[1]@),
            uv_ok(vertex_uvs@[2]@),
            dnum(vertex_positions@[0]@, vertex_positions@[1]@, vertex_positions@[2]@) != 0,
            0 <= y_min <= y_max <= HMAX,
        ensures
            edge_at(
                r,
                vertex_positions@[0]@,
                vertex_positions@[1]@,
                vertex_positions@[2]@,
                vertex_uvs@[0]@,
                vertex_uvs@[1]@,
                vertex_uvs@[2]@,
                start as int,
                end as int,
                y_min as int,
                y_max as int,
                ystart_spec(vsel(
                    vertex_positions@[0]@,
                    vertex_positions@[1]@,
                    vertex_positions@[2]@,
                    start as int,
                ), y_min as int),
            ),
            r.y_start == ystart_spec(
                vsel(
                    vertex_positions@[0]@,
                    vertex_positions@[1]@,
                    vertex_positions@[2]@,
                    start as int,
                ),
                y_min as int,
            ),
            y_min <= r.y_start <= HMAX,
            r.y_end <= y_max,
    {
        let ghost p0 = vertex_positions@[0]@;
        let ghost p1 = vertex_positions@[1]@;
        let ghost p2 = vertex_positions@[2]@;
        let vp0 = vertex_positions[0];
        let vp1 = vertex_positions[1];
        let vp2 = vertex_positions[2];
        let ps = vertex_positions[start];
        let pe = vertex_positions[end];
        let y_dist = pe.yn - ps.yn;
        let x_dist = pe.xn - ps.xn;
        let sd: i128 = if y_dist >= 1 { y_dist } else { 1 };
        let dx_over_dy = Rat { n: x_dist, d: sd };
        let cs = Rat { n: ps.yn, d: SCALE }.ceil();
        let ce = Rat { n: pe.yn, d: SCALE }.ceil();
        proof {
            let psm = vertex_positions@[start as int]@;
            let pem = vertex_positions@[end as int]@;
            assert(SCALE == 8);
            lemma_rceil_char(ry(psm), rceil(ry(psm)));
            lemma_rceil_char(ry(pem), rceil(ry(pem)));
            assert(-513 <= cs <= 512);
            assert(-513 <= ce <= 512);
            assert(vsel(p0, p1, p2, start as int) == psm);
            assert(vsel(p0, p1, p2, end as int) == pem);
        }
        let y_start: i128 = if cs >= y_min { cs } else { y_min };
        let y_end: i128 = if ce <= y_max { ce } else { y_max };
        let ysc = mulb(y_start, SCALE, Ghost(512), Ghost(8));
        let ypn = ysc - ps.yn;
        let x0a = mulb(ps.xn, sd, Ghost(4096), Ghost(8192));
        let x0b = mulb(ypn, x_dist, Ghost(8192), Ghost(8192));
        let x = Rat { n: x0a + x0b, d: mulb(SCALE, sd, Ghost(8), Ghost(8192)) };
        let inverse_w_vals: [i128; 3] = [
            mulb(vp0.iwn, ASCALE, Ghost(IWMAX as int), Ghost(256)),
            mulb(vp1.iwn, ASCALE, Ghost(IWMAX as int), Ghost(256)),
            mulb(vp2.iwn, ASCALE, Ghost(IWMAX as int), Ghost(256)),
        ];
        let uv0 = vertex_uvs[0];
        let uv1 = vertex_uvs[1];
        let uv2 = vertex_uvs[2];
        let uw_vals: [i128; 3] = [
            mulb(uv0.un, vp0.iwn, Ghost(256), Ghost(IWMAX as int)),
            mulb(uv1.un, vp1.iwn, Ghost(256), Ghost(IWMAX as int)),
            mulb(uv2.un, vp2.iwn, Ghost(256), Ghost(IWMAX as int)),
        ];
        let vw_vals: [i128; 3] = [
            mulb(uv0.vn, vp0.iwn, Ghost(256), Ghost(IWMAX as int)),
            mulb(uv1.vn, vp1.iwn, Ghost(256), Ghost(IWMAX as int)),
            mulb(uv2.vn, vp2.iwn, Ghost(256), Ghost(IWMAX as int)),
        ];
        proof {
            assert(AMAX == 8388608);
        }
        Edge {
            y_start,
            y_end,
            x,
            dx_over_dy,
            uv: (
                Interpolant::new(start, end, vertex_positions, &uw_vals, &dx_over_dy, y_start),
                Interpolant::new(start, end, vertex_positions, &vw_vals, &dx_over_dy, y_start),
            ),
            inverse_w: Interpolant::new(
                start,
                end,
                vertex_positions,
                &inverse_w_vals,
                &dx_over_dy,
                y_start,
            ),
        }
    }

    /// The x position at the current row.
    pub fn x(&self) -> (r: Rat)
        ensures
            r == self.x,
    {
        Rat { n: self.x.n, d: self.x.d }
    }

    /// The interpolated `1/w` at the current row.
    pub fn inverse_w(&self) -> (r: Rat)
        ensures
            r == self.inverse_w.value,
    {
        self.inverse_w.value()
    }

    pub fn y_start(&self) -> (r: i128)
        ensures
            r == self.y_start,
    {
        self.y_start
    }

    /// The interpolated `(u/w, v/w)` at the current row.
    pub fn uv(&self) -> (r: (Rat, Rat))
        ensures
            r.0 == self.uv.0.value,
            r.1 == self.uv.1.value,
    {
        (self.uv.0.value(), self.uv.1.value())
    }

    pub fn y_end(&self) -> (r: i128)
        ensures
            r == self.y_end,
    {
        self.y_end
    }

    /// Advance the edge and all its interpolants by one scanline row.
    pub fn step(&mut self)
        requires
            -8192 <= old(self).dx_over_dy.n <= 8192,
            -0x2_0000_0000 <= old(self).x.n <= 0x2_0000_0000,
            -0x4000_0000_0000_0000_0000_0000_0000_0000
                < old(self).uv.0.value.n + old(self).uv.0.step.n
                < 0x4000_0000_0000_0000_0000_0000_0000_0000,
            -0x4000_0000_0000_0000_0000_0000_0000_0000
                < old(self).uv.1.value.n + old(self).uv.1.step.n
                < 0x4000_0000_0000_0000_0000_0000_0000_0000,
            -0x4000_0000_0000_0000_0000_0000_0000_0000
                < old(self).inverse_w.value.n + old(self).inverse_w.step.n
                < 0x4000_0000_0000_0000_0000_0000_0000_0000,
        ensures
            final(self).x.n == old(self).x.n + old(self).dx_over_dy.n * (SCALE as int),
            final(self).x.d == old(self).x.d,
            final(self).dx_over_dy == old(self).dx_over_dy,
            final(self).y_start == old(self).y_start,
            final(self).y_end == old(self).y_end,
            final(self).uv.0.value.n == old(self).uv.0.value.n + old(self).uv.0.step.n,
            final(self).uv.0.value.d == old(self).uv.0.value.d,
            final(self).uv.0.step == old(self).uv.0.step,
            final(self).uv.1.value.n == old(self).uv.1.value.n + old(self).uv.1.step.n,
            final(self).uv.1.value.d == old(self).uv.1.value.d,
            final(self).uv.1.step == old(self).uv.1.step,
            final(self).inverse_w.value.n == old(self).inverse_w.value.n + old(
                self,
            ).inverse_w.step.n,
            final(self).inverse_w.value.d == old(self).inverse_w.value.d,
            final(self).inverse_w.step == old(self).inverse_w.step,
    {
        let dxs = mulb(self.dx_over_dy.n, SCALE, Ghost(8192), Ghost(8));
        self.x.n = self.x.n + dxs;
        self.uv.0.step();
        self.uv.1.step();
        self.inverse_w.step();
    }
}

} // verus!
