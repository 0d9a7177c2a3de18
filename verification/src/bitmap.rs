//! Texture storage and nearest-neighbor sampling.
//!
//! A [`Bitmap`] is a fixed-size grid of RGBA samples addressed by a
//! normalized coordinate in the unit square: the sample is picked by
//! rounding `u * (width - 1)` and `v * (height - 1)` to the nearest
//! texel.

use vstd::prelude::*;
use vstd::arithmetic::div_mod::{
    lemma_div_is_ordered, lemma_fundamental_div_mod_converse,
};
use crate::rat::{Rat, Ratio, rok, rint, rmul, rround, mulb};

verus! {

/// Bound on the numerator and denominator of a coordinate handed to the
/// sampler.
pub const TEXR: i128 = 0x4000_0000_0000_0000_0000_0000_0000;

/// A 2D grid of RGBA8 samples.
pub struct Bitmap {
    pub pixels: Vec<[u8; 4]>,
    pub width: usize,
    pub height: usize,
}

/// Well-formed texture: dimensions in `[1, 64]` and one sample per cell.
pub open spec fn bitmap_ok(b: Bitmap) -> bool {
    &&& 1 <= b.width <= 64
    &&& 1 <= b.height <= 64
    &&& b.pixels@.len() == b.width * b.height
}

/// Nearest texel column for `u` (and row for `v`): `round(u * (dim-1))`.
pub open spec fn tex_coord(u: Ratio, dim: int) -> int {
    rround(rmul(u, rint(dim - 1)))
}

/// The sample a well-formed bitmap yields for a coordinate in the unit
/// square.
pub open spec fn bitmap_sample(b: Bitmap, u: Ratio, v: Ratio) -> [u8; 4] {
    b.pixels@[tex_coord(u, b.width as int) + tex_coord(v, b.height as int) * b.width]
}

/// Relies on `rand::Rng::gen_range` over `0..255`: a byte drawn below
/// 255; nothing else is assumed of the distribution.
#[verifier::external_body]
fn random_channel() -> (r: u8)
    ensures
        r < 255,
{
    rand::Rng::gen_range(&mut rand::thread_rng(), 0..255u8)
}

impl Bitmap {
    /// A texture of the given dimensions filled with transparent black.
    pub fn new(width: usize, height: usize) -> (r: Bitmap)
        requires
            1 <= width <= 64,
            1 <= height <= 64,
        ensures
            bitmap_ok(r),
            r.width == width,
            r.height == height,
            forall|i: int| 0 <= i < r.pixels@.len() ==> r.pixels@[i] == [0u8, 0u8, 0u8, 0u8],
    {
        proof {
            assert(width * height <= 4096) by (nonlinear_arith)
                requires
                    width <= 64,
                    height <= 64,
            ;
        }
        let n: usize = width * height;
        let mut pixels: Vec<[u8; 4]> = Vec::new();
        let mut i: usize = 0;
        while i < n
            invariant
                i <= n,
                pixels@.len() == i,
                forall|k: int| 0 <= k < i ==> pixels@[k] == [0u8, 0u8, 0u8, 0u8],
            decreases n - i,
        {
            pixels.push([0u8, 0u8, 0u8, 0u8]);
            i = i + 1;
        }
        Bitmap { pixels, width, height }
    }

    /// A texture of the given dimensions filled with random opaque
    /// colors: every sample has full alpha and color channels below
    /// 255; which colors come out is up to the random number generator.
    pub fn new_random(width: usize, height: usize) -> (r: Bitmap)
        requires
            1 <= width <= 64,
            1 <= height <= 64,
        ensures
            bitmap_ok(r),
            r.width == width,
            r.height == height,
            forall|i: int|
                0 <= i < r.pixels@.len() ==> (#[trigger] r.pixels@[i])[3] == 255
                    && r.pixels@[i][0] < 255 && r.pixels@[i][1] < 255 && r.pixels@[i][2] < 255,
    {
        proof {
            assert(width * height <= 4096) by (nonlinear_arith)
                requires
                    width <= 64,
                    height <= 64,
            ;
        }
        let n: usize = width * height;
        let mut pixels: Vec<[u8; 4]> = Vec::new();
        let mut i: usize = 0;
        while i < n
            invariant
                i <= n,
                pixels@.len() == i,
                forall|k: int|
                    0 <= k < i ==> (#[trigger] pixels@[k])[3] == 255 && pixels@[k][0] < 255
                        && pixels@[k][1] < 255 && pixels@[k][2] < 255,
            decreases n - i,
        {
            pixels.push([random_channel(), random_channel(), random_channel(), 255u8]);
            i = i + 1;
        }
        Bitmap { pixels, width, height }
    }

    /// The texel coordinates nearest to a normalized coordinate.
    fn uv_to_usize(&self, u: &Rat, v: &Rat) -> (r: (usize, usize))
        requires
            bitmap_ok(*self),
            rok(u@),
            rok(v@),
            0 <= u.n <= u.d,
            0 <= v.n <= v.d,
            u.d <= TEXR,
            v.d <= TEXR,
        ensures
            r.0 == tex_coord(u@, self.width as int),
            r.1 == tex_coord(v@, self.height as int),
            r.0 < self.width,
            r.1 < self.height,
    {
        let x = Bitmap::axis_round(u, (self.width - 1) as i128);
        let y = Bitmap::axis_round(v, (self.height - 1) as i128);
        (x as usize, y as usize)
    }

    /// `round(u * m)` for `u` in the unit interval.
    fn axis_round(u: &Rat, m: i128) -> (r: i128)
        requires
            rok(u@),
            0 <= u.n <= u.d,
            u.d <= TEXR,
            0 <= m <= 63,
        ensures
            r == rround(rmul(u@, rint(m as int))),
            0 <= r <= m,
    {
        let um = mulb(u.n, m, Ghost(TEXR as int), Ghost(63));
        let num = um * 2 + u.d;
        let den = u.d * 2;
        proof {
            assert(um >= 0) by (nonlinear_arith)
                requires
                    um == u.n * m,
                    u.n >= 0,
                    m >= 0,
            ;
            assert(num <= (2 * m + 1) * u.d) by (nonlinear_arith)
                requires
                    num == u.n * m * 2 + u.d,
                    u.n <= u.d,
                    0 <= u.n,
                    0 <= m,
            ;
        }
        let q: u128 = (num as u128) / (den as u128);
        proof {
            let ni = num as int;
            let di = den as int;
            lemma_div_is_ordered(0, ni, di);
            lemma_div_is_ordered(ni, (2 * (m as int) + 1) * u.d, di);
            assert((2 * (m as int) + 1) * u.d == di * (m as int) + u.d) by (nonlinear_arith)
                requires
                    di == u.d * 2,
            ;
            lemma_fundamental_div_mod_converse(
                (2 * (m as int) + 1) * u.d,
                di,
                m as int,
                u.d as int,
            );
            assert(rmul(u@, rint(m as int)).n == u@.n * (m as int));
            assert(rmul(u@, rint(m as int)).d == u@.d * 1);
            assert(u@.d * 1 == u@.d);
            assert(2 * (u@.n * (m as int)) == ni - u.d) by (nonlinear_arith)
                requires
                    ni == u.n * m * 2 + u.d,
            ;
        }
        q as i128
    }

    /// The RGBA sample nearest to the normalized coordinate `(u, v)`.
    /// Coordinates outside the unit square are out of contract; the
    /// rasterizer clamps before sampling.
    pub fn get_pixel(&self, u: &Rat, v: &Rat) -> (r: [u8; 4])
        requires
            bitmap_ok(*self),
            rok(u@),
            rok(v@),
            0 <= u.n <= u.d,
            0 <= v.n <= v.d,
            u.d <= TEXR,
            v.d <= TEXR,
        ensures
            r == bitmap_sample(*self, u@, v@),
    {
        let coords = self.uv_to_usize(u, v);
        proof {
            assert(coords.0 + coords.1 * self.width < self.width * self.height
                && self.width * self.height <= 4096) by (nonlinear_arith)
                requires
                    coords.0 < self.width,
                    coords.1 < self.height,
                    0 < self.width <= 64,
                    0 < self.height <= 64,
            ;
        }
        self.pixels[coords.0 + coords.1 * self.width]
    }
}

} // verus!
