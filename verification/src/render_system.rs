//! The rendering interfaces and an in-memory pixel sink.
//!
//! [`Renderable`] is the narrow surface the rasterizer writes through:
//! a width, a height, and a single-pixel `plot`. [`RenderSystem`] is
//! implemented by anything that can fill such a sink. [`Frame`] is the
//! crate's own in-memory implementation of `Renderable`.

use vstd::prelude::*;

verus! {

/// A pixel sink the rasterizer can write into.
pub trait Renderable: Sized {
    /// The sink's invariant.
    spec fn wf(&self) -> bool;

    /// Width in pixels.
    spec fn width_spec(&self) -> int;

    /// Height in pixels.
    spec fn height_spec(&self) -> int;

    /// The pixel currently stored at `(x, y)`.
    spec fn pix(&self, x: int, y: int) -> [u8; 4];

    fn width(&self) -> (w: i32)
        requires
            self.wf(),
        ensures
            w == self.width_spec(),
    ;

    fn height(&self) -> (h: i32)
        requires
            self.wf(),
        ensures
            h == self.height_spec(),
    ;

    /// Store one pixel; everything else is untouched.
    fn plot(&mut self, pixel: [u8; 4], x: usize, y: usize)
        requires
            old(self).wf(),
            x < old(self).width_spec(),
            y < old(self).height_spec(),
        ensures
            final(self).wf(),
            final(self).width_spec() == old(self).width_spec(),
            final(self).height_spec() == old(self).height_spec(),
            final(self).pix(x as int, y as int) == pixel,
            forall|xx: int, yy: int|
                0 <= xx < old(self).width_spec() && 0 <= yy < old(self).height_spec() && !(xx == x
                    as int && yy == y as int) ==> #[trigger] final(self).pix(xx, yy) == old(
                    self,
                ).pix(xx, yy),
    ;
}

/// Something that can fill a pixel sink.
pub trait RenderSystem<R: Renderable> {
    /// What the renderer needs of the sink and of itself.
    spec fn render_req(&self, context: R) -> bool;

    /// How the sink's pixels after rendering relate to those before.
    spec fn render_ens(&self, pre: R, post: R) -> bool;

    fn render(&self, context: &mut R)
        requires
            self.render_req(*old(context)),
        ensures
            self.render_ens(*old(context), *final(context)),
    ;
}

/// An in-memory RGBA frame buffer, row-major.
pub struct Frame {
    pub width: usize,
    pub height: usize,
    pub data: Vec<[u8; 4]>,
}

impl Frame {
    /// A black, fully transparent frame.
    pub fn new(width: usize, height: usize) -> (r: Frame)
        requires
            1 <= width <= 512,
            1 <= height <= 512,
        ensures
            r.wf(),
            r.width == width,
            r.height == height,
            forall|x: int, y: int| 0 <= x < width && 0 <= y < height ==> r.pix(x, y) == [0u8, 0u8, 0u8, 0u8],
    {
        proof {
            assert(width * height <= 0x40000) by (nonlinear_arith)
                requires
                    width <= 512,
                    height <= 512,
            ;
        }
        let n: usize = width * height;
        let mut data: Vec<[u8; 4]> = Vec::new();
        let mut i: usize = 0;
        while i < n
            invariant
                i <= n,
                data@.len() == i,
                forall|k: int| 0 <= k < i ==> data@[k] == [0u8, 0u8, 0u8, 0u8],
            decreases n - i,
        {
            data.push([0u8, 0u8, 0u8, 0u8]);
            i = i + 1;
        }
        let r = Frame { width, height, data };
        proof {
            assert forall|x: int, y: int|
                0 <= x < width && 0 <= y < height implies r.pix(x, y) == [0u8, 0u8, 0u8, 0u8] by {
                assert(0 <= y * width + x < width * height) by (nonlinear_arith)
                    requires
                        0 <= x < width,
                        0 <= y < height,
                ;
            }
        }
        r
    }
}

impl Renderable for Frame {
    open spec fn wf(&self) -> bool {
        &&& 1 <= self.width <= 512
        &&& 1 <= self.height <= 512
        &&& self.data@.len() == self.width * self.height
    }

    open spec fn width_spec(&self) -> int {
        self.width as int
    }

    open spec fn height_spec(&self) -> int {
        self.height as int
    }

    open spec fn pix(&self, x: int, y: int) -> [u8; 4] {
        self.data@[y * (self.width as int) + x]
    }

    fn width(&self) -> (w: i32) {
        self.width as i32
    }

    fn height(&self) -> (h: i32) {
        self.height as i32
    }

    fn plot(&mut self, pixel: [u8; 4], x: usize, y: usize) {
        proof {
            assert(0 <= y * self.width + x < self.width * self.height
                && self.width * self.height <= 0x40000) by (nonlinear_arith)
                requires
                    0 <= x < self.width,
                    0 <= y < self.height,
                    self.width <= 512,
                    self.height <= 512,
            ;
        }
        let idx: usize = y * self.width + x;
        self.data.set(idx, pixel);
        proof {
            let w = self.width as int;
            let h = self.height as int;
            assert forall|xx: int, yy: int|
                0 <= xx < w && 0 <= yy < h && !(xx == x as int && yy == y as int) implies #[trigger] self.pix(
                xx,
                yy,
            ) == old(self).pix(xx, yy) by {
                assert(yy * w + xx != (y as int) * w + x as int && 0 <= yy * w + xx < w * h)
                    by (nonlinear_arith)
                    requires
                        0 <= xx < w,
                        0 <= yy < h,
                        0 <= (x as int) && (x as int) < w,
                        0 <= (y as int) && (y as int) < h,
                        !(xx == x as int && yy == y as int),
                ;
            }
        }
    }
}

} // verus!
