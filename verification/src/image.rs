//! The raster type the engine renders: width x height RGBA, 8 bits per
//! channel, stored row-major as `r g b a` byte quadruples.

use vstd::prelude::*;

verus! {

/// Largest accepted side length of a raster. This is a design limit: it
/// keeps a raster's byte count (4 per pixel) within a 32-bit address
/// space and the whole-image sums of the kernels comfortably inside
/// `i64`, and it covers every raster the engine is meant for.
pub const MAX_DIM: u32 = 16383;

/// A width x height RGBA raster, 8 bits per channel.
#[derive(Debug)]
pub struct Image {
    pub width: u32,
    pub height: u32,
    pub data: Vec<u8>,
}

impl View for Image {
    type V = Seq<u8>;

    open spec fn view(&self) -> Seq<u8> {
        self.data@
    }
}

impl Image {
    /// The raster invariant: bounded sides and exactly four bytes per pixel.
    pub open spec fn wf(&self) -> bool {
        &&& self.width <= MAX_DIM
        &&& self.height <= MAX_DIM
        &&& self.data@.len() == 4 * self.npix()
    }

    /// Number of pixels.
    pub open spec fn npix(&self) -> int {
        (self.width as int) * (self.height as int)
    }

    /// A raster of the given size with every pixel set to the given RGBA
    /// value.
    pub fn filled(width: u32, height: u32, r: u8, g: u8, b: u8, a: u8) -> (img: Image)
        requires
            width <= MAX_DIM,
            height <= MAX_DIM,
        ensures
            img.wf(),
            img.width == width,
            img.height == height,
            forall|i: int|
                0 <= i < img@.len() ==> #[trigger] img@[i] == (if i % 4 == 0 {
                    r
                } else if i % 4 == 1 {
                    g
                } else if i % 4 == 2 {
                    b
                } else {
                    a
                }),
    {
        proof {
            crate::num::lemma_mul_le(width as int, MAX_DIM as int, height as int, MAX_DIM as int);
        }
        let n: usize = (width as usize) * (height as usize);
        let mut data: Vec<u8> = Vec::new();
        let mut i: usize = 0;
        while i < n
            invariant
                i <= n,
                n == (width as int) * (height as int),
                data@.len() == 4 * i as int,
                forall|k: int|
                    0 <= k < data@.len() ==> #[trigger] data@[k] == (if k % 4 == 0 {
                        r
                    } else if k % 4 == 1 {
                        g
                    } else if k % 4 == 2 {
                        b
                    } else {
                        a
                    }),
            decreases n - i,
        {
            data.push(r);
            data.push(g);
            data.push(b);
            data.push(a);
            i = i + 1;
        }
        Image { width, height, data }
    }

    /// An empty raster.
    pub fn empty() -> (img: Image)
        ensures
            img.wf(),
            img.width == 0,
            img.height == 0,
            img@.len() == 0,
    {
        Image { width: 0, height: 0, data: Vec::new() }
    }

    /// The raster's `(width, height)`.
    pub fn dimensions(&self) -> (r: (u32, u32))
        ensures
            r.0 == self.width,
            r.1 == self.height,
    {
        (self.width, self.height)
    }

    /// An independent copy of the raster.
    pub fn duplicate(&self) -> (r: Image)
        ensures
            r.width == self.width,
            r.height == self.height,
            r@ == self@,
    {
        let mut data: Vec<u8> = Vec::new();
        let mut i: usize = 0;
        while i < self.data.len()
            invariant
                i <= self.data@.len(),
                data@ == self.data@.take(i as int),
            decreases self.data@.len() - i,
        {
            data.push(self.data[i]);
            assert(data@ =~= self.data@.take(i as int + 1));
            i = i + 1;
        }
        assert(data@ =~= self.data@);
        Image { width: self.width, height: self.height, data }
    }
}

} // verus!
