//! Texel storage of an image texture.
//!
//! Rows are kept bottom-up, so that row 0 is the bottom of the picture and a
//! texture coordinate `v` that grows upwards maps straight onto a row number.

use vstd::prelude::*;
use crate::raster::{flip_rows, flipped_index};

verus! {

/// Texels of an image: `width * height` RGB triples, rows bottom-up, each row
/// `bytes_per_scanline` texels long.
pub struct ImageTexture {
    pub data: Vec<[u8; 3]>,
    pub width: u32,
    pub height: u32,
    pub bytes_per_scanline: i32,
}

/// `i` moved into `[0, n - 1]`.
pub open spec fn clamp_index(i: int, n: int) -> int {
    if i < 0 {
        0
    } else if i >= n {
        n - 1
    } else {
        i
    }
}

impl ImageTexture {
    /// Holds `width * height` texels and a scanline the width of the image.
    pub open spec fn wf(&self) -> bool {
        &&& self.data@.len() == self.width * self.height
        &&& self.width <= i32::MAX
        &&& self.bytes_per_scanline == self.width
    }

    /// A texture with no texels.
    pub fn empty() -> (r: ImageTexture)
        ensures
            r.wf(),
            r.data@.len() == 0,
            r.width == 0,
            r.height == 0,
    {
        ImageTexture { data: Vec::new(), width: 0, height: 0, bytes_per_scanline: 0 }
    }

    /// The texture of an image given as `width * height` RGB triples with rows
    /// top-down, as image files store them. `None` when the number of pixels is
    /// not `width * height`, or the width does not fit a scanline length.
    pub fn from_pixels(pixels: Vec<[u8; 3]>, width: u32, height: u32) -> (r: Option<ImageTexture>)
        ensures
            r is Some <==> (pixels@.len() == width * height && width <= i32::MAX),
            r matches Some(t) ==> {
                &&& t.wf()
                &&& t.width == width
                &&& t.height == height
                &&& forall|k: int|
                    0 <= k < t.data@.len() ==> #[trigger] t.data@[k] == pixels@[flipped_index(
                        k as nat,
                        width as nat,
                        height as nat,
                    ) as int]
            },
    {
        if width > 2147483647u32 {
            return None;
        }
        let w = width as usize;
        let h = height as usize;
        if w.checked_mul(h) != Some(pixels.len()) {
            return None;
        }
        let data = flip_rows(&pixels, w, h);
        Some(ImageTexture { data, width, height, bytes_per_scanline: width as i32 })
    }

    /// The texel in column `i` and row `j` (row 0 at the bottom), each clamped
    /// into the image; `None` for an image with no texels.
    pub fn texel(&self, i: i32, j: i32) -> (r: Option<[u8; 3]>)
        requires
            self.wf(),
        ensures
            r is None <==> self.data@.len() == 0,
            r matches Some(c) ==> c == self.data@[clamp_index(j as int, self.height as int)
                * self.width + clamp_index(i as int, self.width as int)],
    {
        if self.data.len() == 0 {
            return None;
        }
        proof {
            if self.width == 0 || self.height == 0 {
                assert(self.width * self.height == 0) by (nonlinear_arith)
                    requires
                        self.width == 0 || self.height == 0,
                ;
            }
        }
        let mut x = i;
        let mut y = j;
        if x < 0 {
            x = 0;
        }
        if y < 0 {
            y = 0;
        }
        if x >= self.bytes_per_scanline {
            x = self.bytes_per_scanline - 1;
        }
        if y as i64 >= self.height as i64 {
            y = (self.height - 1) as i32;
        }
        let w = self.width as usize;
        let h = self.height as usize;
        let xu = x as usize;
        let yu = y as usize;
        proof {
            assert(yu * w + xu < w * h) by (nonlinear_arith)
                requires
                    yu < h,
                    xu < w,
            ;
        }
        let pixel = yu * w + xu;
        Some(self.data[pixel])
    }
}

} // verus!
