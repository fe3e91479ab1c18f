//! Plain pixel data: an RGB color triple and the flat frame buffer that a
//! render pass produces.

use vstd::prelude::*;

use crate::PIXEL_LIMIT;

verus! {

/// One 8-bit-per-channel RGB color sample.
#[derive(Copy, Clone, PartialEq, Eq, Structural, Debug)]
pub struct RGBColor {
    pub r: u8,
    pub g: u8,
    pub b: u8,
}

/// A rectangular buffer of RGB samples, row-major, three contiguous bytes
/// (R, G, B) per pixel.
pub struct RGBCanvas {
    pub width: i32,
    pub height: i32,
    pub data: Vec<u8>,
}

impl RGBCanvas {
    /// The buffer holds exactly three bytes for each of `width * height`
    /// pixels.
    pub open spec fn wf(&self) -> bool {
        &&& 0 < self.width
        &&& 0 < self.height
        &&& self.data@.len() == 3 * self.width * self.height
    }

    /// Flat index of channel `c` of pixel `(x, y)` in the buffer.
    pub open spec fn pixel_index(width: int, x: int, y: int, c: int) -> int {
        3 * (width * y + x) + c
    }

    /// A fresh, all-black buffer.
    pub fn new(width: i32, height: i32) -> (result: RGBCanvas)
        requires
            0 < width <= PIXEL_LIMIT,
            0 < height <= PIXEL_LIMIT,
        ensures
            result.wf(),
            result.width == width,
            result.height == height,
            result.data@ == Seq::new((3 * width * height) as nat, |i: int| 0u8),
    {
        proof {
            assert(0 < width * height <= PIXEL_LIMIT * PIXEL_LIMIT) by (nonlinear_arith)
                requires
                    0 < width <= PIXEL_LIMIT,
                    0 < height <= PIXEL_LIMIT,
            ;
        }
        proof {
            assert(3 * (width * height) == 3 * width * height) by (nonlinear_arith);
        }
        let wh: usize = (width as usize) * (height as usize);
        let len: usize = 3 * wh;
        let mut data: Vec<u8> = Vec::new();
        let mut i: usize = 0;
        while i < len
            invariant
                i <= len,
                data@ == Seq::new(i as nat, |k: int| 0u8),
            decreases len - i,
        {
            data.push(0);
            proof {
                assert(data@ =~= Seq::new((i + 1) as nat, |k: int| 0u8));
            }
            i = i + 1;
        }
        RGBCanvas { width, height, data }
    }

    /// Overwrites the three channels of pixel `(x, y)`; a no-op when the
    /// pixel lies outside the buffer.
    pub fn write_pixel(&mut self, x: i32, y: i32, color: RGBColor)
        requires
            old(self).wf(),
        ensures
            final(self).wf(),
            final(self).width == old(self).width,
            final(self).height == old(self).height,
            final(self).data@.len() == old(self).data@.len(),
            0 <= x < old(self).width && 0 <= y < old(self).height ==> final(self).data@ == old(
                self,
            ).data@.update(
                Self::pixel_index(old(self).width as int, x as int, y as int, 0),
                color.r,
            ).update(
                Self::pixel_index(old(self).width as int, x as int, y as int, 1),
                color.g,
            ).update(Self::pixel_index(old(self).width as int, x as int, y as int, 2), color.b),
            !(0 <= x < old(self).width && 0 <= y < old(self).height) ==> final(self).data@ == old(
                self,
            ).data@,
    {
        if 0 <= x && x < self.width && 0 <= y && y < self.height {
            let n: usize = self.data.len();
            proof {
                assert(0 <= self.width * y + x && 3 * (self.width * y + x) + 2 < 3 * self.width
                    * self.height) by (nonlinear_arith)
                    requires
                        0 <= x < self.width,
                        0 <= y < self.height,
                ;
            }
            let base: usize = 3 * ((self.width as usize) * (y as usize) + (x as usize));
            self.data.set(base, color.r);
            self.data.set(base + 1, color.g);
            self.data.set(base + 2, color.b);
        }
    }

    /// A deep copy of the buffer: a stable snapshot for the display layer.
    pub fn copy(&self) -> (result: RGBCanvas)
        ensures
            result.width == self.width,
            result.height == self.height,
            result.data@ == self.data@,
    {
        let mut copied_data: Vec<u8> = Vec::new();
        let mut i: usize = 0;
        while i < self.data.len()
            invariant
                i <= self.data@.len(),
                copied_data@ == self.data@.subrange(0, i as int),
            decreases self.data@.len() - i,
        {
            copied_data.push(self.data[i]);
            proof {
                assert(copied_data@ =~= self.data@.subrange(0, i + 1));
            }
            i = i + 1;
        }
        proof {
            assert(copied_data@ =~= self.data@);
        }
        RGBCanvas { width: self.width, height: self.height, data: copied_data }
    }
}

} // verus!
