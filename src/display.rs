//! Conversion of a frame to the pixel format of a display window: one `u32`
//! per pixel, `0x00RRGGBB`.

use crate::frame::{frame_samples, Frame};
use vstd::prelude::*;

verus! {

/// The window pixel for the colour `(r, g, b)`: the bytes `0, r, g, b` read
/// as a big-endian `u32`.
pub open spec fn packed_rgb(r: u8, g: u8, b: u8) -> u32 {
    (r as int * 65536 + g as int * 256 + b as int) as u32
}

/// `0, r, g, b` read as a big-endian `u32`.
fn pack_rgb(r: u8, g: u8, b: u8) -> (p: u32)
    ensures
        p == packed_rgb(r, g, b),
        p as int == r as int * 65536 + g as int * 256 + b as int,
{
    (r as u32) * 65536 + (g as u32) * 256 + (b as u32)
}

/// Shows frames in a window.
pub struct Draw {}

impl Draw {
    pub fn new() -> (r: Draw) {
        Draw {  }
    }

    /// The pixels of `img`, row-major, each packed as `0x00RRGGBB`.
    pub fn rgb_to_vec(&self, img: Frame) -> (r: Vec<u32>)
        ensures
            r@.len() == img.width_spec() * img.height_spec(),
            forall|i: int|
                0 <= i < r@.len() ==> #[trigger] r@[i] == packed_rgb(
                    frame_samples(img)[3 * i],
                    frame_samples(img)[3 * i + 1],
                    frame_samples(img)[3 * i + 2],
                ),
    {
        let width = img.width();
        let height = img.height();
        let bytes = img.as_bytes();
        let len = bytes.len();
        proof {
            assert(3 * (width as int * height as int) <= len) by (nonlinear_arith)
                requires
                    3 * (width as int) * (height as int) <= len,
            ;
        }
        let count = (width as usize) * (height as usize);
        let mut res: Vec<u32> = Vec::with_capacity(count);
        let mut i: usize = 0;
        while i < count
            invariant
                count == img.width_spec() * img.height_spec(),
                3 * count <= bytes@.len(),
                bytes@.len() == len,
                bytes@ == frame_samples(img),
                i <= count,
                res@.len() == i,
                forall|j: int|
                    0 <= j < i ==> #[trigger] res@[j] == packed_rgb(
                        bytes@[3 * j],
                        bytes@[3 * j + 1],
                        bytes@[3 * j + 2],
                    ),
            decreases count - i,
        {
            let p = pack_rgb(bytes[3 * i], bytes[3 * i + 1], bytes[3 * i + 2]);
            res.push(p);
            i = i + 1;
        }
        res
    }
}

} // verus!
