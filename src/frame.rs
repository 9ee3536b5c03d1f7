//! The frame buffer: an RGB image of the `image` crate, seen through the bytes
//! it holds in row-major order, three per pixel (red, green, blue).

use image::RgbImage;
use vstd::prelude::*;

verus! {

/// An RGB image with eight bits per channel.
#[verifier::external_body]
pub struct Frame {
    image: RgbImage,
}

/// The subpixel bytes a frame holds, row-major, three per pixel.
pub uninterp spec fn frame_samples(f: Frame) -> Seq<u8>;

/// The width and height a frame was made with.
pub uninterp spec fn frame_dimensions(f: Frame) -> (u32, u32);

/// Number of bytes of a `width` by `height` RGB frame.
pub open spec fn frame_len(width: nat, height: nat) -> nat {
    3 * width * height
}

/// `ImageBuffer::new` can size a `width` by `height` RGB buffer: it
/// multiplies `3 * width` first, then by `height`, and neither product may
/// overflow `usize`.
pub open spec fn frame_fits(width: nat, height: nat) -> bool {
    &&& 3 * width <= usize::MAX
    &&& frame_len(width, height) <= usize::MAX
}

/// Offset of the first byte of pixel `(x, y)` in a frame `width` pixels wide.
pub open spec fn pixel_offset(width: int, x: int, y: int) -> int {
    3 * (y * width + x)
}

/// The three bytes of pixel `(x, y)` in the samples of a frame `width` wide.
pub open spec fn pixel_at(samples: Seq<u8>, width: int, x: int, y: int) -> Seq<u8> {
    samples.subrange(pixel_offset(width, x, y), pixel_offset(width, x, y) + 3)
}

/// `samples` with the three bytes from `at` on replaced by `rgb`.
pub open spec fn with_pixel(samples: Seq<u8>, at: int, rgb: [u8; 3]) -> Seq<u8> {
    samples.update(at, rgb[0]).update(at + 1, rgb[1]).update(at + 2, rgb[2])
}

impl Frame {
    pub open spec fn width_spec(&self) -> nat {
        frame_dimensions(*self).0 as nat
    }

    pub open spec fn height_spec(&self) -> nat {
        frame_dimensions(*self).1 as nat
    }

    /// The frame's bytes are exactly its pixels.
    pub open spec fn wf(&self) -> bool {
        frame_samples(*self).len() == frame_len(self.width_spec(), self.height_spec())
    }

    /// Relies on `ImageBuffer::new`: a zeroed buffer of `3 * width * height`
    /// bytes; it panics when `3 * width`, or that times `height`, overflows
    /// `usize`.
    #[verifier::external_body]
    pub(crate) fn new(width: u32, height: u32) -> (r: Frame)
        requires
            frame_fits(width as nat, height as nat),
        ensures
            frame_dimensions(r) == (width, height),
            frame_samples(r) == Seq::new(frame_len(width as nat, height as nat), |i: int| 0u8),
    {
        Frame { image: RgbImage::new(width, height) }
    }

    /// Relies on `ImageBuffer::width`.
    #[verifier::external_body]
    pub fn width(&self) -> (r: u32)
        ensures
            r == frame_dimensions(*self).0,
    {
        self.image.width()
    }

    /// Relies on `ImageBuffer::height`.
    #[verifier::external_body]
    pub fn height(&self) -> (r: u32)
        ensures
            r == frame_dimensions(*self).1,
    {
        self.image.height()
    }

    /// Relies on `ImageBuffer::as_raw`: the buffer behind the image, which
    /// holds at least `3 * width * height` bytes.
    #[verifier::external_body]
    pub fn as_bytes(&self) -> (r: &Vec<u8>)
        ensures
            r@ == frame_samples(*self),
            r@.len() >= frame_len(self.width_spec(), self.height_spec()),
    {
        self.image.as_raw()
    }

    /// Relies on `ImageBuffer::put_pixel`: it overwrites the three bytes of
    /// pixel `(x, y)` and panics when `(x, y)` lies outside the image.
    #[verifier::external_body]
    pub(crate) fn put_pixel(&mut self, x: u32, y: u32, rgb: [u8; 3])
        requires
            x < old(self).width_spec(),
            y < old(self).height_spec(),
        ensures
            frame_dimensions(*final(self)) == frame_dimensions(*old(self)),
            frame_samples(*final(self)) == with_pixel(
                frame_samples(*old(self)),
                pixel_offset(old(self).width_spec() as int, x as int, y as int),
                rgb,
            ),
    {
        self.image.put_pixel(x, y, image::Rgb(rgb))
    }

    /// Relies on `Clone` of `ImageBuffer`: a copy with the same size and bytes.
    #[verifier::external_body]
    pub(crate) fn snapshot(&self) -> (r: Frame)
        ensures
            frame_dimensions(r) == frame_dimensions(*self),
            frame_samples(r) == frame_samples(*self),
    {
        Frame { image: self.image.clone() }
    }
}

} // verus!
