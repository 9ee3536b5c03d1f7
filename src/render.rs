//! Render drivers: fill a frame pixel by pixel from a shading function.
//!
//! Image row `y` counts from the top; the shading function is handed the
//! column `x` and the screen row `height - 1 - y`, which counts from the
//! bottom, so that screen row `height - 1` is the top of the picture.

use crate::frame::{frame_dimensions, frame_fits, frame_len, frame_samples, pixel_at, pixel_offset, with_pixel, Frame};
use vstd::prelude::*;

verus! {

/// Width of the default output image.
pub const IMAGE_WIDTH: u32 = 1920;

/// Height of the default output image.
pub const IMAGE_HEIGHT: u32 = 1080;

/// Why a render cannot start.
#[derive(Debug, Clone, Copy, PartialEq, Eq)]
pub enum RenderError {
    /// The width or the height is below two, so the screen coordinates
    /// `x / (width - 1)` and `t / (height - 1)` of the pixels are undefined.
    DegenerateSize,
    /// The frame's bytes would not fit in memory.
    TooLarge,
}

/// The error a render of a `width` by `height` frame stops with, if any.
pub open spec fn size_error(width: u32, height: u32) -> Option<RenderError> {
    if width < 2 || height < 2 {
        Some(RenderError::DegenerateSize)
    } else if !frame_fits(width as nat, height as nat) {
        Some(RenderError::TooLarge)
    } else {
        None
    }
}

/// Tests the size of a frame before anything is allocated.
fn check_size(width: u32, height: u32) -> (r: Result<(), RenderError>)
    ensures
        match r {
            Ok(()) => size_error(width, height) is None,
            Err(e) => size_error(width, height) == Some(e),
        },
{
    if width < 2 || height < 2 {
        return Err(RenderError::DegenerateSize);
    }
    match 3usize.checked_mul(width as usize) {
        None => Err(RenderError::TooLarge),
        Some(row) => match row.checked_mul(height as usize) {
            None => Err(RenderError::TooLarge),
            Some(_) => Ok(()),
        },
    }
}

/// `px` is a colour that `shade` can return for column `x`, screen row `t`.
pub open spec fn shaded<F: Fn(u32, u32) -> [u8; 3]>(shade: F, x: int, t: int, px: Seq<u8>) -> bool {
    exists|c: [u8; 3]| #[trigger] shade.ensures((x as u32, t as u32), c) && c@ == px
}

/// The screen row that image row `y` shows.
pub open spec fn screen_row(height: int, y: int) -> int {
    height - 1 - y
}

/// The first `rows` image rows of `samples` hold what `shade` gives for them.
pub open spec fn rows_shaded<F: Fn(u32, u32) -> [u8; 3]>(
    samples: Seq<u8>,
    width: int,
    height: int,
    rows: int,
    shade: F,
) -> bool {
    forall|x: int, y: int|
        0 <= x < width && 0 <= y < rows ==> shaded(
            shade,
            x,
            screen_row(height, y),
            #[trigger] pixel_at(samples, width, x, y),
        )
}

/// Every byte from `from` on is zero.
pub open spec fn zero_from(samples: Seq<u8>, from: int) -> bool {
    forall|i: int| from <= i < samples.len() ==> #[trigger] samples[i] == 0
}

/// A `width` by `height` frame whose first `rows` rows are shaded and whose
/// other rows are still zero.
pub open spec fn partial_frame<F: Fn(u32, u32) -> [u8; 3]>(
    samples: Seq<u8>,
    width: int,
    height: int,
    rows: int,
    shade: F,
) -> bool {
    &&& samples.len() == frame_len(width as nat, height as nat)
    &&& rows_shaded(samples, width, height, rows, shade)
    &&& zero_from(samples, 3 * width * rows)
}

/// Every pixel of row `y` lies within the bytes of that row.
proof fn lemma_pixel_in_row(width: int, x: int, y: int)
    requires
        0 <= x < width,
        0 <= y,
    ensures
        3 * width * y <= pixel_offset(width, x, y),
        pixel_offset(width, x, y) + 3 <= 3 * width * (y + 1),
{
    assert(3 * width * y <= 3 * (y * width + x)) by (nonlinear_arith)
        requires
            0 <= x,
    ;
    assert(3 * (y * width + x) + 3 <= 3 * width * (y + 1)) by (nonlinear_arith)
        requires
            x < width,
    ;
}

/// Rows are laid out one after another.
proof fn lemma_rows_ordered(width: int, a: int, b: int)
    requires
        0 <= width,
        a <= b,
    ensures
        3 * width * a <= 3 * width * b,
{
    assert(3 * width * a <= 3 * width * b) by (nonlinear_arith)
        requires
            0 <= width,
            a <= b,
    ;
}

/// Shades image row `y` of `frame`, one pixel after another from the left.
fn render_row<F: Fn(u32, u32) -> [u8; 3]>(frame: &mut Frame, y: u32, shade: &F)
    requires
        old(frame).wf(),
        y < old(frame).height_spec(),
        forall|x: u32, t: u32| shade.requires((x, t)),
        partial_frame(
            frame_samples(*old(frame)),
            old(frame).width_spec() as int,
            old(frame).height_spec() as int,
            y as int,
            *shade,
        ),
    ensures
        frame_dimensions(*final(frame)) == frame_dimensions(*old(frame)),
        partial_frame(
            frame_samples(*final(frame)),
            old(frame).width_spec() as int,
            old(frame).height_spec() as int,
            y + 1,
            *shade,
        ),
        forall|i: int|
            0 <= i < 3 * old(frame).width_spec() * y ==> #[trigger] frame_samples(*final(frame))[i]
                == frame_samples(*old(frame))[i],
{
    let ghost start = frame_samples(*frame);
    let width = frame.width();
    let height = frame.height();
    let t = height - 1 - y;
    let ghost w = width as int;
    let ghost h = height as int;
    proof {
        lemma_rows_ordered(w, y + 1, h);
        assert(pixel_offset(w, 0, y as int) == 3 * w * y) by (nonlinear_arith);
    }
    let mut x: u32 = 0;
    while x < width
        invariant
            frame_dimensions(*frame) == (width, height),
            w == width,
            h == height,
            y < height,
            t == screen_row(h, y as int),
            3 * w * (y + 1) <= frame_len(w as nat, h as nat),
            0 <= x <= width,
            forall|x: u32, t: u32| shade.requires((x, t)),
            frame_samples(*frame).len() == frame_len(w as nat, h as nat),
            rows_shaded(frame_samples(*frame), w, h, y as int, *shade),
            forall|x1: int|
                0 <= x1 < x ==> shaded(
                    *shade,
                    x1,
                    t as int,
                    #[trigger] pixel_at(frame_samples(*frame), w, x1, y as int),
                ),
            zero_from(frame_samples(*frame), pixel_offset(w, x as int, y as int)),
            start.len() == frame_len(w as nat, h as nat),
            forall|i: int| 0 <= i < 3 * w * y ==> #[trigger] frame_samples(*frame)[i] == start[i],
        decreases width - x,
    {
        let rgb = shade(x, t);
        let ghost before = frame_samples(*frame);
        let ghost at = pixel_offset(w, x as int, y as int);
        proof {
            lemma_pixel_in_row(w, x as int, y as int);
        }
        frame.put_pixel(x, y, rgb);
        let ghost after = frame_samples(*frame);
        assert(after == with_pixel(before, at, rgb));
        assert forall|x1: int, y1: int| 0 <= x1 < w && 0 <= y1 < y implies shaded(
            *shade,
            x1,
            screen_row(h, y1),
            #[trigger] pixel_at(after, w, x1, y1),
        ) by {
            lemma_pixel_in_row(w, x1, y1);
            lemma_rows_ordered(w, y1 + 1, y as int);
            assert(pixel_at(after, w, x1, y1) =~= pixel_at(before, w, x1, y1));
        }
        assert forall|x1: int| 0 <= x1 < x + 1 implies shaded(
            *shade,
            x1,
            t as int,
            #[trigger] pixel_at(after, w, x1, y as int),
        ) by {
            if x1 < x {
                lemma_pixel_in_row(w, x1, y as int);
                assert(pixel_offset(w, x1, y as int) + 3 <= at);
                assert(pixel_at(after, w, x1, y as int) =~= pixel_at(before, w, x1, y as int));
            } else {
                assert(pixel_at(after, w, x1, y as int) =~= rgb@);
                assert(shade.ensures((x1 as u32, t), rgb));
            }
        }
        assert(pixel_offset(w, x + 1, y as int) == at + 3);
        x = x + 1;
    }
    proof {
        let s = frame_samples(*frame);
        assert forall|x1: int, y1: int| 0 <= x1 < w && 0 <= y1 < y + 1 implies shaded(
            *shade,
            x1,
            screen_row(h, y1),
            #[trigger] pixel_at(s, w, x1, y1),
        ) by {
            if y1 == y {
                assert(shaded(*shade, x1, t as int, pixel_at(s, w, x1, y as int)));
            }
        }
        assert(pixel_offset(w, w, y as int) == 3 * w * (y + 1)) by (nonlinear_arith);
    }
}

/// Renders a `width` by `height` frame: the pixel in column `x` of image row
/// `y` is what `shade` gives for column `x` and screen row `height - 1 - y`.
/// Fails, before anything is shaded, on a size that `size_error` refuses.
pub fn render<F: Fn(u32, u32) -> [u8; 3]>(width: u32, height: u32, shade: F) -> (r: Result<
    Frame,
    RenderError,
>)
    requires
        forall|x: u32, t: u32| shade.requires((x, t)),
    ensures
        match r {
            Ok(f) => {
                &&& size_error(width, height) is None
                &&& frame_dimensions(f) == (width, height)
                &&& partial_frame(frame_samples(f), width as int, height as int, height as int, shade)
            },
            Err(e) => size_error(width, height) == Some(e),
        },
{
    check_size(width, height)?;
    let mut frame = Frame::new(width, height);
    let mut y: u32 = 0;
    while y < height
        invariant
            frame_dimensions(frame) == (width, height),
            frame.wf(),
            y <= height,
            forall|x: u32, t: u32| shade.requires((x, t)),
            partial_frame(frame_samples(frame), width as int, height as int, y as int, shade),
        decreases height - y,
    {
        render_row(&mut frame, y, &shade);
        y = y + 1;
    }
    Ok(frame)
}

/// A render that proceeds one image row at a time, from the top, so that a
/// consumer can be shown the picture while it is being made.
pub struct ProgressiveRender<F> {
    frame: Frame,
    shade: F,
    next_row: u32,
}

impl<F: Fn(u32, u32) -> [u8; 3]> ProgressiveRender<F> {
    /// The frame rendered so far.
    pub closed spec fn frame_spec(&self) -> Frame {
        self.frame
    }

    /// The shading function the render uses.
    pub closed spec fn shade_spec(&self) -> F {
        self.shade
    }

    /// How many rows, counted from the top, are finished.
    pub closed spec fn rows_done_spec(&self) -> nat {
        self.next_row as nat
    }

    pub open spec fn width_spec(&self) -> int {
        self.frame_spec().width_spec() as int
    }

    pub open spec fn height_spec(&self) -> int {
        self.frame_spec().height_spec() as int
    }

    /// The finished rows are shaded, the others are still zero.
    pub open spec fn wf(&self) -> bool {
        &&& self.rows_done_spec() <= self.height_spec()
        &&& forall|x: u32, t: u32| self.shade_spec().requires((x, t))
        &&& partial_frame(
            frame_samples(self.frame_spec()),
            self.width_spec(),
            self.height_spec(),
            self.rows_done_spec() as int,
            self.shade_spec(),
        )
    }

    /// Starts a render of a `width` by `height` frame with no row done;
    /// fails on a size that `size_error` refuses.
    pub fn new(width: u32, height: u32, shade: F) -> (r: Result<Self, RenderError>)
        requires
            forall|x: u32, t: u32| shade.requires((x, t)),
        ensures
            match r {
                Ok(p) => {
                    &&& size_error(width, height) is None
                    &&& p.wf()
                    &&& frame_dimensions(p.frame_spec()) == (width, height)
                    &&& p.shade_spec() == shade
                    &&& p.rows_done_spec() == 0
                },
                Err(e) => size_error(width, height) == Some(e),
            },
    {
        check_size(width, height)?;
        let frame = Frame::new(width, height);
        Ok(ProgressiveRender { frame, shade, next_row: 0 })
    }

    pub fn width(&self) -> (r: u32)
        ensures
            r == self.width_spec(),
    {
        self.frame.width()
    }

    pub fn height(&self) -> (r: u32)
        ensures
            r == self.height_spec(),
    {
        self.frame.height()
    }

    /// How many rows are finished.
    pub fn rows_done(&self) -> (r: u32)
        ensures
            r == self.rows_done_spec(),
    {
        self.next_row
    }

    /// Whether every row is finished.
    pub fn is_finished(&self) -> (r: bool)
        requires
            self.wf(),
        ensures
            r == (self.rows_done_spec() == self.height_spec()),
    {
        self.next_row == self.frame.height()
    }

    /// Renders the next row, if one is left, and says whether it did.
    pub fn render_next_row(&mut self) -> (r: bool)
        requires
            old(self).wf(),
        ensures
            final(self).wf(),
            frame_dimensions(final(self).frame_spec()) == frame_dimensions(old(self).frame_spec()),
            final(self).shade_spec() == old(self).shade_spec(),
            r == (old(self).rows_done_spec() < old(self).height_spec()),
            final(self).rows_done_spec() == if r {
                old(self).rows_done_spec() + 1
            } else {
                old(self).rows_done_spec()
            },
            forall|i: int|
                0 <= i < 3 * old(self).width_spec() * old(self).rows_done_spec() ==> #[trigger] frame_samples(
                    final(self).frame_spec(),
                )[i] == frame_samples(old(self).frame_spec())[i],
    {
        if self.next_row < self.frame.height() {
            render_row(&mut self.frame, self.next_row, &self.shade);
            self.next_row = self.next_row + 1;
            true
        } else {
            false
        }
    }

    /// A copy of the frame as it stands: the finished rows shaded, the
    /// others zero.
    pub fn snapshot(&self) -> (r: Frame)
        requires
            self.wf(),
        ensures
            frame_dimensions(r) == frame_dimensions(self.frame_spec()),
            frame_samples(r) == frame_samples(self.frame_spec()),
            partial_frame(
                frame_samples(r),
                self.width_spec(),
                self.height_spec(),
                self.rows_done_spec() as int,
                self.shade_spec(),
            ),
    {
        self.frame.snapshot()
    }

    /// The frame as it stands.
    pub fn into_frame(self) -> (r: Frame)
        ensures
            r == self.frame_spec(),
    {
        self.frame
    }
}

/// `shade` gives one colour for each column and screen row.
pub open spec fn deterministic<F: Fn(u32, u32) -> [u8; 3]>(shade: F) -> bool {
    forall|x: u32, t: u32, a: [u8; 3], b: [u8; 3]|
        shade.ensures((x, t), a) && shade.ensures((x, t), b) ==> a == b
}

/// With a shading function that gives one colour per pixel, two frames of
/// the same size whose rows are all shaded hold the same bytes: the last
/// snapshot of a progressive render is the synchronous render of the same
/// size and shading.
pub proof fn lemma_finished_frames_equal<F: Fn(u32, u32) -> [u8; 3]>(
    width: u32,
    height: u32,
    shade: F,
    synchronous: Seq<u8>,
    progressive: Seq<u8>,
)
    requires
        deterministic(shade),
        partial_frame(synchronous, width as int, height as int, height as int, shade),
        partial_frame(progressive, width as int, height as int, height as int, shade),
    ensures
        synchronous == progressive,
{
    let w = width as int;
    let h = height as int;
    assert forall|i: int| 0 <= i < synchronous.len() implies synchronous[i] == progressive[i] by {
        let p = i / 3;
        let k = i % 3;
        assert(w > 0) by (nonlinear_arith)
            requires
                0 <= i < 3 * w * h,
                h >= 0,
        ;
        let y = p / w;
        let x = p % w;
        vstd::arithmetic::div_mod::lemma_fundamental_div_mod(i, 3);
        vstd::arithmetic::div_mod::lemma_fundamental_div_mod(p, w);
        assert(0 <= y < h) by (nonlinear_arith)
            requires
                p == w * y + x,
                0 <= x < w,
                0 <= i < 3 * w * h,
                i == 3 * p + k,
                0 <= k < 3,
        ;
        assert(i == pixel_offset(w, x, y) + k) by (nonlinear_arith)
            requires
                p == w * y + x,
                i == 3 * p + k,
        ;
        lemma_pixel_in_row(w, x, y);
        lemma_rows_ordered(w, y + 1, h);
        let ps = pixel_at(synchronous, w, x, y);
        let pp = pixel_at(progressive, w, x, y);
        assert(shaded(shade, x, screen_row(h, y), ps));
        assert(shaded(shade, x, screen_row(h, y), pp));
        let ca = choose|c: [u8; 3]| #[trigger] shade.ensures((x as u32, screen_row(h, y) as u32), c) && c@ == ps;
        let cb = choose|c: [u8; 3]| #[trigger] shade.ensures((x as u32, screen_row(h, y) as u32), c) && c@ == pp;
        assert(ca == cb);
        assert(ps[k] == synchronous[i]);
        assert(pp[k] == progressive[i]);
    }
    assert(synchronous =~= progressive);
}

/// Where `shade` gives, for every pixel, the colour `background` assigns to
/// its column and screen row (as a scene with no shapes gives its sky), a
/// finished frame shows that colour at every pixel.
pub proof fn lemma_uniform_shading_shows_background<F: Fn(u32, u32) -> [u8; 3]>(
    width: u32,
    height: u32,
    shade: F,
    background: spec_fn(int, int) -> Seq<u8>,
    samples: Seq<u8>,
)
    requires
        forall|x: u32, t: u32, c: [u8; 3]|
            #[trigger] shade.ensures((x, t), c) ==> c@ == background(x as int, t as int),
        partial_frame(samples, width as int, height as int, height as int, shade),
    ensures
        forall|x: int, y: int|
            0 <= x < width && 0 <= y < height ==> #[trigger] pixel_at(samples, width as int, x, y)
                == background(x, screen_row(height as int, y)),
{
    assert forall|x: int, y: int| 0 <= x < width && 0 <= y < height implies #[trigger] pixel_at(
        samples,
        width as int,
        x,
        y,
    ) == background(x, screen_row(height as int, y)) by {
        let px = pixel_at(samples, width as int, x, y);
        assert(shaded(shade, x, screen_row(height as int, y), px));
        let c = choose|c: [u8; 3]|
            #[trigger] shade.ensures((x as u32, screen_row(height as int, y) as u32), c) && c@ == px;
    }
}

} // verus!
