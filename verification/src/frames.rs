//! Frame sampling: which frames of an animation are looked at, and how large
//! a frame may be when its pixels are handed on.
use vstd::prelude::*;

verus! {

/// Animations of at most this many frames are sampled in full.
pub const EVERY_FRAME_LIMIT: usize = 50;

/// Longer animations are thinned to about this many frames.
pub const SAMPLE_TARGET: usize = 25;

/// Longest edge, in pixels, of a frame that is looked at on its own.
pub const STILL_EDGE: u32 = 400;

/// Longest edge, in pixels, of each frame when several are looked at.
pub const ANIMATION_EDGE: u32 = 100;

/// A decoded raster: `width * height` pixels, row by row, four bytes each
/// (red, green, blue, alpha).
#[derive(Debug)]
pub struct Frame {
    pub width: u32,
    pub height: u32,
    pub pixels: Vec<u8>,
}

/// The mathematical content of a [`Frame`].
pub struct Raster {
    pub width: u32,
    pub height: u32,
    pub pixels: Seq<u8>,
}

impl View for Frame {
    type V = Raster;

    open spec fn view(&self) -> Raster {
        Raster { width: self.width, height: self.height, pixels: self.pixels@ }
    }
}

impl Raster {
    /// The pixel buffer holds exactly four bytes for each pixel.
    pub open spec fn wf(self) -> bool {
        self.pixels.len() == 4 * (self.width * self.height)
    }

    /// Neither edge is longer than `edge`.
    pub open spec fn fits(self, edge: u32) -> bool {
        self.width <= edge && self.height <= edge
    }

    /// The raster holds at least one pixel.
    pub open spec fn has_pixels(self) -> bool {
        self.width >= 1 && self.height >= 1
    }
}

/// The views of a vector of frames, in order.
pub open spec fn rasters(frames: Seq<Frame>) -> Seq<Raster> {
    Seq::new(frames.len(), |i: int| frames[i]@)
}

/// Every raster of the sequence is well formed.
pub open spec fn all_wf(frames: Seq<Raster>) -> bool {
    forall|i: int| 0 <= i < frames.len() ==> (#[trigger] frames[i]).wf()
}

/// Every raster of the sequence holds at least one pixel.
pub open spec fn all_have_pixels(frames: Seq<Raster>) -> bool {
    forall|i: int| 0 <= i < frames.len() ==> (#[trigger] frames[i]).has_pixels()
}

/// The four bytes of the pixel at place `p` of a buffer.
pub open spec fn pixel_at(pixels: Seq<u8>, p: int) -> Seq<u8> {
    pixels.subrange(4 * p, 4 * p + 4)
}

/// The buffer holds the pixel.
pub open spec fn holds_pixel(source: Seq<u8>, pixel: Seq<u8>) -> bool {
    exists|q: int| 0 <= q < source.len() / 4 && pixel == #[trigger] pixel_at(source, q)
}

/// Every pixel of `pixels` is a pixel of `source`.
pub open spec fn pixels_from(pixels: Seq<u8>, source: Seq<u8>) -> bool {
    forall|p: int|
        0 <= p < pixels.len() / 4 ==> holds_pixel(source, #[trigger] pixel_at(pixels, p))
}

/// The pixel at place `p` is a pixel of one of the first `upto` frames that
/// is sampled.
pub open spec fn in_sampled_frame(pixel: Seq<u8>, frames: Seq<Raster>, upto: int) -> bool {
    exists|i: int, q: int|
        0 <= i < upto && is_sampled(i, frames.len() as int) && 0 <= q < frames[i].pixels.len() / 4
            && pixel == #[trigger] pixel_at(frames[i].pixels, q)
}

/// Every pixel of `pixels` is a pixel of a sampled frame.
pub open spec fn pixels_from_sampled(pixels: Seq<u8>, frames: Seq<Raster>) -> bool {
    forall|p: int|
        0 <= p < pixels.len() / 4 ==> in_sampled_frame(
            #[trigger] pixel_at(pixels, p),
            frames,
            frames.len() as int,
        )
}

/// The buffer shows a pixel of the frame.
pub open spec fn shows_frame(pixels: Seq<u8>, frame: Seq<u8>) -> bool {
    exists|p: int| 0 <= p < pixels.len() / 4 && holds_pixel(frame, #[trigger] pixel_at(pixels, p))
}

/// The buffer shows a pixel of each sampled frame among the first `upto`.
pub open spec fn shows_sampled(pixels: Seq<u8>, frames: Seq<Raster>, upto: int) -> bool {
    forall|i: int|
        0 <= i < upto && is_sampled(i, frames.len() as int) ==> shows_frame(
            pixels,
            (#[trigger] frames[i]).pixels,
        )
}

/// The pixels of two buffers set one after the other are those of the first
/// and then those of the second.
pub proof fn lemma_pixel_of_concat(a: Seq<u8>, b: Seq<u8>, p: int)
    requires
        a.len() % 4 == 0,
        0 <= p < (a.len() + b.len()) / 4,
    ensures
        p < a.len() / 4 ==> pixel_at(a + b, p) == pixel_at(a, p),
        p >= a.len() / 4 ==> pixel_at(a + b, p) == pixel_at(b, p - a.len() / 4),
{
    if p < a.len() / 4 {
        assert(pixel_at(a + b, p) =~= pixel_at(a, p));
    } else {
        assert(pixel_at(a + b, p) =~= pixel_at(b, p - a.len() / 4));
    }
}

impl Frame {
    /// The pixel buffer holds exactly four bytes for each pixel.
    pub open spec fn wf(&self) -> bool {
        self@.wf()
    }

    /// A frame of the given size, or `None` where the buffer does not hold
    /// four bytes for each pixel.
    pub fn new(width: u32, height: u32, pixels: Vec<u8>) -> (out: Option<Frame>)
        ensures
            out is Some <==> pixels@.len() == 4 * (width * height),
            out matches Some(f) ==> f.wf() && f@ == (Raster { width, height, pixels: pixels@ }),
    {
        assert(width * height <= 0xFFFF_FFFF * 0xFFFF_FFFF) by (nonlinear_arith)
            requires
                width <= 0xFFFF_FFFF,
                height <= 0xFFFF_FFFF,
        ;
        let area: u64 = (width as u64) * (height as u64);
        let wanted: u128 = 4 * (area as u128);
        if pixels.len() as u128 == wanted {
            Some(Frame { width, height, pixels })
        } else {
            None
        }
    }
}

/// Frames in two colours give sampled pixels in those two colours: where
/// every pixel of every frame is one of two pixels, so is every pixel that
/// comes from a sampled frame.
pub proof fn lemma_sampled_pixels_keep_colours(
    pixels: Seq<u8>,
    frames: Seq<Raster>,
    first: Seq<u8>,
    second: Seq<u8>,
)
    requires
        pixels_from_sampled(pixels, frames),
        forall|i: int, q: int|
            0 <= i < frames.len() && 0 <= q < frames[i].pixels.len() / 4 ==> {
                ||| #[trigger] pixel_at(frames[i].pixels, q) == first
                ||| pixel_at(frames[i].pixels, q) == second
            },
    ensures
        forall|p: int|
            0 <= p < pixels.len() / 4 ==> {
                ||| #[trigger] pixel_at(pixels, p) == first
                ||| pixel_at(pixels, p) == second
            },
{
    assert forall|p: int| 0 <= p < pixels.len() / 4 implies {
        ||| #[trigger] pixel_at(pixels, p) == first
        ||| pixel_at(pixels, p) == second
    } by {
        assert(in_sampled_frame(pixel_at(pixels, p), frames, frames.len() as int));
    }
}

/// A sampled frame in one colour shows that colour: where the buffer shows
/// a pixel of each sampled frame and every pixel of a sampled frame is the
/// same, that pixel is in the buffer.
pub proof fn lemma_sampled_frame_shows_its_colour(
    pixels: Seq<u8>,
    frames: Seq<Raster>,
    i: int,
    colour: Seq<u8>,
)
    requires
        shows_sampled(pixels, frames, frames.len() as int),
        0 <= i < frames.len(),
        is_sampled(i, frames.len() as int),
        forall|q: int|
            0 <= q < frames[i].pixels.len() / 4 ==> #[trigger] pixel_at(frames[i].pixels, q)
                == colour,
    ensures
        exists|p: int| 0 <= p < pixels.len() / 4 && #[trigger] pixel_at(pixels, p) == colour,
{
    assert(shows_frame(pixels, frames[i].pixels));
    let p = choose|p: int|
        0 <= p < pixels.len() / 4 && holds_pixel(frames[i].pixels, #[trigger] pixel_at(pixels, p));
    assert(pixel_at(pixels, p) == colour);
}

/// The raster that `image::DynamicImage::resize` makes of a raster and a
/// bound on both edges, with the nearest-neighbour filter.
pub uninterp spec fn resized(width: u32, height: u32, pixels: Seq<u8>, edge: u32) -> Raster;

/// Calls `DynamicImage::resize(edge, edge, FilterType::Nearest)` of the
/// `image` crate on the frame, taken as an RGBA image. The result is a
/// function of the frame and the bound alone. It is an RGBA image again. For
/// a bound of at least one pixel it is scaled, with its aspect ratio kept,
/// to fit within the bound on both edges, and each of its edges keeps at
/// least one pixel. With this filter each pixel of the result is the one
/// pixel of the frame that lies under its centre, so the result of a frame
/// that has pixels holds no pixel that the frame does not hold.
#[verifier::external_body]
fn resize_nearest(frame: &Frame, edge: u32) -> (out: Frame)
    requires
        frame.wf(),
    ensures
        out@ == resized(frame.width, frame.height, frame.pixels@, edge),
        out.wf(),
        edge >= 1 ==> out@.fits(edge),
        edge >= 1 ==> out.width >= 1 && out.height >= 1,
        frame@.has_pixels() ==> pixels_from(out.pixels@, frame.pixels@),
{
    let buffer = image::RgbaImage::from_raw(frame.width, frame.height, frame.pixels.clone()).unwrap();
    let small = image::DynamicImage::ImageRgba8(buffer)
        .resize(edge, edge, image::imageops::FilterType::Nearest)
        .into_rgba8();
    Frame { width: small.width(), height: small.height(), pixels: small.into_raw() }
}

/// A raster with its longer edge brought down to at most `edge`: itself
/// where it fits already (a raster is never enlarged), the resized one
/// otherwise.
pub open spec fn bounded(raster: Raster, edge: u32) -> Raster {
    if raster.fits(edge) {
        raster
    } else {
        resized(raster.width, raster.height, raster.pixels, edge)
    }
}

/// The pixels of a raster once its longer edge is at most `edge`.
pub open spec fn bounded_pixels(raster: Raster, edge: u32) -> Seq<u8> {
    bounded(raster, edge).pixels
}

/// A well-formed raster within a bound holds at most four bytes for each
/// pixel of a square of that edge, and at least four where it has a pixel.
pub proof fn lemma_fitting_size(raster: Raster, edge: u32)
    requires
        raster.wf(),
        raster.fits(edge),
    ensures
        raster.pixels.len() <= 4 * (edge * edge),
        raster.pixels.len() % 4 == 0,
        raster.has_pixels() ==> raster.pixels.len() >= 4,
{
    assert(raster.width * raster.height <= edge * edge) by (nonlinear_arith)
        requires
            0 <= raster.width <= edge,
            0 <= raster.height <= edge,
    ;
    if raster.has_pixels() {
        assert(raster.width * raster.height >= 1) by (nonlinear_arith)
            requires
                raster.width >= 1,
                raster.height >= 1,
        ;
    }
}

/// Every how many frames one is sampled: each one up to
/// [`EVERY_FRAME_LIMIT`] frames, one in `frame_count / 25` beyond.
pub open spec fn sampling_step(frame_count: int) -> int {
    if frame_count <= EVERY_FRAME_LIMIT as int {
        1
    } else {
        frame_count / SAMPLE_TARGET as int
    }
}

/// The frame at `index` is sampled: its index is a multiple of the step.
pub open spec fn is_sampled(index: int, frame_count: int) -> bool {
    index % sampling_step(frame_count) == 0
}

/// How many of the frames before `upto` are sampled.
pub open spec fn sampled_before(frame_count: int, upto: int) -> int
    decreases upto,
{
    if upto <= 0 {
        0
    } else {
        sampled_before(frame_count, upto - 1) + if is_sampled(upto - 1, frame_count) {
            1int
        } else {
            0int
        }
    }
}

/// How many frames of an animation are sampled.
pub open spec fn sampled_count(frame_count: int) -> int {
    sampled_before(frame_count, frame_count)
}

/// The bound on both edges of each sampled frame: [`STILL_EDGE`] where one
/// frame is sampled overall, [`ANIMATION_EDGE`] otherwise.
pub open spec fn edge_limit(frame_count: int) -> u32 {
    if sampled_count(frame_count) == 1 {
        STILL_EDGE
    } else {
        ANIMATION_EDGE
    }
}

/// The bounded pixels of the sampled frames among the first `upto`, in order.
pub open spec fn sampled_pixels(frames: Seq<Raster>, upto: int) -> Seq<u8>
    decreases upto,
{
    if upto <= 0 {
        Seq::empty()
    } else if is_sampled(upto - 1, frames.len() as int) {
        sampled_pixels(frames, upto - 1) + bounded_pixels(
            frames[upto - 1],
            edge_limit(frames.len() as int),
        )
    } else {
        sampled_pixels(frames, upto - 1)
    }
}

/// The step is at least one, so the frame at index zero is always sampled.
pub proof fn lemma_step_positive(frame_count: int)
    ensures
        sampling_step(frame_count) >= 1,
        frame_count >= 1 ==> is_sampled(0, frame_count),
{
}

/// Of the first `upto` frames, rounded up, one in `step` is sampled.
pub proof fn lemma_sampled_before(frame_count: int, upto: int)
    requires
        0 <= upto,
    ensures
        sampled_before(frame_count, upto) == (upto + sampling_step(frame_count) - 1)
            / sampling_step(frame_count),
    decreases upto,
{
    let step = sampling_step(frame_count);
    if upto > 0 {
        lemma_sampled_before(frame_count, upto - 1);
        lemma_ceil_div_succ(upto - 1, step);
    } else {
        assert((step - 1) / step == 0) by (nonlinear_arith)
            requires
                step >= 1,
        ;
    }
}

/// Rounding `n / d` up, one step at a time: the quotient grows by one exactly
/// where `n` is a multiple of `d`.
proof fn lemma_ceil_div_succ(n: int, d: int)
    requires
        0 <= n,
        1 <= d,
    ensures
        (n + 1 + d - 1) / d == (n + d - 1) / d + if n % d == 0 {
            1int
        } else {
            0int
        },
{
    let q = n / d;
    let r = n % d;
    assert(n == q * d + r && 0 <= r < d) by (nonlinear_arith)
        requires
            q == n / d,
            r == n % d,
            1 <= d,
    ;
    if r == 0 {
        assert((q * d + d - 1) / d == q && (q * d + d) / d == q + 1) by (nonlinear_arith)
            requires
                1 <= d,
        ;
    } else {
        assert((q * d + r + d - 1) / d == q + 1 && (q * d + r + d) / d == q + 1)
            by (nonlinear_arith)
            requires
                1 <= d,
                0 < r < d,
        ;
    }
}

/// The number of sampled frames: all of them up to fifty frames; beyond, the
/// frame count divided by the step `frame_count / 25`, rounded up.
pub proof fn lemma_sampled_count(frame_count: int)
    requires
        0 <= frame_count,
    ensures
        frame_count <= 50 ==> sampled_count(frame_count) == frame_count,
        frame_count > 50 ==> sampled_count(frame_count) == (frame_count + frame_count / 25 - 1) / (
        frame_count / 25),
{
    lemma_sampled_before(frame_count, frame_count);
}

/// However long the animation, at most fifty frames are sampled, and at most
/// thirty-seven once it has more than fifty frames.
pub proof fn lemma_sampled_count_bounded(frame_count: int)
    requires
        0 <= frame_count,
    ensures
        0 <= sampled_count(frame_count) <= 50,
        frame_count > 50 ==> 25 <= sampled_count(frame_count) <= 37,
{
    lemma_sampled_count(frame_count);
    if frame_count > 50 {
        let step = frame_count / 25;
        assert(25 <= (frame_count + step - 1) / step <= 37) by (nonlinear_arith)
            requires
                step == frame_count / 25,
                frame_count > 50,
        ;
    }
}

/// About twenty-five frames are sampled, twenty-six at most, exactly where
/// the animation has at most twenty-six frames, or more than fifty and a
/// remainder by twenty-five that is no more than the step (as it is for
/// every animation of six hundred frames or more).
pub proof fn lemma_sampled_count_near_target(frame_count: int)
    requires
        0 <= frame_count,
    ensures
        sampled_count(frame_count) <= 26 <==> (frame_count <= 26 || (frame_count > 50
            && frame_count % 25 <= frame_count / 25)),
        frame_count >= 600 ==> 25 <= sampled_count(frame_count) <= 26,
{
    lemma_sampled_count(frame_count);
    lemma_sampled_count_bounded(frame_count);
    if frame_count > 50 {
        let step = frame_count / 25;
        let rest = frame_count % 25;
        if rest <= step {
            assert((frame_count + step - 1) / step <= 26) by (nonlinear_arith)
                requires
                    step == frame_count / 25,
                    rest == frame_count % 25,
                    rest <= step,
                    frame_count > 50,
            ;
        } else {
            assert((frame_count + step - 1) / step >= 27) by (nonlinear_arith)
                requires
                    step == frame_count / 25,
                    rest == frame_count % 25,
                    rest > step,
                    frame_count > 50,
            ;
        }
    }
}

/// One frame is sampled overall exactly where the animation has one frame.
pub proof fn lemma_single_sample(frame_count: int)
    requires
        0 <= frame_count,
    ensures
        sampled_count(frame_count) == 1 <==> frame_count == 1,
{
    lemma_sampled_count(frame_count);
    lemma_sampled_count_bounded(frame_count);
}

/// Every how many frames of an animation one is sampled.
pub fn frame_step(frame_count: usize) -> (step: usize)
    ensures
        step == sampling_step(frame_count as int),
        step >= 1,
{
    if frame_count <= EVERY_FRAME_LIMIT {
        1
    } else {
        frame_count / SAMPLE_TARGET
    }
}

/// Whether the frame at `index` of an animation of `frame_count` frames is
/// sampled.
pub fn is_sampled_frame(index: usize, frame_count: usize) -> (sampled: bool)
    ensures
        sampled == is_sampled(index as int, frame_count as int),
{
    index % frame_step(frame_count) == 0
}

/// How many frames of an animation of `frame_count` frames are sampled.
pub fn sampled_frame_count(frame_count: usize) -> (count: usize)
    ensures
        count == sampled_count(frame_count as int),
        frame_count <= 50 ==> count == frame_count,
        frame_count > 50 ==> count == (frame_count + frame_count / 25 - 1) / (frame_count as int
            / 25),
        count <= 50,
        frame_count >= 1 ==> count >= 1,
{
    proof {
        lemma_sampled_before(frame_count as int, frame_count as int);
        lemma_sampled_count(frame_count as int);
        lemma_sampled_count_bounded(frame_count as int);
    }
    let step = frame_step(frame_count);
    if frame_count == 0 {
        0
    } else {
        assert((frame_count - 1) / (step as int) + 1 == (frame_count + step - 1) / (step as int))
            by (nonlinear_arith)
            requires
                step >= 1,
                frame_count >= 1,
        ;
        (frame_count - 1) / step + 1
    }
}

/// The bound on both edges of the sampled frames of an animation.
pub fn frame_edge_limit(frame_count: usize) -> (edge: u32)
    ensures
        edge == edge_limit(frame_count as int),
        edge == if frame_count == 1 {
            STILL_EDGE
        } else {
            ANIMATION_EDGE
        },
{
    proof {
        lemma_single_sample(frame_count as int);
    }
    if frame_count == 1 {
        STILL_EDGE
    } else {
        ANIMATION_EDGE
    }
}

/// A frame with its longer edge brought down to at most `edge`. A frame that
/// fits is handed back as it is; a larger one is resized with the
/// nearest-neighbour filter, keeping its aspect ratio. A frame with a pixel
/// keeps at least one.
pub fn bound_frame(frame: &Frame, edge: u32) -> (out: Frame)
    requires
        frame.wf(),
    ensures
        out@ == bounded(frame@, edge),
        out.wf(),
        edge >= 1 ==> out@.fits(edge),
        edge >= 1 && frame@.has_pixels() ==> out@.has_pixels(),
        frame@.has_pixels() ==> pixels_from(out.pixels@, frame.pixels@),
{
    if frame.width <= edge && frame.height <= edge {
        let pixels = frame.pixels.clone();
        assert(pixels@ =~= frame.pixels@);
        assert forall|p: int| 0 <= p < pixels@.len() / 4 implies holds_pixel(
            frame.pixels@,
            #[trigger] pixel_at(pixels@, p),
        ) by {
            assert(pixel_at(pixels@, p) == pixel_at(frame.pixels@, p));
        }
        Frame { width: frame.width, height: frame.height, pixels }
    } else {
        resize_nearest(frame, edge)
    }
}

/// The pixels of a still image, bounded to [`STILL_EDGE`] on its longer
/// edge: those of a well-formed raster of at most 400 by 400 pixels, four
/// bytes for each pixel. For an image that has a pixel they are not empty,
/// and each of them is a pixel of the image.
pub fn get_bytes_for_static_image(img: &Frame) -> (out: Vec<u8>)
    requires
        img.wf(),
    ensures
        out@ == bounded_pixels(img@, STILL_EDGE),
        bounded(img@, STILL_EDGE).wf(),
        bounded(img@, STILL_EDGE).fits(STILL_EDGE),
        img@.has_pixels() ==> bounded(img@, STILL_EDGE).has_pixels(),
        out@.len() == 4 * (bounded(img@, STILL_EDGE).width * bounded(img@, STILL_EDGE).height),
        out@.len() % 4 == 0,
        out@.len() <= 640_000,
        img@.has_pixels() ==> out@.len() > 0,
        img@.has_pixels() ==> pixels_from(out@, img.pixels@),
{
    let small = bound_frame(img, STILL_EDGE);
    proof {
        lemma_fitting_size(small@, STILL_EDGE);
    }
    small.pixels
}

/// The pixels of the sampled frames of an animation, one frame after the
/// other: every frame up to fifty frames, every `frame_count / 25`-th beyond,
/// each bounded to [`STILL_EDGE`] where the animation has a single frame and
/// to [`ANIMATION_EDGE`] otherwise. That is at most four bytes for each pixel
/// of a square of that edge and each sampled frame, 2,000,000 bytes at most,
/// and not nothing where the first frame has a pixel. Where every frame has
/// a pixel, each pixel of the result is a pixel of a sampled frame, and each
/// sampled frame has a pixel in the result.
pub fn get_bytes_for_animated_image(frames: &Vec<Frame>) -> (out: Vec<u8>)
    requires
        frames@.len() > 0,
        all_wf(rasters(frames@)),
    ensures
        out@ == sampled_pixels(rasters(frames@), frames@.len() as int),
        out@.len() % 4 == 0,
        out@.len() <= sampled_count(frames@.len() as int) * (4 * (edge_limit(
            frames@.len() as int,
        ) * edge_limit(frames@.len() as int))),
        out@.len() <= 2_000_000,
        frames@[0]@.has_pixels() ==> out@.len() > 0,
        all_have_pixels(rasters(frames@)) ==> pixels_from_sampled(out@, rasters(frames@)),
        all_have_pixels(rasters(frames@)) ==> shows_sampled(
            out@,
            rasters(frames@),
            frames@.len() as int,
        ),
{
    let count = frames.len();
    let step = frame_step(count);
    let edge = frame_edge_limit(count);
    let mut out: Vec<u8> = Vec::new();
    let mut index: usize = 0;
    while index < count
        invariant
            index <= count,
            count == frames@.len(),
            step == sampling_step(count as int),
            step >= 1,
            edge == edge_limit(count as int),
            edge == STILL_EDGE || edge == ANIMATION_EDGE,
            all_wf(rasters(frames@)),
            out@ == sampled_pixels(rasters(frames@), index as int),
            out@.len() % 4 == 0,
            out@.len() <= sampled_before(count as int, index as int) * (4 * (edge * edge)),
            index >= 1 && frames@[0]@.has_pixels() ==> out@.len() > 0,
            all_have_pixels(rasters(frames@)) ==> forall|p: int|
                0 <= p < out@.len() / 4 ==> in_sampled_frame(
                    #[trigger] pixel_at(out@, p),
                    rasters(frames@),
                    index as int,
                ),
            all_have_pixels(rasters(frames@)) ==> shows_sampled(
                out@,
                rasters(frames@),
                index as int,
            ),
        decreases count - index,
    {
        if index % step == 0 {
            assert(rasters(frames@)[index as int].wf());
            let small = bound_frame(&frames[index], edge);
            let mut pixels = small.pixels;
            let ghost before = out@;
            let ghost added = pixels@;
            proof {
                lemma_fitting_size(small@, edge);
                assert((sampled_before(count as int, index as int) + 1) * (4 * (edge * edge))
                    == sampled_before(count as int, index as int) * (4 * (edge * edge)) + 4 * (edge
                    * edge)) by (nonlinear_arith);
            }
            out.append(&mut pixels);
            proof {
                let all = rasters(frames@);
                if all_have_pixels(all) {
                    assert(all[index as int].has_pixels());
                    assert(pixels_from(added, all[index as int].pixels));
                    assert forall|p: int| 0 <= p < out@.len() / 4 implies in_sampled_frame(
                        #[trigger] pixel_at(out@, p),
                        all,
                        index + 1,
                    ) by {
                        lemma_pixel_of_concat(before, added, p);
                        if p < before.len() / 4 {
                            assert(in_sampled_frame(pixel_at(before, p), all, index as int));
                        } else {
                            let r = p - before.len() / 4;
                            assert(holds_pixel(all[index as int].pixels, pixel_at(added, r)));
                            let q = choose|q: int|
                                0 <= q < all[index as int].pixels.len() / 4 && pixel_at(added, r)
                                    == pixel_at(all[index as int].pixels, q);
                            assert(pixel_at(out@, p) == pixel_at(all[index as int].pixels, q));
                        }
                    }
                    assert forall|i: int|
                        0 <= i < index + 1 && is_sampled(i, all.len() as int) implies shows_frame(
                        out@,
                        (#[trigger] all[i]).pixels,
                    ) by {
                        if i < index {
                            assert(shows_frame(before, all[i].pixels));
                            let p = choose|p: int|
                                0 <= p < before.len() / 4 && holds_pixel(
                                    all[i].pixels,
                                    #[trigger] pixel_at(before, p),
                                );
                            lemma_pixel_of_concat(before, added, p);
                            assert(holds_pixel(all[i].pixels, pixel_at(out@, p)));
                        } else {
                            let p = (before.len() / 4) as int;
                            lemma_pixel_of_concat(before, added, p);
                            assert(holds_pixel(all[i].pixels, pixel_at(added, 0)));
                            assert(holds_pixel(all[i].pixels, pixel_at(out@, p)));
                        }
                    }
                }
            }
        } else {
            proof {
                let all = rasters(frames@);
                if all_have_pixels(all) {
                    assert forall|p: int| 0 <= p < out@.len() / 4 implies in_sampled_frame(
                        #[trigger] pixel_at(out@, p),
                        all,
                        index + 1,
                    ) by {
                        assert(in_sampled_frame(pixel_at(out@, p), all, index as int));
                    }
                    assert(!is_sampled(index as int, all.len() as int));
                }
            }
        }
        index = index + 1;
    }
    proof {
        let sampled = sampled_count(count as int);
        lemma_sampled_count_bounded(count as int);
        lemma_single_sample(count as int);
        if sampled == 1 {
            assert(sampled * (4 * (edge * edge)) <= 2_000_000) by (nonlinear_arith)
                requires
                    sampled == 1,
                    edge <= 400,
            ;
        } else {
            assert(sampled * (4 * (edge * edge)) <= 2_000_000) by (nonlinear_arith)
                requires
                    0 <= sampled <= 50,
                    edge == 100,
            ;
        }
    }
    out
}

} // verus!
