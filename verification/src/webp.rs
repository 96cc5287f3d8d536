//! The chunks of a WebP file, as far as they are looked at before a decoder
//! is let onto the bytes.
//!
//! An extended WebP file opens with `RIFF`, the size of what follows, `WEBP`
//! and a `VP8X` chunk with flags and the size of the canvas. The frames of
//! an animation are `ANMF` chunks; the first of them is found by stepping
//! from chunk to chunk, each later one by the size of the one before. A
//! frame holds its place and size and then its image: a lossless chunk, a
//! lossy chunk, or an alpha chunk with a lossy chunk after it.
use vstd::prelude::*;

verus! {

/// The number of two bytes, the low one first.
pub open spec fn u16_at(data: Seq<u8>, at: int) -> int {
    data[at] + 256 * data[at + 1]
}

/// The number of three bytes, the lowest first.
pub open spec fn u24_at(data: Seq<u8>, at: int) -> int {
    data[at] + 256 * data[at + 1] + 65536 * data[at + 2]
}

/// The number of four bytes, the lowest first.
pub open spec fn u32_at(data: Seq<u8>, at: int) -> int {
    data[at] + 256 * data[at + 1] + 65536 * data[at + 2] + 16777216 * data[at + 3]
}

/// The four bytes at `at` are these.
pub open spec fn tag_at(data: Seq<u8>, at: int, a: u8, b: u8, c: u8, d: u8) -> bool {
    data[at] == a && data[at + 1] == b && data[at + 2] == c && data[at + 3] == d
}

/// A chunk of an odd size is followed by one byte of padding, but for the
/// largest size that four bytes can give.
pub open spec fn padded(size: int) -> int {
    if size % 2 == 1 && size < 0xFFFF_FFFF {
        size + 1
    } else {
        size
    }
}

/// The bytes open an extended WebP file: `RIFF`, a size, `WEBP`, and a
/// `VP8X` chunk with its ten bytes.
pub open spec fn is_extended(data: Seq<u8>) -> bool {
    &&& data.len() >= 30
    &&& tag_at(data, 0, 0x52, 0x49, 0x46, 0x46)
    &&& tag_at(data, 8, 0x57, 0x45, 0x42, 0x50)
    &&& tag_at(data, 12, 0x56, 0x50, 0x38, 0x58)
}

/// The header of an extended file flags an animation.
pub open spec fn flags_animation(data: Seq<u8>) -> bool {
    data[20] as int / 2 % 2 == 1
}

/// The width of the canvas of an extended file.
pub open spec fn canvas_width(data: Seq<u8>) -> int {
    u24_at(data, 24) + 1
}

/// The height of the canvas of an extended file.
pub open spec fn canvas_height(data: Seq<u8>) -> int {
    u24_at(data, 27) + 1
}

/// Where the chunks after the header chunk of an extended file begin.
pub open spec fn chunks_start(data: Seq<u8>) -> int {
    20 + padded(u32_at(data, 16))
}

/// Where the chunks of an extended file end, by the size that the file
/// gives of itself.
pub open spec fn chunks_end(data: Seq<u8>) -> int {
    chunks_start(data) + if u32_at(data, 4) >= 12 {
        u32_at(data, 4) - 12
    } else {
        0
    }
}

/// A chunk header can be read at `at`: eight bytes are there.
pub open spec fn header_at(data: Seq<u8>, at: int) -> bool {
    0 <= at && at + 8 <= data.len()
}

/// There is a frame chunk at `at`.
pub open spec fn is_frame(data: Seq<u8>, at: int) -> bool {
    tag_at(data, at, 0x41, 0x4E, 0x4D, 0x46)
}

/// The place of the first frame chunk at or after `from`, stepping from
/// chunk to chunk as long as a header can be read before the end.
pub open spec fn first_frame(data: Seq<u8>, from: int) -> Option<int>
    decreases data.len() - from,
{
    let step = padded(u32_at(data, from + 4));
    if from < 0 || from + 8 > data.len() || from >= chunks_end(data) {
        None
    } else if is_frame(data, from) {
        Some(from)
    } else if step < 0 || from + 8 + step > data.len() {
        None
    } else {
        first_frame(data, from + 8 + step)
    }
}

/// A frame can be read at `at`: a frame chunk of at least 32 bytes.
pub open spec fn frame_at(data: Seq<u8>, at: int) -> bool {
    header_at(data, at) && is_frame(data, at) && u32_at(data, at + 4) >= 32
}

/// The width that the frame chunk at `at` gives of its image.
pub open spec fn frame_width(data: Seq<u8>, at: int) -> int {
    u24_at(data, at + 14) + 1
}

/// The height that the frame chunk at `at` gives of its image.
pub open spec fn frame_height(data: Seq<u8>, at: int) -> int {
    u24_at(data, at + 17) + 1
}

/// Where the image after the alpha chunk of the frame at `at` begins.
pub open spec fn image_after_alpha(data: Seq<u8>, at: int) -> int {
    at + 32 + padded(u32_at(data, at + 28)) + 8
}

/// The bytes at `image` open a lossy key frame: an even first byte, the
/// start code, and two sizes of fourteen bits each.
pub open spec fn key_frame_at(data: Seq<u8>, image: int) -> bool {
    &&& image + 10 <= data.len()
    &&& data[image] % 2 == 0
    &&& data[image + 3] == 0x9d
    &&& data[image + 4] == 0x01
    &&& data[image + 5] == 0x2a
}

/// The frame at `at` opens with an alpha chunk, and the image after it is a
/// lossy key frame of another size than the frame chunk gives.
pub open spec fn alpha_frame_mismatch(data: Seq<u8>, at: int) -> bool {
    &&& at + 32 <= data.len()
    &&& tag_at(data, at + 24, 0x41, 0x4C, 0x50, 0x48)
    &&& key_frame_at(data, image_after_alpha(data, at))
    &&& {
        ||| u16_at(data, image_after_alpha(data, at) + 6) % 16384 != frame_width(data, at)
        ||| u16_at(data, image_after_alpha(data, at) + 8) % 16384 != frame_height(data, at)
    }
}

/// Of the frames from `at` on, each found by the size of the one before, the
/// first `limit` have no alpha chunk before a lossy image of another size.
pub open spec fn frames_sound(data: Seq<u8>, at: int, limit: nat) -> bool
    decreases limit,
{
    limit == 0 || !frame_at(data, at) || (!alpha_frame_mismatch(data, at) && frames_sound(
        data,
        at + 8 + u32_at(data, at + 4),
        (limit - 1) as nat,
    ))
}

/// In a file that flags an animation, the first `limit` frames can be
/// handed to a decoder: where one has an alpha chunk and a lossy image, the
/// image has the size of the frame.
pub open spec fn webp_frames_sound(data: Seq<u8>, limit: nat) -> bool {
    is_extended(data) && flags_animation(data) ==> match first_frame(data, chunks_start(data)) {
        Some(at) => frames_sound(data, at, limit),
        None => true,
    }
}

/// Four bytes for each pixel of the canvas of an extended file can be
/// counted in 32 bits.
pub open spec fn webp_canvas_small(data: Seq<u8>) -> bool {
    is_extended(data) ==> canvas_width(data) * canvas_height(data) < 0x4000_0000
}

/// The first frame of the file can be handed to a decoder.
pub open spec fn webp_still_sound(data: Seq<u8>) -> bool {
    webp_frames_sound(data, 1)
}

/// Every frame of the file can be handed to a decoder, and so can its
/// canvas.
pub open spec fn webp_animation_sound(data: Seq<u8>) -> bool {
    webp_frames_sound(data, data.len()) && webp_canvas_small(data)
}

/// The byte at `at`.
fn byte_at(data: &Vec<u8>, at: u64) -> (b: u8)
    requires
        at < data@.len(),
    ensures
        b == data@[at as int],
{
    let _ = data.len();
    data[at as usize]
}

/// The number of the two bytes at `at`.
fn read_u16(data: &Vec<u8>, at: u64) -> (n: u64)
    requires
        at + 2 <= data@.len(),
    ensures
        n == u16_at(data@, at as int),
        n < 0x1_0000,
{
    let _ = data.len();
    byte_at(data, at) as u64 + 256 * (byte_at(data, at + 1) as u64)
}

/// The number of the three bytes at `at`.
fn read_u24(data: &Vec<u8>, at: u64) -> (n: u64)
    requires
        at + 3 <= data@.len(),
    ensures
        n == u24_at(data@, at as int),
        n < 0x100_0000,
{
    let _ = data.len();
    byte_at(data, at) as u64 + 256 * (byte_at(data, at + 1) as u64) + 65536 * (byte_at(
        data,
        at + 2,
    ) as u64)
}

/// The number of the four bytes at `at`.
fn read_u32(data: &Vec<u8>, at: u64) -> (n: u64)
    requires
        at + 4 <= data@.len(),
    ensures
        n == u32_at(data@, at as int),
        n <= 0xFFFF_FFFF,
{
    let _ = data.len();
    byte_at(data, at) as u64 + 256 * (byte_at(data, at + 1) as u64) + 65536 * (byte_at(
        data,
        at + 2,
    ) as u64) + 16777216 * (byte_at(data, at + 3) as u64)
}

/// Whether the four bytes at `at` are these.
fn has_tag(data: &Vec<u8>, at: u64, a: u8, b: u8, c: u8, d: u8) -> (same: bool)
    requires
        at + 4 <= data@.len(),
    ensures
        same == tag_at(data@, at as int, a, b, c, d),
{
    let _ = data.len();
    byte_at(data, at) == a && byte_at(data, at + 1) == b && byte_at(data, at + 2) == c && byte_at(
        data,
        at + 3,
    ) == d
}

/// A size with its byte of padding.
fn pad(size: u64) -> (out: u64)
    requires
        size <= 0xFFFF_FFFF,
    ensures
        out == padded(size as int),
        out <= 0xFFFF_FFFF,
{
    if size % 2 == 1 && size < 0xFFFF_FFFF {
        size + 1
    } else {
        size
    }
}

/// Whether the bytes open an extended WebP file.
pub fn opens_extended(data: &Vec<u8>) -> (extended: bool)
    ensures
        extended == is_extended(data@),
{
    data.len() >= 30 && has_tag(data, 0, 0x52, 0x49, 0x46, 0x46) && has_tag(
        data,
        8,
        0x57,
        0x45,
        0x42,
        0x50,
    ) && has_tag(data, 12, 0x56, 0x50, 0x38, 0x58)
}

/// The place of the first frame chunk of an extended file.
pub fn find_first_frame(data: &Vec<u8>) -> (found: Option<u64>)
    requires
        is_extended(data@),
    ensures
        match found {
            Some(at) => first_frame(data@, chunks_start(data@)) == Some(at as int) && at + 8
                <= data@.len(),
            None => first_frame(data@, chunks_start(data@)) is None,
        },
{
    let len: u64 = data.len() as u64;
    let start: u64 = 20 + pad(read_u32(data, 16));
    let riff: u64 = read_u32(data, 4);
    let end: u64 = start + if riff >= 12 {
        riff - 12
    } else {
        0
    };
    let mut at: u64 = start;
    loop
        invariant
            len == data@.len(),
            len >= 30,
            end == chunks_end(data@),
            20 <= at,
            first_frame(data@, chunks_start(data@)) == first_frame(data@, at as int),
        decreases len - at,
    {
        if at >= end || at > len - 8 {
            return None;
        }
        if has_tag(data, at, 0x41, 0x4E, 0x4D, 0x46) {
            return Some(at);
        }
        let step: u64 = pad(read_u32(data, at + 4));
        if len - at < 16 || step > len - at - 16 {
            // The next header would end beyond the bytes.
            assert(at + 8 + step <= len ==> first_frame(data@, at + 8 + step) is None);
            return None;
        }
        at = at + 8 + step;
    }
}

/// Whether the frame at `at` opens with an alpha chunk before a lossy key
/// frame of another size.
pub fn has_alpha_frame_mismatch(data: &Vec<u8>, at: u64) -> (mismatch: bool)
    requires
        at + 8 <= data@.len(),
    ensures
        mismatch == alpha_frame_mismatch(data@, at as int),
{
    let len: u64 = data.len() as u64;
    if len - at < 32 {
        return false;
    }
    if !has_tag(data, at + 24, 0x41, 0x4C, 0x50, 0x48) {
        return false;
    }
    let alpha: u64 = pad(read_u32(data, at + 28));
    if len - at < 50 || alpha > len - at - 50 {
        return false;
    }
    let image: u64 = at + 40 + alpha;
    let key_frame = byte_at(data, image) % 2 == 0 && byte_at(data, image + 3) == 0x9d && byte_at(
        data,
        image + 4,
    ) == 0x01 && byte_at(data, image + 5) == 0x2a;
    if !key_frame {
        return false;
    }
    let width: u64 = read_u16(data, image + 6) % 16384;
    let height: u64 = read_u16(data, image + 8) % 16384;
    width != read_u24(data, at + 14) + 1 || height != read_u24(data, at + 17) + 1
}

/// Whether the first `limit` frames from `first` on are sound.
pub fn frames_are_sound(data: &Vec<u8>, first: u64, limit: usize) -> (sound: bool)
    ensures
        sound == frames_sound(data@, first as int, limit as nat),
{
    let len: u64 = data.len() as u64;
    let mut at: u64 = first;
    let mut left: usize = limit;
    loop
        invariant
            len == data@.len(),
            frames_sound(data@, first as int, limit as nat) == frames_sound(
                data@,
                at as int,
                left as nat,
            ),
        decreases left,
    {
        if left == 0 || len < 8 || at > len - 8 {
            return true;
        }
        if !has_tag(data, at, 0x41, 0x4E, 0x4D, 0x46) {
            return true;
        }
        let size: u64 = read_u32(data, at + 4);
        if size < 32 {
            return true;
        }
        if has_alpha_frame_mismatch(data, at) {
            return false;
        }
        if size > len - at - 8 {
            // The next frame would begin beyond the bytes.
            assert(!frame_at(data@, at + 8 + size));
            assert(frames_sound(data@, at + 8 + size, (left - 1) as nat));
            return true;
        }
        at = at + 8 + size;
        left = left - 1;
    }
}

/// Whether the first `limit` frames of a WebP file can be handed to a
/// decoder.
pub fn webp_frames_are_sound(data: &Vec<u8>, limit: usize) -> (sound: bool)
    ensures
        sound == webp_frames_sound(data@, limit as nat),
{
    if !opens_extended(data) {
        return true;
    }
    if byte_at(data, 20) / 2 % 2 != 1 {
        return true;
    }
    match find_first_frame(data) {
        Some(at) => frames_are_sound(data, at, limit),
        None => true,
    }
}

/// Whether the canvas of a WebP file is small enough for a decoder.
pub fn webp_canvas_is_small(data: &Vec<u8>) -> (small: bool)
    ensures
        small == webp_canvas_small(data@),
{
    if !opens_extended(data) {
        return true;
    }
    let width: u64 = read_u24(data, 24) + 1;
    let height: u64 = read_u24(data, 27) + 1;
    assert(width * height <= 0x100_0000 * 0x100_0000) by (nonlinear_arith)
        requires
            width <= 0x100_0000,
            height <= 0x100_0000,
    ;
    width * height < 0x4000_0000
}

/// Whether the first frame of a WebP file can be handed to a decoder.
pub fn webp_still_is_sound(data: &Vec<u8>) -> (sound: bool)
    ensures
        sound == webp_still_sound(data@),
{
    webp_frames_are_sound(data, 1)
}

/// Whether every frame of a WebP file, and its canvas, can be handed to a
/// decoder.
pub fn webp_animation_is_sound(data: &Vec<u8>) -> (sound: bool)
    ensures
        sound == webp_animation_sound(data@),
{
    webp_frames_are_sound(data, data.len()) && webp_canvas_is_small(data)
}

} // verus!
