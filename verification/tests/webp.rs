use dominant_colours::decode::Format;
use dominant_colours::get_bytes::get_bytes_for_image;
use dominant_colours::get_image_colors::{
    get_image_colors, is_animated_webp, webp_animation_bytes, GetImageColorsErr,
};
use dominant_colours::webp::{
    find_first_frame, frames_are_sound, has_alpha_frame_mismatch, opens_extended,
    webp_animation_is_sound, webp_canvas_is_small, webp_frames_are_sound, webp_still_is_sound,
};
use image::{ExtendedColorType, Rgba, RgbaImage};

const UNSOUND: &str =
    "The WebP file holds a frame of another size than its image, or a canvas too large";

// A lossy key frame of two by two red pixels.
const LOSSY_2X2: [u8; 48] = [
    0xd0, 0x01, 0x00, 0x9d, 0x01, 0x2a, 0x02, 0x00, 0x02, 0x00, 0x02, 0x00, 0x34, 0x25, 0xa0, 0x02,
    0x74, 0xba, 0x01, 0xf8, 0x00, 0x03, 0xb0, 0x00, 0xfe, 0xf0, 0xc4, 0x0b, 0xff, 0x20, 0xb9, 0x61,
    0x75, 0xc8, 0xd7, 0xff, 0x20, 0x3f, 0xe4, 0x07, 0xfc, 0x80, 0xff, 0xf8, 0xf2, 0x00, 0x00, 0x00,
];

fn chunk(tag: &[u8; 4], payload: &[u8]) -> Vec<u8> {
    let mut out = tag.to_vec();
    out.extend_from_slice(&(payload.len() as u32).to_le_bytes());
    out.extend_from_slice(payload);
    if payload.len() % 2 == 1 {
        out.push(0);
    }
    out
}

fn u24(n: u32) -> [u8; 3] {
    [n as u8, (n >> 8) as u8, (n >> 16) as u8]
}

// A frame chunk of the given size that holds the given chunks.
fn frame(width: u32, height: u32, image: &[u8]) -> Vec<u8> {
    let mut payload = Vec::new();
    payload.extend_from_slice(&u24(0));
    payload.extend_from_slice(&u24(0));
    payload.extend_from_slice(&u24(width - 1));
    payload.extend_from_slice(&u24(height - 1));
    payload.extend_from_slice(&u24(100));
    payload.push(0x02);
    payload.extend_from_slice(image);
    chunk(b"ANMF", &payload)
}

// A frame with an alpha chunk without compression and a lossy image.
fn alpha_frame(width: u32, height: u32, lossy: &[u8]) -> Vec<u8> {
    let mut alpha = vec![0u8];
    alpha.extend(std::iter::repeat(200u8).take((width * height) as usize));
    let mut image = chunk(b"ALPH", &alpha);
    image.extend(chunk(b"VP8 ", lossy));
    frame(width, height, &image)
}

// A frame with a lossless image in one colour.
fn lossless_frame(width: u32, height: u32, colour: [u8; 4]) -> Vec<u8> {
    let picture = RgbaImage::from_pixel(width, height, Rgba(colour));
    let mut still = Vec::new();
    image::codecs::webp::WebPEncoder::new_lossless(&mut still)
        .encode(picture.as_raw(), width, height, ExtendedColorType::Rgba8)
        .unwrap();
    frame(width, height, &still[12..])
}

// An extended file that flags an animation, with a canvas and chunks.
fn animation(width: u32, height: u32, before: &[Vec<u8>], frames: &[Vec<u8>]) -> Vec<u8> {
    let mut body = b"WEBP".to_vec();
    let mut header = vec![0x12, 0, 0, 0];
    header.extend_from_slice(&u24(width - 1));
    header.extend_from_slice(&u24(height - 1));
    body.extend(chunk(b"VP8X", &header));
    body.extend(chunk(b"ANIM", &[0, 0, 0, 0, 0, 0]));
    for other in before {
        body.extend_from_slice(other);
    }
    for frame in frames {
        body.extend_from_slice(frame);
    }
    let mut out = b"RIFF".to_vec();
    out.extend_from_slice(&(body.len() as u32).to_le_bytes());
    out.extend(body);
    out
}

fn decode_error(result: Result<Vec<palette::Lab>, GetImageColorsErr>) -> String {
    match result {
        Err(GetImageColorsErr::DecodeError { format: Format::WebP, reason }) => reason,
        other => panic!("expected a decode error, got {:?}", other.map(|lab| lab.len())),
    }
}

#[test]
fn frames_with_alpha_and_a_lossy_image_of_their_size_are_decoded() {
    let data = animation(2, 2, &[], &[alpha_frame(2, 2, &LOSSY_2X2), alpha_frame(2, 2, &LOSSY_2X2)]);
    assert!(is_animated_webp(&data));
    assert!(webp_animation_is_sound(&data));
    assert!(webp_still_is_sound(&data));
    let lab = get_image_colors(Some("webp"), &data).unwrap();
    assert_eq!(lab.len(), 2 * 4);
    let bytes = webp_animation_bytes(&data).unwrap();
    assert_eq!(bytes.len(), 2 * 4 * 4);
    // The frames are red, with the alpha of the alpha chunk.
    assert!(bytes.chunks(4).all(|p| p[0] > 200 && p[1] < 50 && p[2] < 50 && p[3] == 200));
    // One such frame alone is a still image.
    let data = animation(2, 2, &[], &[alpha_frame(2, 2, &LOSSY_2X2)]);
    assert!(!is_animated_webp(&data));
    assert_eq!(get_image_colors(Some("webp"), &data).unwrap().len(), 4);
    assert_eq!(get_bytes_for_image(Some("webp"), &data).unwrap().len(), 16);
}

#[test]
fn a_frame_with_alpha_and_a_lossy_image_of_another_size_is_refused() {
    // The frame chunk says one pixel, the lossy image after its alpha chunk
    // is two by two.
    let bad = alpha_frame(1, 1, &LOSSY_2X2);
    let good = lossless_frame(1, 1, [255, 0, 0, 255]);
    for frames in [vec![bad.clone(), good.clone()], vec![good.clone(), bad.clone()]] {
        let data = animation(1, 1, &[], &frames);
        assert!(is_animated_webp(&data));
        assert!(!webp_animation_is_sound(&data));
        assert_eq!(decode_error(get_image_colors(Some("webp"), &data)), UNSOUND);
        assert!(matches!(
            webp_animation_bytes(&data),
            Err(GetImageColorsErr::DecodeError { format: Format::WebP, ref reason }) if reason == UNSOUND
        ));
    }
    // As the one frame of a file it is the image of a still.
    let data = animation(1, 1, &[], &[bad.clone()]);
    assert!(!is_animated_webp(&data));
    assert!(!webp_still_is_sound(&data));
    assert_eq!(decode_error(get_image_colors(Some("webp"), &data)), UNSOUND);
    assert!(matches!(
        get_bytes_for_image(Some("webp"), &data),
        Err(GetImageColorsErr::DecodeError { format: Format::WebP, ref reason }) if reason == UNSOUND
    ));
    // Behind a good first frame it does not stand in the way of the still.
    let data = animation(1, 1, &[], &[good, bad]);
    assert!(webp_still_is_sound(&data));
    assert_eq!(get_bytes_for_image(Some("webp"), &data).unwrap(), vec![255, 0, 0, 255]);
}

#[test]
fn a_smaller_lossy_image_than_its_frame_is_refused_too() {
    let data = animation(
        3,
        3,
        &[],
        &[alpha_frame(3, 3, &LOSSY_2X2), lossless_frame(3, 3, [0, 0, 255, 255])],
    );
    assert!(!webp_animation_is_sound(&data));
    assert_eq!(decode_error(get_image_colors(Some("webp"), &data)), UNSOUND);
}

#[test]
fn an_animation_on_too_large_a_canvas_is_refused() {
    let frames = [lossless_frame(2, 2, [255, 0, 0, 255]), lossless_frame(2, 2, [0, 0, 255, 255])];
    let data = animation(65536, 16384, &[], &frames);
    assert!(is_animated_webp(&data));
    assert!(!webp_canvas_is_small(&data));
    assert!(!webp_animation_is_sound(&data));
    assert_eq!(decode_error(get_image_colors(Some("webp"), &data)), UNSOUND);
    // One pixel less and the canvas can be counted.
    assert!(webp_canvas_is_small(&animation(65536, 16383, &[], &frames)));
    assert!(webp_canvas_is_small(&animation(32768, 32767, &[], &frames)));
    assert!(!webp_canvas_is_small(&animation(32768, 32768, &[], &frames)));
    // The same canvas with one frame is a still image, which the decoder
    // refuses for its size.
    let data = animation(65536, 16384, &[], &frames[..1]);
    assert!(!is_animated_webp(&data));
    assert!(get_image_colors(Some("webp"), &data).is_err());
}

#[test]
fn the_first_frame_is_found_behind_other_chunks() {
    let frames = [lossless_frame(2, 2, [255, 0, 0, 255]), lossless_frame(2, 2, [0, 0, 255, 255])];
    let plain = animation(2, 2, &[], &frames);
    assert!(opens_extended(&plain));
    // Twelve bytes of header, eighteen of the first chunk, fourteen of the
    // animation chunk.
    assert_eq!(find_first_frame(&plain), Some(44));
    let behind = animation(2, 2, &[chunk(b"EXIF", &[1, 2, 3]), chunk(b"abcd", &[])], &frames);
    assert_eq!(find_first_frame(&behind), Some(44 + 12 + 8));
    assert_eq!(get_image_colors(Some("webp"), &behind).unwrap().len(), 8);
    let none = animation(2, 2, &[chunk(b"EXIF", &[1, 2, 3])], &[]);
    assert_eq!(find_first_frame(&none), None);
    // A file that is cut off in a chunk header has no frame behind it.
    let mut cut = plain.clone();
    cut.truncate(44 + 7);
    assert_eq!(find_first_frame(&cut), None);
    // Nor has one whose size ends before the frames.
    let mut short = plain.clone();
    short[4..8].copy_from_slice(&(12u32 + 14).to_le_bytes());
    assert_eq!(find_first_frame(&short), None);
}

#[test]
fn files_that_are_not_extended_have_no_frames_to_look_over() {
    for data in [Vec::new(), b"RIFF".to_vec(), b"41.. this is not an image at all".to_vec()] {
        assert!(!opens_extended(&data));
        assert!(webp_frames_are_sound(&data, 1));
        assert!(webp_animation_is_sound(&data));
        assert!(webp_still_is_sound(&data));
        assert!(webp_canvas_is_small(&data));
    }
}

#[test]
fn frames_are_looked_over_up_to_the_limit() {
    let good = lossless_frame(1, 1, [255, 0, 0, 255]);
    let bad = alpha_frame(1, 1, &LOSSY_2X2);
    let data = animation(1, 1, &[], &[good.clone(), good.clone(), bad, good]);
    let first = find_first_frame(&data).unwrap();
    assert!(frames_are_sound(&data, first, 0));
    assert!(frames_are_sound(&data, first, 1));
    assert!(frames_are_sound(&data, first, 2));
    assert!(!frames_are_sound(&data, first, 3));
    assert!(!frames_are_sound(&data, first, usize::MAX));
    assert!(webp_frames_are_sound(&data, 2));
    assert!(!webp_frames_are_sound(&data, data.len()));
    // Where no frame chunk stands, there is nothing to look over.
    assert!(frames_are_sound(&data, 0, 5));
    assert!(frames_are_sound(&data, data.len() as u64 + 100, 5));
}

#[test]
fn a_mismatch_needs_an_alpha_chunk_and_a_key_frame() {
    let bad = animation(1, 1, &[], &[alpha_frame(1, 1, &LOSSY_2X2)]);
    let first = find_first_frame(&bad).unwrap();
    assert!(has_alpha_frame_mismatch(&bad, first));
    // Without the start code the image is no key frame, and the decoder
    // refuses it by itself.
    let mut no_code = bad.clone();
    let image = first as usize + 24 + 8 + 2 + 8;
    assert_eq!(&no_code[image + 3..image + 6], &[0x9d, 0x01, 0x2a]);
    no_code[image + 4] = 0x02;
    assert!(!has_alpha_frame_mismatch(&no_code, first));
    assert!(get_image_colors(Some("webp"), &no_code).is_err());
    // An odd first byte says that the image is no key frame either.
    let mut odd = bad.clone();
    odd[image] |= 1;
    assert!(!has_alpha_frame_mismatch(&odd, first));
    assert!(get_image_colors(Some("webp"), &odd).is_err());
    // The two upper bits of a size do not count.
    let mut scaled = animation(2, 2, &[], &[alpha_frame(2, 2, &LOSSY_2X2)]);
    let image = find_first_frame(&scaled).unwrap() as usize + 24 + 8 + 6 + 8;
    scaled[image + 7] |= 0xC0;
    assert!(!has_alpha_frame_mismatch(&scaled, 44));
    // A frame with a lossless or a bare lossy image has no alpha chunk.
    let lossless = animation(2, 2, &[], &[lossless_frame(2, 2, [1, 2, 3, 255])]);
    assert!(!has_alpha_frame_mismatch(&lossless, 44));
    let lossy = animation(1, 1, &[], &[frame(1, 1, &chunk(b"VP8 ", &LOSSY_2X2))]);
    assert!(!has_alpha_frame_mismatch(&lossy, 44));
    assert!(get_image_colors(Some("webp"), &lossy).is_err());
}
