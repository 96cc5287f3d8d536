use dominant_colours::colour::Rgb;
use dominant_colours::find_dominant_colors::{
    choose_best_color_for_bg, find_dominant_colors, find_dominant_colors_with, KmeansConfig,
};
use dominant_colours::frames::{bound_frame, get_bytes_for_animated_image, Frame};
use dominant_colours::get_bytes::get_bytes_for_image;
use dominant_colours::get_image_colors::{get_format, is_animated_webp};
use dominant_colours::lab::{lab_to_colours, pixels_to_lab};
use image::imageops::FilterType;
use image::{DynamicImage, ImageFormat, Rgba, RgbaImage};
use palette::cast::from_component_slice;
use palette::color_difference::Wcag21RelativeContrast;
use palette::{FromColor, IntoColor, Lab, Srgb, Srgba};
use std::io::Cursor;

fn noise(width: u32, height: u32) -> RgbaImage {
    RgbaImage::from_fn(width, height, |x, y| {
        Rgba([
            (x * 37 % 256) as u8,
            (y * 91 % 256) as u8,
            ((x + 3 * y) * 53 % 256) as u8,
            ((x * y) % 256) as u8,
        ])
    })
}

fn bits(labs: &[Lab]) -> Vec<(u32, u32, u32)> {
    labs.iter().map(|c| (c.l.to_bits(), c.a.to_bits(), c.b.to_bits())).collect()
}

#[test]
fn samples_are_those_of_palette() {
    let bytes = noise(50, 40).into_raw();
    let expected: Vec<Lab> = from_component_slice::<Srgba<u8>>(&bytes)
        .iter()
        .map(|x| x.into_format::<_, f32>().into_color())
        .collect();
    assert_eq!(bits(&pixels_to_lab(&bytes)), bits(&expected));
}

#[test]
fn display_colours_are_those_of_palette() {
    let mut labs: Vec<Lab> = pixels_to_lab(&noise(40, 30).into_raw());
    labs.push(Lab::new(50.0, 120.0, -120.0));
    labs.push(Lab::new(120.0, 0.0, 0.0));
    labs.push(Lab::new(-5.0, 3.0, 4.0));
    labs.push(Lab::new(75.5, -60.25, 90.125));
    let colours = lab_to_colours(&labs);
    assert_eq!(colours.len(), labs.len());
    for (lab, colour) in labs.iter().zip(colours.iter()) {
        let expected: Srgb<u8> = Srgb::from_color(*lab).into_format();
        assert_eq!((colour.red, colour.green, colour.blue), (expected.red, expected.green, expected.blue));
    }
}

#[test]
fn centroids_are_those_of_kmeans_colors() {
    let lab = pixels_to_lab(&noise(60, 50).into_raw());
    for k in [1usize, 2, 5, 8] {
        let expected = kmeans_colors::get_kmeans_hamerly(k, 20, 1.0, false, &lab, 0).centroids;
        assert_eq!(bits(&find_dominant_colors(&lab, k)), bits(&expected));
    }
    let config = KmeansConfig { max_iterations: 3, convergence: 5, seed: 42 };
    let expected = kmeans_colors::get_kmeans_hamerly(4, 3, 5.0, false, &lab, 42).centroids;
    assert_eq!(bits(&find_dominant_colors_with(&lab, 4, &config)), bits(&expected));
}

#[test]
fn asking_for_more_clusters_than_samples_changes_no_centroid() {
    let few = pixels_to_lab(&noise(3, 2).into_raw());
    assert_eq!(few.len(), 6);
    for k in [6usize, 7, 20, 300] {
        let expected = kmeans_colors::get_kmeans_hamerly(k, 20, 1.0, false, &few, 0).centroids;
        assert_eq!(bits(&find_dominant_colors(&few, k)), bits(&expected));
    }
    let same = pixels_to_lab(&vec![9, 9, 9, 255, 9, 9, 9, 255, 9, 9, 9, 255]);
    let expected = kmeans_colors::get_kmeans_hamerly(5, 20, 1.0, false, &same, 0).centroids;
    assert_eq!(bits(&find_dominant_colors(&same, 5)), bits(&expected));
}

#[test]
fn contrast_is_that_of_palette() {
    let greys_and_colours: Vec<Rgb> = (0..=255u32)
        .map(|n| Rgb::new(n as u8, n as u8, n as u8))
        .chain((1..200u32).map(|i| {
            Rgb::new((i * 67 % 256) as u8, (i * 101 % 256) as u8, ((i * 29 + 1) % 256) as u8)
        }))
        .collect();
    for i in 0..40u32 {
        let background =
            Rgb::new((i * 37 % 256) as u8, (i * 91 % 256) as u8, (i * 53 % 256) as u8);
        let on: Srgb<f32> =
            Srgb::new(background.red, background.green, background.blue).into_format();
        for colour in &greys_and_colours {
            let of: Srgb<f32> = Srgb::new(colour.red, colour.green, colour.blue).into_format();
            let legible = on.has_min_contrast_text(of);
            // Alone with black and white, a colour that is no grey is chosen
            // exactly where it is legible; a grey never beats white and
            // black, which come after it.
            let chosen = choose_best_color_for_bg(vec![*colour], &background);
            let is_grey = colour.red == colour.green && colour.green == colour.blue;
            if !is_grey {
                assert_eq!(chosen == *colour, legible);
            } else if chosen == *colour {
                assert!(legible);
            }
        }
    }
}

#[test]
fn resized_frames_are_those_of_image() {
    for (width, height, edge) in [(640, 480, 400), (480, 640, 100), (401, 3, 400), (1000, 999, 100)] {
        let img = noise(width, height);
        let expected = DynamicImage::ImageRgba8(img.clone())
            .resize(edge, edge, FilterType::Nearest)
            .into_rgba8();
        let frame = Frame::new(width, height, img.into_raw()).unwrap();
        let small = bound_frame(&frame, edge);
        assert_eq!((small.width, small.height), expected.dimensions());
        assert_eq!(small.pixels, expected.into_raw());
    }
}

#[test]
fn bytes_of_an_animation_are_those_of_its_resized_frames() {
    let frames: Vec<RgbaImage> = (0..3).map(|i| noise(150 + i, 120)).collect();
    let mut expected = Vec::new();
    for frame in &frames {
        expected.extend(
            DynamicImage::ImageRgba8(frame.clone())
                .resize(100, 100, FilterType::Nearest)
                .into_rgba8()
                .into_raw(),
        );
    }
    let frames: Vec<Frame> = frames
        .into_iter()
        .map(|f| Frame::new(f.width(), f.height(), f.into_raw()).unwrap())
        .collect();
    assert_eq!(get_bytes_for_animated_image(&frames), expected);
}

#[test]
fn decoded_images_are_those_of_image() {
    let img = noise(500, 300);
    for (extension, format) in
        [("png", ImageFormat::Png), ("bmp", ImageFormat::Bmp), ("tif", ImageFormat::Tiff), ("webp", ImageFormat::WebP)]
    {
        let mut file = Cursor::new(Vec::new());
        DynamicImage::ImageRgba8(img.clone()).write_to(&mut file, format).unwrap();
        let data = file.into_inner();
        let expected = image::load_from_memory_with_format(&data, format)
            .unwrap()
            .resize(400, 400, FilterType::Nearest)
            .into_rgba8()
            .into_raw();
        assert_eq!(get_bytes_for_image(Some(extension), &data).unwrap(), expected);
    }
    // A format without alpha and with loss, and sixteen bits to a channel.
    let mut file = Cursor::new(Vec::new());
    DynamicImage::ImageRgb8(DynamicImage::ImageRgba8(img.clone()).to_rgb8())
        .write_to(&mut file, ImageFormat::Jpeg)
        .unwrap();
    let data = file.into_inner();
    let expected = image::load_from_memory_with_format(&data, ImageFormat::Jpeg)
        .unwrap()
        .resize(400, 400, FilterType::Nearest)
        .into_rgba8()
        .into_raw();
    assert_eq!(get_bytes_for_image(Some("jpeg"), &data).unwrap(), expected);
    let mut file = Cursor::new(Vec::new());
    DynamicImage::ImageRgba16(DynamicImage::ImageRgba8(img).to_rgba16())
        .write_to(&mut file, ImageFormat::Png)
        .unwrap();
    let data = file.into_inner();
    let expected = image::load_from_memory_with_format(&data, ImageFormat::Png)
        .unwrap()
        .resize(400, 400, FilterType::Nearest)
        .into_rgba8()
        .into_raw();
    assert_eq!(get_bytes_for_image(Some("png"), &data).unwrap(), expected);
}

#[test]
fn formats_are_those_that_image_reads_from_extensions() {
    let extensions = [
        "avif", "jpg", "jpeg", "jfif", "png", "apng", "gif", "webp", "tif", "tiff", "tga", "dds",
        "bmp", "ico", "hdr", "exr", "pbm", "pam", "ppm", "pgm", "pnm", "ff", "qoi", "pcx", "heic",
        "md", "", "PNG", "Jpg", "gIf", "WebP", "TIFF", "BMP", "png ", " png", "p", "pn", "pngs",
        "j\u{fc}g", "\u{212a}", "GIF\u{307}",
    ];
    for extension in extensions {
        let known = ImageFormat::from_extension(extension);
        let decoded = matches!(
            known,
            Some(
                ImageFormat::Png
                    | ImageFormat::Jpeg
                    | ImageFormat::Gif
                    | ImageFormat::WebP
                    | ImageFormat::Tiff
                    | ImageFormat::Bmp
            )
        );
        match get_format(Some(extension)) {
            Ok(_) => assert!(decoded, "{}", extension),
            Err(error) => {
                assert!(!decoded, "{}", extension);
                assert_eq!(
                    error.message() == "Unable to determine image format from file extension",
                    known.is_none(),
                    "{}",
                    extension
                );
            }
        }
    }
}

#[test]
fn frame_counts_are_those_of_image_webp() {
    let mut file = Cursor::new(Vec::new());
    DynamicImage::ImageRgba8(noise(8, 8)).write_to(&mut file, ImageFormat::WebP).unwrap();
    let data = file.into_inner();
    let frames = image_webp::WebPDecoder::new(Cursor::new(&data)).unwrap().num_frames();
    assert_eq!(frames, 0);
    assert!(!is_animated_webp(&data));
    assert!(!is_animated_webp(&Vec::new()));
}
