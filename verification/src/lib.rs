//! Dominant colours of still and animated images.
//!
//! The way from the bytes of an image file to its colours has four stages.
//! The file is decoded ([`decode`]; the frames of a WebP file are looked
//! over first, [`webp`]) and its frames are sampled and bounded in size
//! ([`frames`]); the pixels that are left are taken into CIE L\*a\*b\*
//! ([`lab`], [`get_image_colors`]); the samples are clustered with k-means;
//! and, where a background is given, the most saturated cluster colour that
//! is legible on it is picked ([`find_dominant_colors`]). [`pipeline`] runs
//! the stages one after the other.
//!
//! Decoding, resizing, the colour conversions, the clustering and the
//! contrast test are those of the `image`, `palette` and `kmeans_colors`
//! crates. Each is called through one small function whose contract is
//! taken on trust; everything around these calls is verified.
pub mod colour;
pub mod colour_output;
pub mod decode;
pub mod find_dominant_colors;
pub mod frames;
pub mod get_bytes;
pub mod get_image_colors;
pub mod lab;
pub mod models;
pub mod pipeline;
pub mod printing;
pub mod terminal_colours;
pub mod text;
pub mod webp;
