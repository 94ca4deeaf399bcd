//! Planar YUV 4:2:0 picture buffers, the colour transform between packed
//! RGBA pictures and planar ones, and cursor-addressed sequences of frames.
//!
//! - [`planar`]: the planar buffer, its layout and its three planes.
//! - [`packed`]: packed RGBA pictures and trimming to even dimensions.
//! - [`color`]: the colour transform of single pixels and blocks.
//! - [`convert`]: conversion of whole pictures in both directions.
//! - [`video`]: sequences of frames with a cursor for every handle.
//! - [`listing`]: the order in which the numbered files of a directory are
//!   read, with [`order`] for sorting and [`text`] for reading numbers.
//! - [`decode`]: telling formats apart and decoding PNG and JPEG files.
//! - [`format`]: output formats, resolutions and sizes as text.
//! - [`error`]: the errors of all of these.

pub mod color;
pub mod convert;
pub mod decode;
pub mod error;
pub mod format;
pub mod listing;
pub mod order;
pub mod packed;
pub mod planar;
pub mod text;
pub mod video;

pub use color::Rgb;
pub use error::FrameError;
pub use format::{OutputFormat, OutputFormats, OutputSize, Resolution};
pub use listing::open_dir_sorted_paths;
pub use packed::{ensure_even_reslution, PackedImage};
pub use planar::Yuv420P;
pub use video::VideoBuffer;
