//! Image conversion between PNG, JPEG, WebP, AVIF, GIF, BMP and TIFF: decoding
//! with EXIF orientation, alpha flattening, encoding, output naming, batch
//! bookkeeping and data-URL previews.

pub mod alpha;
pub mod base64;
pub mod codec;
pub mod convert;
pub mod error;
pub mod format;
pub mod orientation;
pub mod paths;
pub mod raster;
pub mod text;

pub use alpha::{flatten_on_background, has_meaningful_alpha, prepare_pixels};
pub use base64::base64_encode;
pub use codec::encode_image;
pub use convert::{
    convert_batch, load_image, preview_data_url, probe_image, render_conversion,
    resolve_settings, BatchResult, ConvertFailure, ConvertOptions, ConvertSettings,
    ConvertSuccess, ImageInfo, RenderedImage,
};
pub use error::{err, ConvertError};
pub use format::OutputFormat;
pub use orientation::{orientation_from_tag, read_exif_orientation};
pub use paths::{detect_format_label, output_path_for};
pub use raster::{apply_orientation, place, Placement, Rgba8, RgbaImage};
