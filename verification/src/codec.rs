use image::ImageEncoder;
use rgb::FromSlice;
use vstd::prelude::*;

use crate::error::{err, ConvertError};
use crate::format::OutputFormat;
use crate::raster::{rgb_layout, rgba_layout, Rgba8, RgbaImage};
use crate::text::{push_str, string_of};

verus! {

#[verifier::external_type_specification]
#[verifier::external_body]
pub struct ExImageError(image::ImageError);

#[verifier::external_type_specification]
#[verifier::external_body]
pub struct ExAvifError(ravif::Error);

#[verifier::external_type_specification]
#[verifier::external_body]
pub struct ExFilterType(image::imageops::FilterType);

#[verifier::external_type_specification]
#[verifier::external_body]
pub struct ExWebpError(webp::WebPEncodingError);

/// The image that the `image` crate decodes from the file contents `data`,
/// converted to 8-bit RGBA: its width, its height and its bytes (four per
/// pixel, row by row); `None` when the contents cannot be decoded.
pub uninterp spec fn decoded_rgba8(data: Seq<u8>) -> Option<(u32, u32, Seq<u8>)>;

/// PNG file written by the `image` crate for a `width` by `height` RGBA8 raster.
pub uninterp spec fn png_encoding(width: u32, height: u32, rgba: Seq<u8>) -> Option<Seq<u8>>;

/// JPEG file written by the `image` crate at `quality` for a `width` by `height` RGB8 raster.
pub uninterp spec fn jpeg_encoding(width: u32, height: u32, rgb: Seq<u8>, quality: u8) -> Option<
    Seq<u8>,
>;

/// BMP file written by the `image` crate for a `width` by `height` RGB8 raster.
pub uninterp spec fn bmp_encoding(width: u32, height: u32, rgb: Seq<u8>) -> Option<Seq<u8>>;

/// TIFF file written by the `image` crate for a `width` by `height` RGBA8 raster.
pub uninterp spec fn tiff_encoding(width: u32, height: u32, rgba: Seq<u8>) -> Option<Seq<u8>>;

/// Single-frame GIF file written by the `image` crate for a `width` by `height` RGBA8 raster.
pub uninterp spec fn gif_encoding(width: u32, height: u32, rgba: Seq<u8>) -> Option<Seq<u8>>;

/// WebP file written by libwebp (through the `webp` crate's `encode_simple`),
/// lossless or lossy, with `quality` (for lossless: the effort); `None` when
/// libwebp reports an error.
pub uninterp spec fn webp_encoding(
    width: u32,
    height: u32,
    rgba: Seq<u8>,
    lossless: bool,
    quality: u8,
) -> Option<Seq<u8>>;

/// AVIF file written by `ravif` at `speed` with colour and alpha `quality`,
/// the AV1 tiles laid out for `threads` threads.
pub uninterp spec fn avif_encoding(
    width: u32,
    height: u32,
    rgba: Seq<u8>,
    quality: u8,
    speed: u8,
    threads: usize,
) -> Option<Seq<u8>>;

/// Decodes an image file with `image::load_from_memory` and converts the
/// result with `DynamicImage::to_rgba8`. The contract claims that the outcome
/// is a function of the bytes, named `decoded_rgba8`, and that the raster
/// holds four bytes per pixel (the invariant of `ImageBuffer`).
#[verifier::external_body]
pub(crate) fn decode_rgba8(data: &[u8]) -> (r: Result<(u32, u32, Vec<u8>), image::ImageError>)
    ensures
        match r {
            Ok((w, h, px)) => decoded_rgba8(data@) == Some((w, h, px@)) && px@.len() == 4 * w * h,
            Err(_) => decoded_rgba8(data@) is None,
        },
{
    match image::load_from_memory(data) {
        Ok(img) => {
            let rgba = img.to_rgba8();
            let (w, h) = rgba.dimensions();
            Ok((w, h, rgba.into_raw()))
        },
        Err(e) => Err(e),
    }
}

/// The `Display` text of an `image::ImageError`. Nothing is claimed of it.
#[verifier::external_body]
pub(crate) fn image_error_text(e: &image::ImageError) -> String {
    format!("{e}")
}

/// The `Display` text of a `ravif::Error`. Nothing is claimed of it.
#[verifier::external_body]
fn avif_error_text(e: &ravif::Error) -> String {
    format!("{e}")
}

/// `PngEncoder::write_image` with an RGBA8 raster into a fresh buffer. The
/// contract names the outcome; the encoder panics unless the buffer holds
/// exactly `4 * width * height` bytes, which `requires` rules out.
#[verifier::external_body]
pub(crate) fn encode_png(width: u32, height: u32, rgba: &[u8]) -> (r: Result<Vec<u8>, image::ImageError>)
    requires
        rgba@.len() == 4 * width * height,
    ensures
        r is Ok <==> png_encoding(width, height, rgba@) is Some,
        r matches Ok(b) ==> png_encoding(width, height, rgba@) == Some(b@),
{
    let mut buf = Vec::new();
    match image::codecs::png::PngEncoder::new(&mut buf).write_image(
        rgba,
        width,
        height,
        image::ExtendedColorType::Rgba8,
    ) {
        Ok(()) => Ok(buf),
        Err(e) => Err(e),
    }
}

/// `JpegEncoder::new_with_quality(.., quality).encode` with an RGB8 raster.
/// The contract names the outcome; the encoder panics unless the buffer holds
/// exactly `3 * width * height` bytes, which `requires` rules out.
#[verifier::external_body]
fn encode_jpeg(width: u32, height: u32, rgb: &[u8], quality: u8) -> (r: Result<
    Vec<u8>,
    image::ImageError,
>)
    requires
        rgb@.len() == 3 * width * height,
    ensures
        r is Ok <==> jpeg_encoding(width, height, rgb@, quality) is Some,
        r matches Ok(b) ==> jpeg_encoding(width, height, rgb@, quality) == Some(b@),
{
    let mut buf = Vec::new();
    let mut encoder = image::codecs::jpeg::JpegEncoder::new_with_quality(&mut buf, quality);
    match encoder.encode(rgb, width, height, image::ExtendedColorType::Rgb8) {
        Ok(()) => Ok(buf),
        Err(e) => Err(e),
    }
}

/// `BmpEncoder::encode` with an RGB8 raster. The contract names the outcome;
/// the encoder panics unless the buffer holds exactly `3 * width * height`
/// bytes, which `requires` rules out.
#[verifier::external_body]
fn encode_bmp(width: u32, height: u32, rgb: &[u8]) -> (r: Result<Vec<u8>, image::ImageError>)
    requires
        rgb@.len() == 3 * width * height,
    ensures
        r is Ok <==> bmp_encoding(width, height, rgb@) is Some,
        r matches Ok(b) ==> bmp_encoding(width, height, rgb@) == Some(b@),
{
    let mut buf = Vec::new();
    let mut encoder = image::codecs::bmp::BmpEncoder::new(&mut buf);
    match encoder.encode(rgb, width, height, image::ExtendedColorType::Rgb8) {
        Ok(()) => Ok(buf),
        Err(e) => Err(e),
    }
}

/// `TiffEncoder::write_image` with an RGBA8 raster into an in-memory cursor.
/// The contract names the outcome; the encoder panics unless the buffer holds
/// exactly `4 * width * height` bytes, which `requires` rules out.
#[verifier::external_body]
fn encode_tiff(width: u32, height: u32, rgba: &[u8]) -> (r: Result<Vec<u8>, image::ImageError>)
    requires
        rgba@.len() == 4 * width * height,
    ensures
        r is Ok <==> tiff_encoding(width, height, rgba@) is Some,
        r matches Ok(b) ==> tiff_encoding(width, height, rgba@) == Some(b@),
{
    let mut cursor = std::io::Cursor::new(Vec::new());
    match image::codecs::tiff::TiffEncoder::new(&mut cursor).write_image(
        rgba,
        width,
        height,
        image::ExtendedColorType::Rgba8,
    ) {
        Ok(()) => Ok(cursor.into_inner()),
        Err(e) => Err(e),
    }
}

/// `GifEncoder::encode_frame` with one frame made by `Frame::new` from an
/// RGBA8 raster; the file is finished when the encoder is dropped. The
/// contract names the outcome; `requires` makes `ImageBuffer::from_raw` accept
/// the buffer.
#[verifier::external_body]
fn encode_gif(width: u32, height: u32, rgba: &[u8]) -> (r: Result<Vec<u8>, image::ImageError>)
    requires
        rgba@.len() == 4 * width * height,
    ensures
        r is Ok <==> gif_encoding(width, height, rgba@) is Some,
        r matches Ok(b) ==> gif_encoding(width, height, rgba@) == Some(b@),
{
    let raster = image::RgbaImage::from_raw(width, height, rgba.to_vec()).expect(
        "buffer holds four bytes per pixel",
    );
    let mut buf = Vec::new();
    let outcome = {
        let mut encoder = image::codecs::gif::GifEncoder::new(&mut buf);
        encoder.encode_frame(image::Frame::new(raster))
    };
    match outcome {
        Ok(()) => Ok(buf),
        Err(e) => Err(e),
    }
}

/// `webp::Encoder::from_rgba(..).encode_simple(lossless, quality)`: libwebp's
/// result, or the error code it reports (an empty or too large picture, a
/// quality above 100, or a first partition that overflows on a large,
/// detailed picture). `from_rgba` panics on a buffer shorter than four bytes
/// per pixel, and the picture's row stride `width as i32 * 4` overflows above
/// 0x1fff_ffff pixels, which `requires` rules out. The contract names the
/// outcome `webp_encoding`.
#[verifier::external_body]
fn encode_webp(width: u32, height: u32, rgba: &[u8], lossless: bool, quality: u8) -> (r: Result<
    Vec<u8>,
    webp::WebPEncodingError,
>)
    requires
        rgba@.len() == 4 * width * height,
        width <= 0x1fff_ffff,
    ensures
        r is Ok <==> webp_encoding(width, height, rgba@, lossless, quality) is Some,
        r matches Ok(b) ==> webp_encoding(width, height, rgba@, lossless, quality) == Some(b@),
{
    match webp::Encoder::from_rgba(rgba, width, height).encode_simple(lossless, quality.into()) {
        Ok(memory) => Ok(memory.to_vec()),
        Err(e) => Err(e),
    }
}

/// The `Debug` text of a `WebPEncodingError` (it has no `Display`). Nothing is
/// claimed of it.
#[verifier::external_body]
fn webp_error_text(e: &webp::WebPEncodingError) -> String {
    format!("{e:?}")
}

/// `ravif::Encoder::new().with_quality(q).with_speed(speed).with_alpha_quality(q)
/// .with_num_threads(Some(threads)).encode_rgba(..)` on the bytes read as
/// `RGBA8` pixels (`FromSlice::as_rgba`) in an `imgref::Img`; the AVIF file of
/// the result. The thread count sets the AV1 tile layout, so it is an
/// argument of the name. `with_quality` panics outside 1 to 100, `with_speed`
/// outside 1 to 10, `with_num_threads` on 0 and `Img::new` on a zero width,
/// which `requires` rules out; the contract names the outcome.
#[verifier::external_body]
fn encode_avif(width: u32, height: u32, rgba: &[u8], quality: u8, speed: u8, threads: usize) -> (r:
    Result<Vec<u8>, ravif::Error>)
    requires
        rgba@.len() == 4 * width * height,
        width >= 1,
        1 <= quality <= 100,
        1 <= speed <= 10,
        threads >= 1,
    ensures
        r is Ok <==> avif_encoding(width, height, rgba@, quality, speed, threads) is Some,
        r matches Ok(b) ==> avif_encoding(width, height, rgba@, quality, speed, threads) == Some(b@),
{
    let pixels = rgba.as_rgba();
    let img = imgref::Img::new(pixels, width as usize, height as usize);
    let encoder = ravif::Encoder::new().with_quality(quality.into()).with_speed(speed)
        .with_alpha_quality(quality.into()).with_num_threads(Some(threads));
    match encoder.encode_rgba(img) {
        Ok(encoded) => Ok(encoded.avif_file),
        Err(e) => Err(e),
    }
}

/// The resampling filters of the `image` crate's resizing.
#[derive(Clone, Copy, Debug, PartialEq, Eq, Structural)]
pub enum ResizeFilter {
    Nearest,
    Triangle,
    CatmullRom,
    Gaussian,
    Lanczos3,
}

/// What the documentation of `DynamicImage::resize` promises of the size
/// `(new_w, new_h)` of a `w` by `h` image resized into a `max_w` by `max_h` box:
/// it fits the box, neither side is empty, one side fills the box, and the
/// other keeps the aspect ratio up to one pixel of rounding.
pub open spec fn fits_box(w: u32, h: u32, max_w: u32, max_h: u32, new_w: u32, new_h: u32) -> bool {
    &&& 1 <= new_w <= max_w
    &&& 1 <= new_h <= max_h
    &&& max_w * h <= max_h * w ==> new_w == max_w && new_h * w <= h * max_w + w && h * max_w
        <= new_h * w + w
    &&& max_w * h > max_h * w ==> new_h == max_h && new_w * h <= w * max_h + h && w * max_h
        <= new_w * h + h
}

/// The name that the `image` crate gives the outcome of resizing a
/// `width` by `height` RGBA8 raster with `filter` to fit a `max_width` by
/// `max_height` box.
pub uninterp spec fn resized_to_fit(
    width: u32,
    height: u32,
    rgba: Seq<u8>,
    max_width: u32,
    max_height: u32,
    filter: ResizeFilter,
) -> (u32, u32, Seq<u8>);

/// `DynamicImage::resize(max_width, max_height, filter)` on an RGBA8 raster.
/// Its documentation: the aspect ratio is kept and the result is the largest
/// that fits the box (`resize_dimensions` rounds the scaled side and keeps it
/// at least 1). The contract claims `fits_box`, four bytes per pixel, and
/// names the result `resized_to_fit`.
#[verifier::external_body]
pub(crate) fn resize_rgba8(
    width: u32,
    height: u32,
    rgba: &[u8],
    max_width: u32,
    max_height: u32,
    filter: ResizeFilter,
) -> (r: (u32, u32, Vec<u8>))
    requires
        rgba@.len() == 4 * width * height,
        width >= 1 || height >= 1,
        max_width >= 1,
        max_height >= 1,
    ensures
        fits_box(width, height, max_width, max_height, r.0, r.1),
        r.2@.len() == 4 * r.0 * r.1,
        (r.0, r.1, r.2@) == resized_to_fit(width, height, rgba@, max_width, max_height, filter),
{
    let raster = image::RgbaImage::from_raw(width, height, rgba.to_vec()).expect(
        "buffer holds four bytes per pixel",
    );
    let resized = image::DynamicImage::ImageRgba8(raster).resize(
        max_width,
        max_height,
        filter_type(filter),
    ).into_rgba8();
    let (w, h) = resized.dimensions();
    (w, h, resized.into_raw())
}

/// The PNG file that the `image` crate writes for the image it decodes from
/// `data`, in the decoded colour type and bit depth; `None` when decoding or
/// encoding fails.
pub uninterp spec fn native_png(data: Seq<u8>) -> Option<Seq<u8>>;

/// The size and PNG file of the image decoded from `data`, resized with
/// `filter` to fit a `max_width` by `max_height` box, in the decoded colour
/// type and bit depth; `None` when decoding or encoding fails.
pub uninterp spec fn native_resized_png(data: Seq<u8>, max_width: u32, max_height: u32, filter: ResizeFilter) -> Option<
    (u32, u32, Seq<u8>),
>;

/// `image::load_from_memory` then `DynamicImage::write_to(.., ImageFormat::Png)`:
/// the decoded image as PNG, in its own colour type. The contract names the
/// outcome `native_png`.
#[verifier::external_body]
pub(crate) fn encode_native_png(data: &[u8]) -> (r: Result<Vec<u8>, image::ImageError>)
    ensures
        r is Ok <==> native_png(data@) is Some,
        r matches Ok(b) ==> native_png(data@) == Some(b@),
{
    match image::load_from_memory(data) {
        Ok(img) => {
            let mut buf = Vec::new();
            match img.write_to(&mut std::io::Cursor::new(&mut buf), image::ImageFormat::Png) {
                Ok(()) => Ok(buf),
                Err(e) => Err(e),
            }
        },
        Err(e) => Err(e),
    }
}

/// `image::load_from_memory`, `DynamicImage::resize(max_width, max_height,
/// filter)`, then `write_to(.., ImageFormat::Png)`: the resized image as PNG in
/// its own colour type, with its size. The same decoder gives the size of
/// `decoded_rgba8`, so the size obeys `fits_box` as `DynamicImage::resize`
/// documents; the contract names the outcome `native_resized_png`.
#[verifier::external_body]
pub(crate) fn encode_native_resized_png(
    data: &[u8],
    max_width: u32,
    max_height: u32,
    filter: ResizeFilter,
) -> (r: Result<(u32, u32, Vec<u8>), image::ImageError>)
    requires
        max_width >= 1,
        max_height >= 1,
        decoded_rgba8(data@) matches Some((w, h, _)) && (w >= 1 || h >= 1),
    ensures
        r is Ok <==> native_resized_png(data@, max_width, max_height, filter) is Some,
        r matches Ok((w2, h2, b)) ==> native_resized_png(data@, max_width, max_height, filter) == Some(
            (w2, h2, b@),
        ) && (decoded_rgba8(data@) matches Some((w, h, _)) && fits_box(
            w,
            h,
            max_width,
            max_height,
            w2,
            h2,
        )),
{
    match image::load_from_memory(data) {
        Ok(img) => {
            let resized = img.resize(max_width, max_height, filter_type(filter));
            let (w, h) = (resized.width(), resized.height());
            let mut buf = Vec::new();
            match resized.write_to(&mut std::io::Cursor::new(&mut buf), image::ImageFormat::Png) {
                Ok(()) => Ok((w, h, buf)),
                Err(e) => Err(e),
            }
        },
        Err(e) => Err(e),
    }
}

/// The `image` crate's `FilterType` for each `ResizeFilter`, variant for
/// variant. Nothing is claimed of the result: the type is opaque here.
#[verifier::external_body]
fn filter_type(f: ResizeFilter) -> image::imageops::FilterType {
    match f {
        ResizeFilter::Nearest => image::imageops::FilterType::Nearest,
        ResizeFilter::Triangle => image::imageops::FilterType::Triangle,
        ResizeFilter::CatmullRom => image::imageops::FilterType::CatmullRom,
        ResizeFilter::Gaussian => image::imageops::FilterType::Gaussian,
        ResizeFilter::Lanczos3 => image::imageops::FilterType::Lanczos3,
    }
}

/// An error whose message is `prefix` followed by `detail`.
pub fn failure(prefix: &str, detail: &str) -> (r: ConvertError)
    ensures
        r.text() == prefix@ + detail@,
        prefix@.is_prefix_of(r.text()),
{
    let mut msg = string_of(prefix);
    push_str(&mut msg, detail);
    assert((prefix@ + detail@).subrange(0, prefix@.len() as int) =~= prefix@);
    err(msg)
}

/// The quality handed to lossy encoders: the requested one clamped to 1..=100.
pub open spec fn clamped_quality(q: u8) -> u8 {
    if q < 1 {
        1
    } else if q > 100 {
        100
    } else {
        q
    }
}

/// `quality.clamp(1, 100)`.
pub fn clamp_quality(q: u8) -> (r: u8)
    ensures
        r == clamped_quality(q),
        1 <= r <= 100,
{
    if q < 1 {
        1
    } else if q > 100 {
        100
    } else {
        q
    }
}

/// Sizes the encoder of `format` takes without panicking: the `webp` crate
/// computes the row stride `4 * width` in 32-bit signed arithmetic, and an
/// AVIF picture must be at least one pixel wide. (libwebp itself reports an
/// empty or too large picture as an error.)
pub open spec fn encodable(format: OutputFormat, width: u32, height: u32) -> bool {
    &&& format is Webp ==> width <= 0x1fff_ffff
    &&& format is Avif ==> width >= 1
}

/// The quality setting used for lossless WebP, where libwebp reads it as
/// the effort spent on compression.
pub const WEBP_LOSSLESS_EFFORT: u8 = 75;

/// The speed at which AVIF files are encoded.
pub const AVIF_SPEED: u8 = 6;

/// The file written in `format` for the `width` by `height` raster `pixels`,
/// at `quality` (clamped to 1..=100), losslessly when `lossless` is set and
/// the format has a lossless mode (for AVIF: quality 100), with AVIF tiles
/// laid out for `threads` threads; `None` when the encoder fails.
pub open spec fn encoding_of(
    format: OutputFormat,
    width: u32,
    height: u32,
    pixels: Seq<Rgba8>,
    quality: u8,
    lossless: bool,
    threads: usize,
) -> Option<Seq<u8>> {
    let q = clamped_quality(quality);
    match format {
        OutputFormat::Png => png_encoding(width, height, rgba_layout(pixels)),
        OutputFormat::Jpeg | OutputFormat::Jpg => jpeg_encoding(width, height, rgb_layout(pixels), q),
        OutputFormat::Bmp => bmp_encoding(width, height, rgb_layout(pixels)),
        OutputFormat::Tiff => tiff_encoding(width, height, rgba_layout(pixels)),
        OutputFormat::Gif => gif_encoding(width, height, rgba_layout(pixels)),
        OutputFormat::Webp => webp_encoding(
            width,
            height,
            rgba_layout(pixels),
            lossless,
            if lossless {
                WEBP_LOSSLESS_EFFORT
            } else {
                q
            },
        ),
        OutputFormat::Avif => avif_encoding(
            width,
            height,
            rgba_layout(pixels),
            if lossless {
                100
            } else {
                q
            },
            AVIF_SPEED,
            threads,
        ),
    }
}

/// The start of the message given when the encoder of `format` fails.
pub open spec fn encode_failure_prefix(format: OutputFormat) -> Seq<char> {
    match format {
        OutputFormat::Png => "PNG encode failed: "@,
        OutputFormat::Jpeg | OutputFormat::Jpg => "JPEG encode failed: "@,
        OutputFormat::Bmp => "BMP encode failed: "@,
        OutputFormat::Tiff => "TIFF encode failed: "@,
        OutputFormat::Gif => "GIF encode failed: "@,
        OutputFormat::Webp => "WebP encode failed: "@,
        OutputFormat::Avif => "AVIF encode failed: "@,
    }
}

proof fn lemma_layout_lengths(img: &RgbaImage)
    requires
        img.wf(),
    ensures
        rgba_layout(img.pixels@).len() == 4 * img.width * img.height,
        rgb_layout(img.pixels@).len() == 3 * img.width * img.height,
{
    assert(4 * (img.width * img.height) == 4 * img.width * img.height) by (nonlinear_arith);
    assert(3 * (img.width * img.height) == 3 * img.width * img.height) by (nonlinear_arith);
}

/// Encodes `pixels` as a file in `format`; `threads` is the number of
/// threads the machine offers, which sets the tile layout of AVIF files.
pub fn encode_image(
    pixels: &RgbaImage,
    format: &OutputFormat,
    quality: u8,
    lossless: bool,
    threads: usize,
) -> (r: Result<Vec<u8>, ConvertError>)
    requires
        pixels.wf(),
        encodable(*format, pixels.width, pixels.height),
        threads >= 1,
    ensures
        r is Ok <==> encoding_of(
            *format,
            pixels.width,
            pixels.height,
            pixels.pixels@,
            quality,
            lossless,
            threads,
        ) is Some,
        r matches Ok(b) ==> encoding_of(
            *format,
            pixels.width,
            pixels.height,
            pixels.pixels@,
            quality,
            lossless,
            threads,
        ) == Some(b@),
        r matches Err(e) ==> encode_failure_prefix(*format).is_prefix_of(e.text()),
{
    let width = pixels.width;
    let height = pixels.height;
    let quality = clamp_quality(quality);
    proof {
        lemma_layout_lengths(pixels);
    }
    match format {
        OutputFormat::Png => {
            let raw = pixels.rgba_bytes();
            match encode_png(width, height, raw.as_slice()) {
                Ok(buf) => Ok(buf),
                Err(e) => Err(failure("PNG encode failed: ", image_error_text(&e).as_str())),
            }
        },
        OutputFormat::Jpeg | OutputFormat::Jpg => {
            let rgb = pixels.rgb_bytes();
            match encode_jpeg(width, height, rgb.as_slice(), quality) {
                Ok(buf) => Ok(buf),
                Err(e) => Err(failure("JPEG encode failed: ", image_error_text(&e).as_str())),
            }
        },
        OutputFormat::Bmp => {
            let rgb = pixels.rgb_bytes();
            match encode_bmp(width, height, rgb.as_slice()) {
                Ok(buf) => Ok(buf),
                Err(e) => Err(failure("BMP encode failed: ", image_error_text(&e).as_str())),
            }
        },
        OutputFormat::Tiff => {
            let raw = pixels.rgba_bytes();
            match encode_tiff(width, height, raw.as_slice()) {
                Ok(buf) => Ok(buf),
                Err(e) => Err(failure("TIFF encode failed: ", image_error_text(&e).as_str())),
            }
        },
        OutputFormat::Gif => {
            let raw = pixels.rgba_bytes();
            match encode_gif(width, height, raw.as_slice()) {
                Ok(buf) => Ok(buf),
                Err(e) => Err(failure("GIF encode failed: ", image_error_text(&e).as_str())),
            }
        },
        OutputFormat::Webp => {
            let raw = pixels.rgba_bytes();
            let q = if lossless {
                WEBP_LOSSLESS_EFFORT
            } else {
                quality
            };
            match encode_webp(width, height, raw.as_slice(), lossless, q) {
                Ok(buf) => Ok(buf),
                Err(e) => Err(failure("WebP encode failed: ", webp_error_text(&e).as_str())),
            }
        },
        OutputFormat::Avif => {
            let raw = pixels.rgba_bytes();
            let q = if lossless {
                100
            } else {
                quality
            };
            match encode_avif(width, height, raw.as_slice(), q, AVIF_SPEED, threads) {
                Ok(buf) => Ok(buf),
                Err(e) => Err(failure("AVIF encode failed: ", avif_error_text(&e).as_str())),
            }
        },
    }
}


/// The encoder sees only the clamped quality; the lossless and fixed formats
/// (PNG, BMP, TIFF, GIF, and WebP or AVIF asked for lossless) ignore quality.
pub proof fn law_quality_clamped(
    format: OutputFormat,
    width: u32,
    height: u32,
    pixels: Seq<Rgba8>,
    q1: u8,
    q2: u8,
    lossless: bool,
    threads: usize,
)
    ensures
        encoding_of(format, width, height, pixels, q1, lossless, threads) == encoding_of(
            format,
            width,
            height,
            pixels,
            clamped_quality(q1),
            lossless,
            threads,
        ),
        (format is Png || format is Bmp || format is Tiff || format is Gif || ((format is Webp
            || format is Avif) && lossless)) ==> encoding_of(
            format,
            width,
            height,
            pixels,
            q1,
            lossless,
            threads,
        ) == encoding_of(format, width, height, pixels, q2, lossless, threads),
{
}

/// Asking for lossless changes nothing for formats without a lossless mode
/// of their own here (PNG, JPEG, BMP, TIFF, GIF); JPEG and JPG encode alike;
/// lossless AVIF is AVIF at quality 100.
pub proof fn law_lossless_modes(
    format: OutputFormat,
    width: u32,
    height: u32,
    pixels: Seq<Rgba8>,
    q: u8,
    lossless: bool,
    threads: usize,
)
    ensures
        (format is Png || format is Jpeg || format is Jpg || format is Bmp || format is Tiff
            || format is Gif) ==> encoding_of(format, width, height, pixels, q, true, threads)
            == encoding_of(format, width, height, pixels, q, false, threads),
        encoding_of(OutputFormat::Jpeg, width, height, pixels, q, lossless, threads) == encoding_of(
            OutputFormat::Jpg,
            width,
            height,
            pixels,
            q,
            lossless,
            threads,
        ),
        encoding_of(OutputFormat::Avif, width, height, pixels, q, true, threads) == encoding_of(
            OutputFormat::Avif,
            width,
            height,
            pixels,
            100,
            false,
            threads,
        ),
        encode_failure_prefix(OutputFormat::Jpeg) == encode_failure_prefix(OutputFormat::Jpg),
{
}


/// Which encoder writes each format, and from which bytes: PNG, TIFF, GIF,
/// WebP and AVIF from the RGBA bytes, JPEG (either name) and BMP from the RGB
/// bytes; JPEG at the requested quality brought into 1..=100, lossy WebP at
/// that quality and lossless WebP at effort 75, AVIF at that quality (100 when
/// lossless) and speed 6.
pub proof fn law_encoder_per_format(
    format: OutputFormat,
    width: u32,
    height: u32,
    pixels: Seq<Rgba8>,
    q: u8,
    lossless: bool,
    threads: usize,
)
    ensures
        ({
            let qq: u8 = if q < 1 {
                1
            } else if q > 100 {
                100
            } else {
                q
            };
            let e = encoding_of(format, width, height, pixels, q, lossless, threads);
            &&& (format is Jpeg || format is Jpg) ==> e == jpeg_encoding(
                width,
                height,
                rgb_layout(pixels),
                qq,
            )
            &&& format is Png ==> e == png_encoding(width, height, rgba_layout(pixels))
            &&& format is Bmp ==> e == bmp_encoding(width, height, rgb_layout(pixels))
            &&& format is Tiff ==> e == tiff_encoding(width, height, rgba_layout(pixels))
            &&& format is Gif ==> e == gif_encoding(width, height, rgba_layout(pixels))
            &&& (format is Webp && lossless) ==> e == webp_encoding(
                width,
                height,
                rgba_layout(pixels),
                true,
                75,
            )
            &&& (format is Webp && !lossless) ==> e == webp_encoding(
                width,
                height,
                rgba_layout(pixels),
                false,
                qq,
            )
            &&& (format is Avif && lossless) ==> e == avif_encoding(
                width,
                height,
                rgba_layout(pixels),
                100,
                6,
                threads,
            )
            &&& (format is Avif && !lossless) ==> e == avif_encoding(
                width,
                height,
                rgba_layout(pixels),
                qq,
                6,
                threads,
            )
        }),
{
}

} // verus!
