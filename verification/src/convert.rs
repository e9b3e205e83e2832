use vstd::prelude::*;

use crate::alpha::{flatten_pixel, has_meaningful_alpha, prepare_pixels};
use crate::base64::{base64_encode, base64_of};
use crate::codec::{
    decode_rgba8, decoded_rgba8, encodable, encode_failure_prefix, encode_image, encode_png,
    encode_native_png, encode_native_resized_png, encoding_of, failure, fits_box, image_error_text,
    native_png, native_resized_png, png_encoding, resize_rgba8, resized_to_fit, ResizeFilter,
};
use crate::error::ConvertError;
use crate::format::{
    alpha_supported, extension_of, law_format_table, lossless_supported, parse_format,
    unsupported_format_message, OutputFormat,
};
use crate::orientation::{exif_orientation_entry, orientation_value, read_exif_orientation};
use crate::paths::{
    detect_format_label, display_file_name, format_label, output_name, output_path_for,
    path_file_name, path_joined, shown_file_name,
};
use crate::raster::{
    apply_orientation, lemma_div_mod_small, lemma_placed_closed_form, orientation_placement,
    pixels_from_rgba, placed_height, placed_pixels, placed_width, rgba_layout, Rgba8, RgbaImage,
};
use crate::text::{ascii_uppercase, push_str, string_of, upper_seq};

verus! {

/// What the user asks of a conversion.
#[derive(Debug)]
pub struct ConvertOptions {
    pub format: String,
    pub quality: u8,
    pub lossless: bool,
    pub background: Option<[u8; 3]>,
    pub suffix: Option<String>,
}

/// What probing an image file reports.
#[derive(Debug)]
pub struct ImageInfo {
    pub path: String,
    pub file_name: String,
    pub width: u32,
    pub height: u32,
    pub format: String,
    pub size_bytes: u64,
    pub has_alpha: bool,
}

/// A file converted and written.
#[derive(Debug)]
pub struct ConvertSuccess {
    pub source_path: String,
    pub output_path: String,
    pub input_bytes: u64,
    pub output_bytes: u64,
    pub width: u32,
    pub height: u32,
    pub format: String,
}

/// A file whose conversion failed, with the reason.
#[derive(Debug)]
pub struct ConvertFailure {
    pub source_path: String,
    pub error: String,
}

/// The outcome of converting several files, one entry per file.
#[derive(Debug)]
pub struct BatchResult {
    pub successes: Vec<ConvertSuccess>,
    pub failures: Vec<ConvertFailure>,
}

/// The options of a conversion once checked and given their defaults.
#[derive(Debug)]
pub struct ConvertSettings {
    pub format: OutputFormat,
    pub quality: u8,
    pub lossless: bool,
    pub background: [u8; 3],
    pub suffix: String,
}

/// An image decoded, turned upright and encoded, ready to be written.
#[derive(Debug)]
pub struct RenderedImage {
    pub output_path: String,
    pub encoded: Vec<u8>,
    pub width: u32,
    pub height: u32,
    pub format_label: String,
}

/// The upright image held by the file contents `data`: the decoded raster
/// placed as its EXIF orientation says; `None` when the contents do not decode.
pub open spec fn loaded_raster(data: Seq<u8>) -> Option<(u32, u32, Seq<Rgba8>)> {
    match decoded_rgba8(data) {
        Some((w, h, px)) => {
            let t = orientation_placement(orientation_value(exif_orientation_entry(data)));
            Some(
                (
                    placed_width(t, w as int, h as int) as u32,
                    placed_height(t, w as int, h as int) as u32,
                    placed_pixels(t, w as int, h as int, pixels_from_rgba(px)),
                ),
            )
        },
        None => None,
    }
}

/// Loading turns the decoded raster upright by the file's EXIF orientation `o`
/// (1 when the file does not say): orientations 5 to 8 exchange width and
/// height, and the pixel at column `x`, row `y` of the loaded image is the
/// decoded pixel at: 2, the mirrored column; 3, the mirrored column and row
/// (half a turn); 4, the mirrored row; 5, column `y` and row `x`; 6, column
/// `y` and mirrored row `x` (a quarter turn clockwise); 7, mirrored column
/// `y` and mirrored row `x`; 8, mirrored column `y` and row `x` (a quarter
/// turn anticlockwise); 1, the same place.
pub proof fn law_loaded_upright(data: Seq<u8>)
    ensures
        loaded_raster(data) is Some <==> decoded_rgba8(data) is Some,
        loaded_raster(data) matches Some((w2, h2, p2)) ==> ({
            let o = orientation_value(exif_orientation_entry(data));
            let (w, h, px) = decoded_rgba8(data)->0;
            let d = pixels_from_rgba(px);
            &&& (5 <= o <= 8) ==> w2 == h && h2 == w
            &&& !(5 <= o <= 8) ==> w2 == w && h2 == h
            &&& p2.len() == w2 * h2
            &&& forall|x: int, y: int|
                0 <= x < w2 && 0 <= y < h2 ==> #[trigger] p2[y * w2 + x] == if o == 2 {
                    d[y * w + (w - 1 - x)]
                } else if o == 3 {
                    d[(h - 1 - y) * w + (w - 1 - x)]
                } else if o == 4 {
                    d[(h - 1 - y) * w + x]
                } else if o == 5 {
                    d[x * w + y]
                } else if o == 6 {
                    d[(h - 1 - x) * w + y]
                } else if o == 7 {
                    d[(h - 1 - x) * w + (w - 1 - y)]
                } else if o == 8 {
                    d[x * w + (w - 1 - y)]
                } else {
                    d[y * w + x]
                }
        }),
{
    if let Some((w2, h2, p2)) = loaded_raster(data) {
        let (w, h, px) = decoded_rgba8(data)->0;
        let t = orientation_placement(orientation_value(exif_orientation_entry(data)));
        assert(w2 as int == placed_width(t, w as int, h as int));
        assert(h2 as int == placed_height(t, w as int, h as int));
        assert forall|x: int, y: int| 0 <= x < w2 && 0 <= y < h2 implies #[trigger] p2[y * w2 + x]
            == placed_pixels(t, w as int, h as int, pixels_from_rgba(px))[y * w2 + x] by {
        }
        assert forall|x: int, y: int| 0 <= x < w2 && 0 <= y < h2 implies (y * w2 + x) % (w2 as int)
            == x && (y * w2 + x) / (w2 as int) == y && 0 <= #[trigger] (y * w2 + x) < w2 * h2 by {
            lemma_div_mod_small(y, x, w2 as int);
            assert(w2 * y == y * w2) by (nonlinear_arith);
            assert(y * w2 + x < w2 * h2) by (nonlinear_arith)
                requires
                    0 <= x < w2,
                    0 <= y < h2,
            ;
        }
    }
}

/// The start of the message given when the file at `label` does not decode.
pub open spec fn decode_failure_prefix(label: Seq<char>) -> Seq<char> {
    "Failed to decode "@ + label + ": "@
}

/// Decodes the contents of the file at `label` and turns the image upright
/// as its EXIF orientation says.
pub fn load_image(label: &str, data: &[u8]) -> (r: Result<RgbaImage, ConvertError>)
    ensures
        r is Ok <==> loaded_raster(data@) is Some,
        r matches Ok(img) ==> img.wf() && loaded_raster(data@) == Some(
            (img.width, img.height, img.pixels@),
        ),
        r matches Err(e) ==> decode_failure_prefix(label@).is_prefix_of(e.text()),
{
    match decode_rgba8(data) {
        Ok((w, h, px)) => {
            let img = RgbaImage::from_rgba_bytes(w, h, px.as_slice()).unwrap();
            let orientation = read_exif_orientation(data);
            let ghost before = img;
            let upright = apply_orientation(img, orientation);
            proof {
                lemma_placed_closed_form(&before, &upright, orientation_placement(orientation));
            }
            Ok(upright)
        },
        Err(e) => {
            let mut prefix = string_of("Failed to decode ");
            push_str(&mut prefix, label);
            push_str(&mut prefix, ": ");
            Err(failure(prefix.as_str(), image_error_text(&e).as_str()))
        },
    }
}

/// Some pixel of `p` is not fully opaque.
pub open spec fn any_translucent(p: Seq<Rgba8>) -> bool {
    exists|i: int| 0 <= i < p.len() && #[trigger] p[i].a < 255
}

/// An image has alpha exactly when some pixel is not fully opaque (alpha 255).
pub proof fn law_translucent(p: Seq<Rgba8>)
    ensures
        any_translucent(p) <==> !(forall|i: int| 0 <= i < p.len() ==> #[trigger] p[i].a == 255),
{
}

/// Reads what the converter shows of the image file at `path`, whose
/// contents are `contents` and whose size on disk is `size_bytes`.
pub fn probe_image(path: &str, contents: &[u8], size_bytes: u64) -> (r: Result<
    ImageInfo,
    ConvertError,
>)
    ensures
        r is Ok <==> loaded_raster(contents@) is Some,
        r matches Ok(info) ==> {
            &&& loaded_raster(contents@) matches Some((w, h, p))
            &&& info.width == w
            &&& info.height == h
            &&& info.has_alpha == any_translucent(p)
            &&& info.path@ == path@
            &&& info.file_name@ == shown_file_name(path_file_name(path@))
            &&& info.format@ == format_label(path_file_name(path@))
            &&& info.size_bytes == size_bytes
        },
        r matches Err(e) ==> decode_failure_prefix(path@).is_prefix_of(e.text()),
{
    let img = match load_image(path, contents) {
        Ok(img) => img,
        Err(e) => {
            return Err(e);
        },
    };
    let has_alpha = has_meaningful_alpha(&img);
    Ok(
        ImageInfo {
            path: string_of(path),
            file_name: display_file_name(path),
            width: img.width,
            height: img.height,
            format: detect_format_label(path),
            size_bytes,
            has_alpha,
        },
    )
}


/// The settings that `options` ask for: the named format, the background
/// (white when none is given), lossless only where the format has a lossless
/// mode, and the suffix (empty when none is given); `None` when the format
/// name names no format.
pub open spec fn settings_for(options: ConvertOptions) -> Option<(OutputFormat, [u8; 3], bool, Seq<char>)> {
    match parse_format(options.format@) {
        Some(f) => Some(
            (
                f,
                match options.background {
                    Some(bg) => bg,
                    None => [255u8, 255u8, 255u8],
                },
                options.lossless && lossless_supported(f),
                match options.suffix {
                    Some(s) => s@,
                    None => Seq::<char>::empty(),
                },
            ),
        ),
        None => None,
    }
}

/// Resolving options keeps what was asked: the settings exist exactly when
/// the format name names a format, and then hold that format, the given
/// background (white when none is given), the given suffix (empty when none
/// is given), and lossless exactly when lossless was asked for and the format
/// is WebP, AVIF, PNG, BMP or TIFF. So lossless WebP asked for is lossless
/// WebP, and lossless JPEG asked for is lossy JPEG.
pub proof fn law_settings(options: ConvertOptions)
    ensures
        settings_for(options) is Some <==> parse_format(options.format@) is Some,
        settings_for(options) matches Some((f, bg, lossless, suffix)) ==> {
            &&& parse_format(options.format@) == Some(f)
            &&& lossless == (options.lossless && (f is Webp || f is Avif || f is Png || f is Bmp
                || f is Tiff))
            &&& (options.background matches Some(b) ==> bg == b)
            &&& (options.background is None ==> bg == [255u8, 255u8, 255u8])
            &&& (options.suffix matches Some(t) ==> suffix == t@)
            &&& (options.suffix is None ==> suffix.len() == 0)
        },
        options.format@ == seq!['w', 'e', 'b', 'p'] ==> (settings_for(options) matches Some(
            (f, _, lossless, _),
        ) && f is Webp && lossless == options.lossless),
{
    if let Some(f) = parse_format(options.format@) {
        law_format_table(f);
    }
    law_format_table(OutputFormat::Webp);
}

/// Checks the options of a conversion and fills in their defaults.
pub fn resolve_settings(options: &ConvertOptions) -> (r: Result<ConvertSettings, ConvertError>)
    ensures
        r is Ok <==> settings_for(*options) is Some,
        r matches Ok(s) ==> settings_for(*options) == Some(
            (s.format, s.background, s.lossless, s.suffix@),
        ) && s.quality == options.quality,
        r matches Err(e) ==> e.text() == unsupported_format_message(options.format@),
{
    let format = match OutputFormat::from_str_loose(options.format.as_str()) {
        Ok(f) => f,
        Err(e) => {
            return Err(e);
        },
    };
    let background = match options.background {
        Some(bg) => bg,
        None => [255u8, 255u8, 255u8],
    };
    let lossless = options.lossless && format.supports_lossless();
    let suffix = match &options.suffix {
        Some(s) => s.clone(),
        None => String::new(),
    };
    Ok(ConvertSettings { format, quality: options.quality, lossless, background, suffix })
}

/// The pixels handed to the encoder of `format`: laid over `bg` when the
/// format has no alpha channel.
pub open spec fn prepared(p: Seq<Rgba8>, format: OutputFormat, bg: [u8; 3]) -> Seq<Rgba8> {
    if alpha_supported(format) {
        p
    } else {
        p.map_values(|q: Rgba8| flatten_pixel(q, bg@))
    }
}

/// The pixels handed to the encoder: for WebP, AVIF, PNG and GIF the pixels as
/// they are; for JPEG, BMP and TIFF each pixel laid over the background, which
/// leaves every pixel opaque.
pub proof fn law_prepared(p: Seq<Rgba8>, f: OutputFormat, bg: [u8; 3])
    ensures
        prepared(p, f, bg).len() == p.len(),
        (f is Webp || f is Avif || f is Png || f is Gif) ==> prepared(p, f, bg) == p,
        !(f is Webp || f is Avif || f is Png || f is Gif) ==> forall|i: int|
            0 <= i < p.len() ==> {
                &&& #[trigger] prepared(p, f, bg)[i] == flatten_pixel(p[i], bg@)
                &&& prepared(p, f, bg)[i].a == 255
            },
{
    law_format_table(f);
}

/// Decodes the contents of the file at `source_path`, turns the image
/// upright, prepares its pixels for the target format and encodes them;
/// also names the output file in `output_dir`. An image whose size the
/// target's encoder cannot take without panicking (WebP: wider than 0x1fff_ffff
/// pixels; AVIF: a width of 0) is refused with an encode error. `threads` is the
/// number of threads the machine offers (it sets the tile layout of AVIF files).
pub fn render_conversion(
    source_path: &str,
    output_dir: &str,
    settings: &ConvertSettings,
    contents: &[u8],
    threads: usize,
) -> (r: Result<RenderedImage, ConvertError>)
    requires
        threads >= 1,
    ensures
        loaded_raster(contents@) is None ==> (r matches Err(e) && decode_failure_prefix(
            source_path@,
        ).is_prefix_of(e.text())),
        loaded_raster(contents@) matches Some((w, h, p)) ==> {
            &&& !encodable(settings.format, w, h) ==> (r matches Err(e)
                && encode_failure_prefix(settings.format).is_prefix_of(e.text()))
            &&& encodable(settings.format, w, h) ==> {
                let encoded = encoding_of(
                    settings.format,
                    w,
                    h,
                    prepared(p, settings.format, settings.background),
                    settings.quality,
                    settings.lossless,
                    threads,
                );
                &&& r is Ok <==> encoded is Some
                &&& r matches Ok(out) ==> {
                    &&& encoded == Some(out.encoded@)
                    &&& out.width == w
                    &&& out.height == h
                    &&& out.output_path@ == path_joined(
                        output_dir@,
                        output_name(path_file_name(source_path@), settings.format, settings.suffix@),
                    )
                    &&& out.format_label@ == upper_seq(extension_of(settings.format))
                }
                &&& r matches Err(e) ==> encode_failure_prefix(settings.format).is_prefix_of(
                    e.text(),
                )
            }
        },
{
    let img = match load_image(source_path, contents) {
        Ok(img) => img,
        Err(e) => {
            return Err(e);
        },
    };
    let format = settings.format;
    let width = img.width;
    let height = img.height;
    let pixels = prepare_pixels(&img, &format, settings.background);
    let fits = match format {
        OutputFormat::Webp => width <= 0x1fff_ffff,
        OutputFormat::Avif => width >= 1,
        _ => true,
    };
    if !fits {
        let prefix = match format {
            OutputFormat::Webp => "WebP encode failed: ",
            _ => "AVIF encode failed: ",
        };
        return Err(failure(prefix, "image dimensions not supported by the encoder"));
    }
    let encoded = match encode_image(&pixels, &format, settings.quality, settings.lossless, threads) {
        Ok(b) => b,
        Err(e) => {
            return Err(e);
        },
    };
    let output_path = output_path_for(source_path, output_dir, &format, settings.suffix.as_str());
    let format_label = ascii_uppercase(format.extension());
    Ok(RenderedImage { output_path, encoded, width, height, format_label })
}

impl RenderedImage {
    /// The record of the conversion of `source_path` (of `input_bytes` bytes)
    /// into this image.
    pub fn into_success(self, source_path: String, input_bytes: u64) -> (r: ConvertSuccess)
        ensures
            r.source_path == source_path,
            r.output_path == self.output_path,
            r.input_bytes == input_bytes,
            r.output_bytes == self.encoded@.len(),
            r.width == self.width,
            r.height == self.height,
            r.format == self.format_label,
    {
        let output_bytes = self.encoded.len() as u64;
        ConvertSuccess {
            source_path,
            output_path: self.output_path,
            input_bytes,
            output_bytes,
            width: self.width,
            height: self.height,
            format: self.format_label,
        }
    }
}


/// The successful conversions among `outcomes`, in order.
pub open spec fn successes_of(outcomes: Seq<Result<ConvertSuccess, ConvertError>>) -> Seq<
    ConvertSuccess,
>
    decreases outcomes.len(),
{
    if outcomes.len() == 0 {
        Seq::empty()
    } else {
        let rest = successes_of(outcomes.drop_last());
        match outcomes.last() {
            Ok(s) => rest.push(s),
            Err(_) => rest,
        }
    }
}

/// The failed conversions among `outcomes`, in order, each as the path of
/// its source (from `paths`, which lists the sources in the same order) and
/// the message of its error.
pub open spec fn failures_of(
    paths: Seq<Seq<char>>,
    outcomes: Seq<Result<ConvertSuccess, ConvertError>>,
) -> Seq<(Seq<char>, Seq<char>)>
    decreases outcomes.len(),
{
    if outcomes.len() == 0 || paths.len() == 0 {
        Seq::empty()
    } else {
        let rest = failures_of(paths.drop_last(), outcomes.drop_last());
        match outcomes.last() {
            Ok(_) => rest,
            Err(e) => rest.push((paths.last(), e.text())),
        }
    }
}

/// The texts of a list of strings.
pub open spec fn texts(v: Seq<String>) -> Seq<Seq<char>> {
    v.map_values(|s: String| s@)
}

/// A failure record as its path and message.
pub open spec fn failure_view(f: ConvertFailure) -> (Seq<char>, Seq<char>) {
    (f.source_path@, f.error@)
}

/// Each outcome is counted once, as a success or as a failure.
pub proof fn law_batch_counts(
    paths: Seq<Seq<char>>,
    outcomes: Seq<Result<ConvertSuccess, ConvertError>>,
)
    requires
        paths.len() == outcomes.len(),
    ensures
        successes_of(outcomes).len() + failures_of(paths, outcomes).len() == outcomes.len(),
    decreases outcomes.len(),
{
    if outcomes.len() > 0 {
        law_batch_counts(paths.drop_last(), outcomes.drop_last());
    }
}

/// Batching a list is batching its two parts and joining the results.
pub proof fn law_batch_concat(
    pa: Seq<Seq<char>>,
    a: Seq<Result<ConvertSuccess, ConvertError>>,
    pb: Seq<Seq<char>>,
    b: Seq<Result<ConvertSuccess, ConvertError>>,
)
    requires
        pa.len() == a.len(),
        pb.len() == b.len(),
    ensures
        successes_of(a + b) == successes_of(a) + successes_of(b),
        failures_of(pa + pb, a + b) == failures_of(pa, a) + failures_of(pb, b),
    decreases b.len(),
{
    if b.len() == 0 {
        assert(a + b =~= a);
        assert(pa + pb =~= pa);
        assert(successes_of(a) + successes_of(b) =~= successes_of(a));
        assert(failures_of(pa, a) + failures_of(pb, b) =~= failures_of(pa, a));
    } else {
        law_batch_concat(pa, a, pb.drop_last(), b.drop_last());
        assert((a + b).drop_last() =~= a + b.drop_last());
        assert((pa + pb).drop_last() =~= pa + pb.drop_last());
        assert((a + b).last() == b.last());
        assert((pa + pb).last() == pb.last());
        match b.last() {
            Ok(s) => {
                assert(successes_of(a) + successes_of(b.drop_last()).push(s) =~= (successes_of(a)
                    + successes_of(b.drop_last())).push(s));
            },
            Err(e) => {
                let f = (pb.last(), e.text());
                assert(failures_of(pa, a) + failures_of(pb.drop_last(), b.drop_last()).push(f) =~= (
                failures_of(pa, a) + failures_of(pb.drop_last(), b.drop_last())).push(f));
            },
        }
    }
}

/// The record kept of an outcome when it succeeded.
pub open spec fn success_record(r: Result<ConvertSuccess, ConvertError>) -> Option<ConvertSuccess> {
    match r {
        Ok(s) => Some(s),
        Err(_) => None,
    }
}

/// The path and message kept of an outcome when it failed.
pub open spec fn failure_record(t: (Seq<char>, Result<ConvertSuccess, ConvertError>)) -> Option<
    (Seq<char>, Seq<char>),
> {
    match t.1 {
        Ok(_) => None,
        Err(e) => Some((t.0, e.text())),
    }
}

/// The successes of a batch are its successful outcomes, unchanged and in
/// order, and its failures are the failed outcomes, in order, each with the
/// path of its source and the message of its error; every successful outcome
/// is among the successes.
pub proof fn law_batch_outcomes(
    paths: Seq<Seq<char>>,
    outcomes: Seq<Result<ConvertSuccess, ConvertError>>,
)
    requires
        paths.len() == outcomes.len(),
    ensures
        successes_of(outcomes) == outcomes.filter_map(|r: Result<ConvertSuccess, ConvertError>|
            success_record(r)),
        failures_of(paths, outcomes) == paths.zip_with(outcomes).filter_map(
            |t: (Seq<char>, Result<ConvertSuccess, ConvertError>)| failure_record(t),
        ),
        forall|i: int|
            0 <= i < outcomes.len() && (#[trigger] outcomes[i]) is Ok ==> successes_of(
                outcomes,
            ).contains(outcomes[i]->Ok_0),
    decreases outcomes.len(),
{
    let f = |r: Result<ConvertSuccess, ConvertError>| success_record(r);
    let g = |t: (Seq<char>, Result<ConvertSuccess, ConvertError>)| failure_record(t);
    if outcomes.len() > 0 {
        let n = outcomes.len() as int;
        law_batch_outcomes(paths.drop_last(), outcomes.drop_last());
        let z = paths.zip_with(outcomes);
        assert(z.drop_last() =~= paths.drop_last().zip_with(outcomes.drop_last()));
        assert(z.last() == (paths.last(), outcomes.last()));
        match outcomes.last() {
            Ok(s) => {
                assert(successes_of(outcomes.drop_last()).push(s) =~= outcomes.drop_last().filter_map(f)
                    + seq![s]);
            },
            Err(e) => {
                assert(failures_of(paths.drop_last(), outcomes.drop_last()).push((paths.last(), e.text()))
                    =~= z.drop_last().filter_map(g) + seq![(paths.last(), e.text())]);
            },
        }
        assert forall|i: int|
            0 <= i < outcomes.len() && (#[trigger] outcomes[i]) is Ok implies successes_of(
                outcomes,
            ).contains(outcomes[i]->Ok_0) by {
            if i < n - 1 {
                assert(outcomes.drop_last()[i] == outcomes[i]);
                let k = choose|k: int|
                    0 <= k < successes_of(outcomes.drop_last()).len() && successes_of(
                        outcomes.drop_last(),
                    )[k] == outcomes[i]->Ok_0;
                assert(successes_of(outcomes)[k] == outcomes[i]->Ok_0);
            } else {
                assert(outcomes[i] == outcomes.last());
                assert(successes_of(outcomes).last() == outcomes[i]->Ok_0);
            }
        }
    } else {
        assert(paths.zip_with(outcomes) =~= Seq::<(Seq<char>, Result<ConvertSuccess, ConvertError>)>::empty());
    }
}

/// Gathers the outcomes of converting `source_paths` (the outcome of
/// `source_paths[i]` at `outcomes[i]`): a failure of one file is recorded
/// and the others are kept.
pub fn convert_batch(
    source_paths: Vec<String>,
    outcomes: Vec<Result<ConvertSuccess, ConvertError>>,
) -> (r: BatchResult)
    requires
        source_paths@.len() == outcomes@.len(),
    ensures
        r.successes@ == successes_of(outcomes@),
        r.failures@.map_values(|f: ConvertFailure| failure_view(f)) == failures_of(
            texts(source_paths@),
            outcomes@,
        ),
        r.successes@.len() + r.failures@.len() == source_paths@.len(),
{
    let mut successes: Vec<ConvertSuccess> = Vec::new();
    let mut failures: Vec<ConvertFailure> = Vec::new();
    let n = outcomes.len();
    let ghost all = outcomes@;
    let mut pending = outcomes;
    let mut rest: Vec<Result<ConvertSuccess, ConvertError>> = Vec::new();
    while pending.len() > 0
        invariant
            n == all.len(),
            pending@ == all.take(pending@.len() as int),
            pending@.len() + rest@.len() == n,
            forall|j: int| 0 <= j < rest@.len() ==> #[trigger] rest@[j] == all[n - 1 - j],
        decreases pending@.len(),
    {
        let item = pending.pop().unwrap();
        rest.push(item);
        assert(all.take(pending@.len() as int) =~= all.take((pending@.len() + 1) as int).drop_last());
    }
    let mut k: usize = 0;
    while k < n
        invariant
            k <= n,
            n == all.len(),
            source_paths@.len() == n,
            rest@.len() == n - k,
            forall|j: int| 0 <= j < n - k ==> #[trigger] rest@[j] == all[n - 1 - j],
            successes@ == successes_of(all.take(k as int)),
            failures@.map_values(|f: ConvertFailure| failure_view(f)) == failures_of(
                texts(source_paths@).take(k as int),
                all.take(k as int),
            ),
        decreases n - k,
    {
        let outcome = rest.pop().unwrap();
        assert(outcome == all[k as int]);
        let ghost ps = texts(source_paths@);
        assert(all.take(k + 1).drop_last() =~= all.take(k as int));
        assert(ps.take(k + 1).drop_last() =~= ps.take(k as int));
        assert(ps.take(k + 1).last() == source_paths@[k as int]@);
        match outcome {
            Ok(s) => {
                successes.push(s);
            },
            Err(e) => {
                let f = ConvertFailure { source_path: source_paths[k].clone(), error: e.message() };
                let ghost before = failures@;
                failures.push(f);
                assert(failures@.map_values(|f: ConvertFailure| failure_view(f)) =~= before.map_values(
                    |f: ConvertFailure| failure_view(f),
                ).push(failure_view(f)));
            },
        }
        k = k + 1;
    }
    assert(all.take(n as int) =~= all);
    assert(texts(source_paths@).take(n as int) =~= texts(source_paths@));
    proof {
        law_batch_counts(texts(source_paths@), all);
        assert(failures@.map_values(|f: ConvertFailure| failure_view(f)).len() == failures@.len());
    }
    BatchResult { successes, failures }
}


/// The longest side a preview may have: the requested one, but at least 64.
pub open spec fn preview_limit(max_edge: u32) -> u32 {
    if max_edge < 64 {
        64
    } else {
        max_edge
    }
}

/// The filter used to shrink previews.
pub open spec fn preview_filter() -> ResizeFilter {
    ResizeFilter::Triangle
}

/// The size and PNG file of the preview of the image held by `data`: the
/// upright image, shrunk to fit a square of side `preview_limit(max_edge)`
/// when either side is longer. An image that needs no turning keeps its
/// decoded colour type and bit depth; a turned one is 8-bit RGBA. `None`
/// when the contents do not decode or the PNG encoder fails.
pub open spec fn preview_png(data: Seq<u8>, max_edge: u32) -> Option<(u32, u32, Seq<u8>)> {
    match loaded_raster(data) {
        Some((w, h, p)) => {
            let m = preview_limit(max_edge);
            let big = w > m || h > m;
            if orientation_placement(orientation_value(exif_orientation_entry(data))) is Keep {
                if big {
                    native_resized_png(data, m, m, preview_filter())
                } else {
                    match native_png(data) {
                        Some(png) => Some((w, h, png)),
                        None => None,
                    }
                }
            } else {
                let shown = if big {
                    resized_to_fit(w, h, rgba_layout(p), m, m, preview_filter())
                } else {
                    (w, h, rgba_layout(p))
                };
                match png_encoding(shown.0, shown.1, shown.2) {
                    Some(png) => Some((shown.0, shown.1, png)),
                    None => None,
                }
            }
        },
        None => None,
    }
}

/// The size of a preview of a `w` by `h` image with limit `m`: unchanged when
/// both sides are within `m`, otherwise shrunk to fit an `m` by `m` square
/// with the longer side `m`, no side empty, and the aspect ratio kept up to
/// one pixel.
pub open spec fn preview_size(w: u32, h: u32, m: u32, w2: u32, h2: u32) -> bool {
    if w <= m && h <= m {
        w2 == w && h2 == h
    } else {
        fits_box(w, h, m, m, w2, h2)
    }
}

/// The prefix of a PNG data URL.
pub open spec fn png_data_url_prefix() -> Seq<char> {
    "data:image/png;base64,"@
}

/// A PNG preview of the image file at `path` with contents `contents`, as a
/// `data:` URL.
pub fn preview_data_url(path: &str, contents: &[u8], max_edge: u32) -> (r: Result<
    String,
    ConvertError,
>)
    ensures
        loaded_raster(contents@) is None ==> (r matches Err(e) && decode_failure_prefix(
            path@,
        ).is_prefix_of(e.text())),
        loaded_raster(contents@) is Some ==> (r is Ok <==> preview_png(contents@, max_edge) is Some),
        r matches Ok(url) ==> {
            &&& preview_png(contents@, max_edge) matches Some((w2, h2, png))
            &&& url@ == png_data_url_prefix() + base64_of(png)
            &&& loaded_raster(contents@) matches Some((w, h, _))
            &&& preview_size(w, h, preview_limit(max_edge), w2, h2)
        },
        loaded_raster(contents@) is Some ==> (r matches Err(e) ==> "Preview encode failed: "@.is_prefix_of(
            e.text(),
        )),
{
    let img = match load_image(path, contents) {
        Ok(img) => img,
        Err(e) => {
            return Err(e);
        },
    };
    let limit = if max_edge < 64 {
        64
    } else {
        max_edge
    };
    let big = img.width > limit || img.height > limit;
    let orientation = read_exif_orientation(contents);
    let upright = match orientation {
        2 | 3 | 4 | 5 | 6 | 7 | 8 => false,
        _ => true,
    };
    let encoded = if upright {
        if big {
            encode_native_resized_png(contents, limit, limit, ResizeFilter::Triangle)
        } else {
            match encode_native_png(contents) {
                Ok(png) => Ok((img.width, img.height, png)),
                Err(e) => Err(e),
            }
        }
    } else {
        let raw = img.rgba_bytes();
        proof {
            assert(4 * (img.width * img.height) == 4 * img.width * img.height) by (nonlinear_arith);
        }
        let (width, height, bytes) = if big {
            resize_rgba8(img.width, img.height, raw.as_slice(), limit, limit, ResizeFilter::Triangle)
        } else {
            (img.width, img.height, raw)
        };
        match encode_png(width, height, bytes.as_slice()) {
            Ok(png) => Ok((width, height, png)),
            Err(e) => Err(e),
        }
    };
    match encoded {
        Ok((_, _, png)) => {
            let mut url = string_of("data:image/png;base64,");
            let text = base64_encode(png.as_slice());
            push_str(&mut url, text.as_str());
            Ok(url)
        },
        Err(e) => Err(failure("Preview encode failed: ", image_error_text(&e).as_str())),
    }
}

/// A preview shows the image upright. With `o` the file's EXIF orientation (1
/// when the file does not say) and `m` the preview limit: when `o` is 2 to 8,
/// the preview is the PNG encoding of the RGBA bytes of the loaded, turned
/// raster (see `law_loaded_upright`), shrunk with the triangle filter to fit an `m` by `m` square when
/// either side is longer than `m`; only when `o` is 1, where the loaded raster
/// has the decoded size, is the file's own decoded image encoded. Contents that
/// do not decode have no preview.
pub proof fn law_preview_upright(data: Seq<u8>, max_edge: u32)
    ensures
        loaded_raster(data) is None ==> preview_png(data, max_edge) is None,
        loaded_raster(data) matches Some((w, h, p)) ==> ({
            let o = orientation_value(exif_orientation_entry(data));
            let m = preview_limit(max_edge);
            let big = w > m || h > m;
            let shown = if big {
                resized_to_fit(w, h, rgba_layout(p), m, m, ResizeFilter::Triangle)
            } else {
                (w, h, rgba_layout(p))
            };
            &&& (2 <= o <= 8) ==> preview_png(data, max_edge) == match png_encoding(
                shown.0,
                shown.1,
                shown.2,
            ) {
                Some(png) => Some((shown.0, shown.1, png)),
                None => None,
            }
            &&& o == 1 ==> {
                &&& decoded_rgba8(data) matches Some((dw, dh, _))
                &&& w == dw && h == dh
                &&& preview_png(data, max_edge) == if big {
                    native_resized_png(data, m, m, ResizeFilter::Triangle)
                } else {
                    match native_png(data) {
                        Some(png) => Some((w, h, png)),
                        None => None,
                    }
                }
            }
        }),
{
}

/// A requested preview edge below 64 acts as 64.
pub proof fn law_preview_edge_floor(data: Seq<u8>, max_edge: u32)
    requires
        max_edge <= 64,
    ensures
        preview_png(data, max_edge) == preview_png(data, 64),
        preview_limit(max_edge) == 64,
{
}

} // verus!
