use std::io::Cursor;

use zayan_image_magic::{
    apply_orientation, base64_encode, convert_batch, detect_format_label, encode_image, err,
    flatten_on_background, has_meaningful_alpha, load_image, orientation_from_tag,
    output_path_for, prepare_pixels, preview_data_url, probe_image, read_exif_orientation,
    render_conversion, resolve_settings, ConvertError, ConvertOptions, ConvertSuccess,
    OutputFormat, Rgba8, RgbaImage,
};

const ALL: [OutputFormat; 8] = [
    OutputFormat::Webp,
    OutputFormat::Avif,
    OutputFormat::Jpeg,
    OutputFormat::Jpg,
    OutputFormat::Png,
    OutputFormat::Gif,
    OutputFormat::Bmp,
    OutputFormat::Tiff,
];

fn px(r: u8, g: u8, b: u8, a: u8) -> Rgba8 {
    Rgba8 { r, g, b, a }
}

/// A `w` by `h` raster whose pixel (x, y) has red x, green y.
fn numbered(w: u32, h: u32, alpha: u8) -> RgbaImage {
    let mut pixels = Vec::new();
    for y in 0..h {
        for x in 0..w {
            pixels.push(px(x as u8, y as u8, 7, alpha));
        }
    }
    RgbaImage { width: w, height: h, pixels }
}

fn at(img: &RgbaImage, x: u32, y: u32) -> Rgba8 {
    img.pixels[(y * img.width + x) as usize]
}

fn png_of(img: &RgbaImage) -> Vec<u8> {
    encode_image(img, &OutputFormat::Png, 90, true, 1).unwrap()
}

fn base64_decode(s: &str) -> Vec<u8> {
    let table = b"ABCDEFGHIJKLMNOPQRSTUVWXYZabcdefghijklmnopqrstuvwxyz0123456789+/";
    let mut out = Vec::new();
    let bytes: Vec<u8> = s.bytes().collect();
    for chunk in bytes.chunks(4) {
        let mut vals = [0u32; 4];
        let mut pad = 0;
        for (i, c) in chunk.iter().enumerate() {
            if *c == b'=' {
                pad += 1;
            } else {
                vals[i] = table.iter().position(|t| t == c).unwrap() as u32;
            }
        }
        let triple = (vals[0] << 18) | (vals[1] << 12) | (vals[2] << 6) | vals[3];
        out.push((triple >> 16) as u8);
        if pad < 2 {
            out.push((triple >> 8) as u8);
        }
        if pad < 1 {
            out.push(triple as u8);
        }
    }
    out
}

#[test]
fn extensions_and_capabilities() {
    let expected = [
        ("webp", true, true),
        ("avif", true, true),
        ("jpg", false, false),
        ("jpg", false, false),
        ("png", true, true),
        ("gif", true, false),
        ("bmp", false, true),
        ("tiff", false, true),
    ];
    for (f, (ext, alpha, lossless)) in ALL.iter().zip(expected) {
        assert_eq!(f.extension(), ext);
        assert_eq!(f.supports_alpha(), alpha);
        assert_eq!(f.supports_lossless(), lossless);
    }
}

#[test]
fn format_names_are_read_loosely() {
    assert_eq!(OutputFormat::from_str_loose(" JPEG ").unwrap(), OutputFormat::Jpeg);
    assert_eq!(OutputFormat::from_str_loose("jpg").unwrap(), OutputFormat::Jpg);
    assert_eq!(OutputFormat::from_str_loose("TIF").unwrap(), OutputFormat::Tiff);
    assert_eq!(OutputFormat::from_str_loose("\tPnG\n").unwrap(), OutputFormat::Png);
    assert_eq!(OutputFormat::from_str_loose("\u{3000}WebP\u{a0}").unwrap(), OutputFormat::Webp);
    assert_eq!(OutputFormat::from_str_loose("gif").unwrap(), OutputFormat::Gif);
    assert_eq!(OutputFormat::from_str_loose("Bmp").unwrap(), OutputFormat::Bmp);
    assert_eq!(OutputFormat::from_str_loose("AVIF").unwrap(), OutputFormat::Avif);
    let e = OutputFormat::from_str_loose("  HEIC ").unwrap_err();
    assert_eq!(e.message(), "Unsupported output format: heic");
    let e = OutputFormat::from_str_loose("").unwrap_err();
    assert_eq!(e.message(), "Unsupported output format: ");
    let e = OutputFormat::from_str_loose("ÄPNG").unwrap_err();
    assert_eq!(e.message(), "Unsupported output format: Äpng");
}

#[test]
fn every_extension_reads_back() {
    for f in ALL {
        let g = OutputFormat::from_str_loose(f.extension()).unwrap();
        assert_eq!(g.extension(), f.extension());
    }
}

#[test]
fn error_carries_its_message() {
    let e = err("boom".to_string());
    assert_eq!(e.message(), "boom");
}

#[test]
fn orientation_tags_are_clamped() {
    assert_eq!(orientation_from_tag(None), 1);
    assert_eq!(orientation_from_tag(Some(0)), 1);
    assert_eq!(orientation_from_tag(Some(6)), 6);
    assert_eq!(orientation_from_tag(Some(42)), 8);
}

fn jpeg_with_orientation(o: u8) -> Vec<u8> {
    let mut tiff = vec![b'M', b'M', 0, 42, 0, 0, 0, 8, 0, 1];
    tiff.extend_from_slice(&[0x01, 0x12, 0, 3, 0, 0, 0, 1, 0, o, 0, 0]);
    tiff.extend_from_slice(&[0, 0, 0, 0]);
    let mut app1 = b"Exif\0\0".to_vec();
    app1.extend_from_slice(&tiff);
    let len = (app1.len() + 2) as u16;
    let mut out = vec![0xFF, 0xD8, 0xFF, 0xE1, (len >> 8) as u8, len as u8];
    out.extend_from_slice(&app1);
    out.extend_from_slice(&[0xFF, 0xD9]);
    out
}

#[test]
fn exif_orientation_is_read() {
    assert_eq!(read_exif_orientation(&jpeg_with_orientation(6)), 6);
    assert_eq!(read_exif_orientation(&jpeg_with_orientation(3)), 3);
    assert_eq!(read_exif_orientation(&jpeg_with_orientation(200)), 8);
    assert_eq!(read_exif_orientation(b"not an image"), 1);
    assert_eq!(read_exif_orientation(&png_of(&numbered(2, 2, 255))), 1);
}

#[test]
fn orientations_place_pixels() {
    let w = 3;
    let h = 2;
    for o in 1..=9u32 {
        let img = apply_orientation(numbered(w, h, 255), o);
        let swapped = (5..=8).contains(&o);
        assert_eq!((img.width, img.height), if swapped { (h, w) } else { (w, h) });
        for y in 0..img.height {
            for x in 0..img.width {
                let (sx, sy) = match o {
                    2 => (w - 1 - x, y),
                    3 => (w - 1 - x, h - 1 - y),
                    4 => (x, h - 1 - y),
                    5 => (y, x),
                    6 => (y, h - 1 - x),
                    7 => (w - 1 - y, h - 1 - x),
                    8 => (w - 1 - y, x),
                    _ => (x, y),
                };
                assert_eq!(at(&img, x, y), px(sx as u8, sy as u8, 7, 255), "orientation {o}");
            }
        }
    }
}

#[test]
fn quarter_turns_compose() {
    let img = numbered(4, 3, 255);
    let back = apply_orientation(apply_orientation(numbered(4, 3, 255), 6), 8);
    assert_eq!(back.pixels, img.pixels);
    let half = apply_orientation(apply_orientation(numbered(4, 3, 255), 6), 6);
    assert_eq!(half.pixels, apply_orientation(numbered(4, 3, 255), 3).pixels);
    let mirrored = apply_orientation(apply_orientation(numbered(4, 3, 255), 6), 2);
    assert_eq!(mirrored.pixels, apply_orientation(numbered(4, 3, 255), 5).pixels);
}

#[test]
fn alpha_is_detected() {
    assert!(!has_meaningful_alpha(&numbered(3, 3, 255)));
    let mut img = numbered(3, 3, 255);
    img.pixels[4].a = 254;
    assert!(has_meaningful_alpha(&img));
    assert!(!has_meaningful_alpha(&numbered(0, 0, 0)));
}

fn float_blend(c: u8, bg: u8, a: u8) -> u8 {
    let a = a as f32 / 255.0;
    (c as f32 * a + bg as f32 * (1.0 - a)).round() as u8
}

#[test]
fn flattening_blends_over_background() {
    let img = RgbaImage { width: 1, height: 1, pixels: vec![px(200, 100, 50, 128)] };
    let flat = flatten_on_background(&img, [255, 255, 255]);
    assert_eq!(flat.pixels, vec![px(227, 177, 152, 255)]);
    let clear = RgbaImage { width: 1, height: 1, pixels: vec![px(1, 2, 3, 0)] };
    assert_eq!(flatten_on_background(&clear, [9, 8, 7]).pixels, vec![px(9, 8, 7, 255)]);
    let solid = RgbaImage { width: 1, height: 1, pixels: vec![px(1, 2, 3, 255)] };
    assert_eq!(flatten_on_background(&solid, [9, 8, 7]).pixels, vec![px(1, 2, 3, 255)]);
    let mut pixels = Vec::new();
    for a in 0..=255u32 {
        for c in (0..=255u32).step_by(5) {
            pixels.push(px(c as u8, (255 - c) as u8, (c * 7 % 256) as u8, a as u8));
        }
    }
    let n = pixels.len() as u32;
    let many = RgbaImage { width: n, height: 1, pixels };
    let flat = flatten_on_background(&many, [30, 140, 250]);
    for (p, q) in many.pixels.iter().zip(flat.pixels.iter()) {
        assert_eq!(q.r, float_blend(p.r, 30, p.a));
        assert_eq!(q.g, float_blend(p.g, 140, p.a));
        assert_eq!(q.b, float_blend(p.b, 250, p.a));
        assert_eq!(q.a, 255);
    }
}

#[test]
fn pixels_prepared_per_format() {
    let img = numbered(2, 2, 100);
    assert_eq!(prepare_pixels(&img, &OutputFormat::Png, [0, 0, 0]).pixels, img.pixels);
    let flat = prepare_pixels(&img, &OutputFormat::Jpeg, [255, 255, 255]);
    assert!(flat.pixels.iter().all(|p| p.a == 255));
    assert_ne!(flat.pixels, img.pixels);
}

#[test]
fn raw_bytes_round_trip() {
    let img = numbered(3, 2, 9);
    let raw = img.rgba_bytes();
    assert_eq!(&raw[..8], &[0, 0, 7, 9, 1, 0, 7, 9]);
    let back = RgbaImage::from_rgba_bytes(3, 2, &raw).unwrap();
    assert_eq!(back.pixels, img.pixels);
    assert!(RgbaImage::from_rgba_bytes(3, 2, &raw[..23]).is_none());
    assert_eq!(&img.rgb_bytes()[..6], &[0, 0, 7, 1, 0, 7]);
}

#[test]
fn base64_matches_rfc_vectors() {
    let cases = [
        ("", ""),
        ("f", "Zg=="),
        ("fo", "Zm8="),
        ("foo", "Zm9v"),
        ("foob", "Zm9vYg=="),
        ("fooba", "Zm9vYmE="),
        ("foobar", "Zm9vYmFy"),
    ];
    for (input, output) in cases {
        assert_eq!(base64_encode(input.as_bytes()), output);
    }
    assert_eq!(base64_encode(&[0xfb, 0xff, 0xbf]), "+/+/");
    let data: Vec<u8> = (0..=255u8).collect();
    let enc = base64_encode(&data);
    assert_eq!(enc.len(), 4 * ((data.len() + 2) / 3));
    assert_eq!(base64_decode(&enc), data);
}

#[test]
fn format_labels_from_paths() {
    assert_eq!(detect_format_label("/tmp/a/photo.jpeg"), "JPEG");
    assert_eq!(detect_format_label("photo.Png"), "PNG");
    assert_eq!(detect_format_label("archive.tar.gz"), "GZ");
    assert_eq!(detect_format_label("noext"), "UNKNOWN");
    assert_eq!(detect_format_label("/home/u/.bashrc"), "UNKNOWN");
    assert_eq!(detect_format_label("/"), "UNKNOWN");
    assert_eq!(detect_format_label("trailing."), "");
}

#[test]
fn output_paths_are_named_after_the_source() {
    assert_eq!(
        output_path_for("/in/photo.png", "/out", &OutputFormat::Webp, "-out"),
        "/out/photo-out.webp"
    );
    assert_eq!(output_path_for("/in/photo.png", "/out/", &OutputFormat::Jpeg, ""), "/out/photo.jpg");
    assert_eq!(output_path_for("/in/a.b.c", "out", &OutputFormat::Tiff, ""), "out/a.b.tiff");
    assert_eq!(output_path_for("/in/.hidden", "/o", &OutputFormat::Png, "_x"), "/o/.hidden_x.png");
    assert_eq!(output_path_for("/", "/o", &OutputFormat::Gif, ""), "/o/image.gif");
}

#[test]
fn every_format_encodes() {
    let img = numbered(5, 4, 200);
    for f in ALL {
        for lossless in [false, true] {
            let out = encode_image(&img, &f, 0, lossless, 2).unwrap();
            assert!(!out.is_empty(), "{:?}", f);
        }
    }
}

#[test]
fn png_encoding_decodes_back() {
    let img = numbered(6, 5, 77);
    let png = png_of(&img);
    let back = load_image("x.png", &png).unwrap();
    assert_eq!((back.width, back.height), (6, 5));
    assert_eq!(back.pixels, img.pixels);
}

#[test]
fn decode_failure_is_reported() {
    let e = load_image("/a/bad.png", b"nonsense").unwrap_err();
    assert!(e.message().starts_with("Failed to decode /a/bad.png: "));
    let e = probe_image("/a/bad.png", b"", 0).unwrap_err();
    assert!(e.message().starts_with("Failed to decode /a/bad.png: "));
}

#[test]
fn exif_orientation_applies_on_load() {
    let mut bytes = jpeg_with_orientation(6);
    bytes.truncate(bytes.len() - 2);
    let img = numbered(4, 2, 255);
    let mut rgb = image::RgbImage::new(4, 2);
    for (x, y, p) in rgb.enumerate_pixels_mut() {
        *p = image::Rgb([at(&img, x, y).r * 60, at(&img, x, y).g * 120, 0]);
    }
    let mut jpeg = Vec::new();
    image::DynamicImage::ImageRgb8(rgb)
        .write_to(&mut Cursor::new(&mut jpeg), image::ImageFormat::Jpeg)
        .unwrap();
    let mut with_exif = bytes;
    with_exif.extend_from_slice(&jpeg[2..]);
    let info = probe_image("turned.jpg", &with_exif, 1).unwrap();
    assert_eq!((info.width, info.height), (2, 4));
    assert_eq!(info.format, "JPG");
    assert_eq!(info.file_name, "turned.jpg");
    assert!(!info.has_alpha);
}

#[test]
fn settings_take_defaults() {
    let options = ConvertOptions {
        format: " JPG".into(),
        quality: 0,
        lossless: true,
        background: None,
        suffix: None,
    };
    let s = resolve_settings(&options).unwrap();
    assert_eq!(s.format, OutputFormat::Jpg);
    assert_eq!(s.background, [255, 255, 255]);
    assert!(!s.lossless);
    assert_eq!(s.suffix, "");
    assert_eq!(s.quality, 0);
    let options = ConvertOptions {
        format: "png".into(),
        quality: 50,
        lossless: true,
        background: Some([1, 2, 3]),
        suffix: Some("-small".into()),
    };
    let s = resolve_settings(&options).unwrap();
    assert!(s.lossless);
    assert_eq!(s.background, [1, 2, 3]);
    assert_eq!(s.suffix, "-small");
    let bad = ConvertOptions { format: "xcf".into(), ..options };
    assert_eq!(
        resolve_settings(&bad).unwrap_err().message(),
        "Unsupported output format: xcf"
    );
}

#[test]
fn rendering_names_and_encodes() {
    let png = png_of(&numbered(8, 3, 10));
    let options = ConvertOptions {
        format: "bmp".into(),
        quality: 90,
        lossless: false,
        background: None,
        suffix: Some("-flat".into()),
    };
    let s = resolve_settings(&options).unwrap();
    let out = render_conversion("/pics/cat.png", "/out", &s, &png, 1).unwrap();
    assert_eq!(out.output_path, "/out/cat-flat.bmp");
    assert_eq!(out.format_label, "BMP");
    assert_eq!((out.width, out.height), (8, 3));
    let decoded = load_image("cat.bmp", &out.encoded).unwrap();
    assert!(decoded.pixels.iter().all(|p| p.a == 255));
    let success = out.into_success("/pics/cat.png".into(), 1234);
    assert_eq!(success.input_bytes, 1234);
    assert_eq!(success.format, "BMP");
    assert!(success.output_bytes > 0);
    let e = render_conversion("/pics/cat.png", "/out", &s, b"garbage", 1).unwrap_err();
    assert!(e.message().starts_with("Failed to decode /pics/cat.png: "));
}

#[test]
fn batch_keeps_order() {
    let ok = |name: &str| -> Result<ConvertSuccess, ConvertError> {
        Ok(ConvertSuccess {
            source_path: name.into(),
            output_path: format!("/o/{name}"),
            input_bytes: 1,
            output_bytes: 2,
            width: 3,
            height: 4,
            format: "PNG".into(),
        })
    };
    let paths: Vec<String> = ["a", "b", "c", "d", "e"].iter().map(|s| s.to_string()).collect();
    let outcomes = vec![ok("a"), Err(err("bad b".into())), ok("c"), Err(err("bad d".into())), ok("e")];
    let r = convert_batch(paths, outcomes);
    let names: Vec<&str> = r.successes.iter().map(|s| s.source_path.as_str()).collect();
    assert_eq!(names, vec!["a", "c", "e"]);
    assert_eq!(r.failures.len(), 2);
    assert_eq!((r.failures[0].source_path.as_str(), r.failures[0].error.as_str()), ("b", "bad b"));
    assert_eq!((r.failures[1].source_path.as_str(), r.failures[1].error.as_str()), ("d", "bad d"));
    let empty = convert_batch(Vec::new(), Vec::new());
    assert!(empty.successes.is_empty() && empty.failures.is_empty());
}

#[test]
fn previews_are_png_data_urls() {
    let small = png_of(&numbered(10, 6, 255));
    let url = preview_data_url("s.png", &small, 480).unwrap();
    let prefix = "data:image/png;base64,";
    assert!(url.starts_with(prefix));
    let png = base64_decode(&url[prefix.len()..]);
    let back = load_image("p.png", &png).unwrap();
    assert_eq!((back.width, back.height), (10, 6));

    let big = png_of(&numbered(200, 100, 255));
    let url = preview_data_url("b.png", &big, 10).unwrap();
    let back = load_image("p.png", &base64_decode(&url[prefix.len()..])).unwrap();
    assert_eq!((back.width, back.height), (64, 32));

    let url = preview_data_url("b.png", &big, 100).unwrap();
    let back = load_image("p.png", &base64_decode(&url[prefix.len()..])).unwrap();
    assert_eq!((back.width, back.height), (100, 50));
    assert!(preview_data_url("b.png", b"", 100).is_err());
}

#[test]
fn base64_of_joined_groups_is_joined() {
    let a = b"abcdef";
    let b = b"xy";
    let joined: Vec<u8> = a.iter().chain(b.iter()).copied().collect();
    assert_eq!(base64_encode(&joined), base64_encode(a) + &base64_encode(b));
    assert_ne!(base64_encode(b"ab"), base64_encode(b"ab\0"));
}

#[test]
fn quality_is_clamped_and_ignored_where_fixed() {
    let img = numbered(9, 7, 180);
    let enc = |f: OutputFormat, q: u8, l: bool| encode_image(&img, &f, q, l, 3).unwrap();
    assert_eq!(enc(OutputFormat::Jpeg, 0, false), enc(OutputFormat::Jpeg, 1, false));
    assert_eq!(enc(OutputFormat::Jpeg, 250, false), enc(OutputFormat::Jpeg, 100, false));
    assert_eq!(enc(OutputFormat::Jpeg, 40, true), enc(OutputFormat::Jpg, 40, false));
    assert_eq!(enc(OutputFormat::Png, 3, false), enc(OutputFormat::Png, 99, true));
    assert_eq!(enc(OutputFormat::Webp, 3, true), enc(OutputFormat::Webp, 99, true));
    assert_eq!(enc(OutputFormat::Webp, 0, false), enc(OutputFormat::Webp, 1, false));
    assert_eq!(enc(OutputFormat::Avif, 20, true), enc(OutputFormat::Avif, 100, false));
    assert_eq!(enc(OutputFormat::Avif, 50, false), enc(OutputFormat::Avif, 50, false));
}

#[test]
fn previews_keep_the_decoded_colour_type() {
    let mut rgb = image::RgbImage::new(120, 30);
    for (x, y, p) in rgb.enumerate_pixels_mut() {
        *p = image::Rgb([x as u8, y as u8, 9]);
    }
    let mut png = Vec::new();
    image::DynamicImage::ImageRgb8(rgb)
        .write_to(&mut Cursor::new(&mut png), image::ImageFormat::Png)
        .unwrap();
    let prefix = "data:image/png;base64,";
    let url = preview_data_url("rgb.png", &png, 0).unwrap();
    assert_eq!(url, preview_data_url("rgb.png", &png, 64).unwrap());
    let shown = image::load_from_memory(&base64_decode(&url[prefix.len()..])).unwrap();
    assert_eq!(shown.color(), image::ColorType::Rgb8);
    assert_eq!((shown.width(), shown.height()), (64, 16));

    let mut gray = image::ImageBuffer::<image::Luma<u16>, Vec<u16>>::new(5, 3);
    for (x, _, p) in gray.enumerate_pixels_mut() {
        *p = image::Luma([x as u16 * 1000]);
    }
    let mut png16 = Vec::new();
    image::DynamicImage::ImageLuma16(gray)
        .write_to(&mut Cursor::new(&mut png16), image::ImageFormat::Png)
        .unwrap();
    let url = preview_data_url("gray.png", &png16, 480).unwrap();
    let shown = image::load_from_memory(&base64_decode(&url[prefix.len()..])).unwrap();
    assert_eq!(shown.color(), image::ColorType::L16);
}

#[test]
fn turned_previews_are_rgba() {
    let mut bytes = jpeg_with_orientation(6);
    bytes.truncate(bytes.len() - 2);
    let mut jpeg = Vec::new();
    image::DynamicImage::ImageRgb8(image::RgbImage::new(8, 4))
        .write_to(&mut Cursor::new(&mut jpeg), image::ImageFormat::Jpeg)
        .unwrap();
    bytes.extend_from_slice(&jpeg[2..]);
    let prefix = "data:image/png;base64,";
    let url = preview_data_url("t.jpg", &bytes, 480).unwrap();
    let shown = image::load_from_memory(&base64_decode(&url[prefix.len()..])).unwrap();
    assert_eq!(shown.color(), image::ColorType::Rgba8);
    assert_eq!((shown.width(), shown.height()), (4, 8));
}

#[test]
fn webp_matches_the_webp_crate_and_reports_errors() {
    let img = numbered(6, 4, 120);
    let raw = img.rgba_bytes();
    let lossless = encode_image(&img, &OutputFormat::Webp, 30, true, 1).unwrap();
    assert_eq!(lossless, webp::Encoder::from_rgba(&raw, 6, 4).encode_lossless().to_vec());
    let lossy = encode_image(&img, &OutputFormat::Webp, 30, false, 1).unwrap();
    assert_eq!(lossy, webp::Encoder::from_rgba(&raw, 6, 4).encode(30.0).to_vec());
    let empty = RgbaImage { width: 0, height: 0, pixels: Vec::new() };
    let e = encode_image(&empty, &OutputFormat::Webp, 90, false, 1).unwrap_err();
    assert!(e.message().starts_with("WebP encode failed: "));
}
