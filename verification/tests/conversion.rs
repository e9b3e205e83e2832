use std::io::Cursor;

use zayan_image_magic::{
    convert_batch, probe_image, render_conversion, resolve_settings, ConvertError,
    ConvertOptions, ConvertSuccess,
};

fn sample_png() -> Vec<u8> {
    let mut img = image::RgbaImage::new(32, 24);
    for (x, y, pixel) in img.enumerate_pixels_mut() {
        *pixel = image::Rgba([
            (x * 8) as u8,
            (y * 10) as u8,
            180,
            if x < 8 { 128 } else { 255 },
        ]);
    }
    let mut buf = Vec::new();
    image::DynamicImage::ImageRgba8(img)
        .write_to(&mut Cursor::new(&mut buf), image::ImageFormat::Png)
        .unwrap();
    buf
}

fn convert(
    source: &str,
    out_dir: &str,
    contents: &[u8],
    options: &ConvertOptions,
) -> Result<ConvertSuccess, ConvertError> {
    let settings = resolve_settings(options)?;
    let rendered = render_conversion(source, out_dir, &settings, contents, 4)?;
    Ok(rendered.into_success(source.to_string(), contents.len() as u64))
}

#[test]
fn converts_png_to_webp_jpeg_avif() {
    let dir = "/work/zayan-image-magic";
    let src = format!("{dir}/sample.png");
    let bytes = sample_png();

    let info = probe_image(&src, &bytes, bytes.len() as u64).unwrap();
    assert_eq!(info.width, 32);
    assert_eq!(info.height, 24);
    assert!(info.has_alpha);

    for (format, lossless) in [("webp", false), ("jpeg", false), ("avif", false), ("png", true)] {
        let out = format!("{dir}/{format}");
        let result = convert(
            &src,
            &out,
            &bytes,
            &ConvertOptions {
                format: format.into(),
                quality: 90,
                lossless,
                background: Some([255, 255, 255]),
                suffix: Some("-out".into()),
            },
        )
        .unwrap_or_else(|e| panic!("{format} convert failed: {}", e.message()));
        let ext = if format == "jpeg" { "jpg" } else { format };
        assert_eq!(result.output_path, format!("{out}/sample-out.{ext}"));
        assert!(result.output_bytes > 0);
    }
}

#[test]
fn batch_continues_after_failure() {
    let dir = "/work/zayan-image-magic";
    let src = format!("{dir}/ok.png");
    let missing = format!("{dir}/missing.png");
    let out = format!("{dir}/batch-out");
    let options = ConvertOptions {
        format: "webp".into(),
        quality: 85,
        lossless: false,
        background: None,
        suffix: None,
    };
    let bytes = sample_png();
    let outcomes = vec![
        convert(&src, &out, &bytes, &options),
        Err(zayan_image_magic::err(format!("File not found: {missing}"))),
    ];
    let result = convert_batch(vec![src.clone(), missing.clone()], outcomes);
    assert_eq!(result.successes.len(), 1);
    assert_eq!(result.failures.len(), 1);
}
