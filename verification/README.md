# zayan_image_magic

A local image converter (PNG, JPEG, WebP, AVIF, GIF, BMP, TIFF) whose core is
verified with Verus.

- `src/` — the verified library.
  - `format.rs`: output formats, their extensions and capabilities, and the
    loose reading of format names.
  - `raster.rs`: the RGBA raster, its byte layouts, and the eight EXIF
    placements (mirrors and quarter turns) with their laws.
  - `alpha.rs`: alpha detection and flattening onto a background.
  - `orientation.rs`: reading the EXIF orientation tag.
  - `codec.rs`: decoding and the encoders of every format, behind small
    trusted wrappers around the `image`, `webp`, `ravif` crates.
  - `paths.rs`: file names, format labels and output paths.
  - `base64.rs`: Base64 encoding for preview data URLs.
  - `convert.rs`: probing, conversion settings, rendering, batch bookkeeping
    and previews.
  - `text.rs`: whitespace trimming and ASCII case mapping.
- `app/` — file access and the serialisable records of the desktop front end.
- `tests/` — tests run against the compiled library.
