use vstd::prelude::*;

use crate::format::{alpha_supported, OutputFormat};
use crate::raster::{Rgba8, RgbaImage};

verus! {

/// Some pixel of `img` is not fully opaque.
pub open spec fn has_translucent_pixel(img: &RgbaImage) -> bool {
    exists|i: int| 0 <= i < img.pixels@.len() && #[trigger] img.pixels@[i].a < 255
}

/// Channel value `c` with opacity `a` laid over background value `bg`:
/// `(c·a + bg·(255 − a)) / 255` rounded to the nearest integer.
pub open spec fn blend_value(c: u8, bg: u8, a: u8) -> int {
    (2 * (c * a + bg * (255 - a)) + 255) / 510
}

/// Pixel `p` laid over the opaque colour `bg` (red, green, blue).
pub open spec fn flatten_pixel(p: Rgba8, bg: Seq<u8>) -> Rgba8 {
    Rgba8 {
        r: blend_value(p.r, bg[0], p.a) as u8,
        g: blend_value(p.g, bg[1], p.a) as u8,
        b: blend_value(p.b, bg[2], p.a) as u8,
        a: 255,
    }
}

/// Whether any pixel of `img` lets the background show through.
pub fn has_meaningful_alpha(img: &RgbaImage) -> (r: bool)
    ensures
        r == has_translucent_pixel(img),
{
    let n = img.pixels.len();
    for i in 0..n
        invariant
            n == img.pixels@.len(),
            forall|j: int| 0 <= j < i ==> #[trigger] img.pixels@[j].a == 255,
    {
        if img.pixels[i].a < 255 {
            return true;
        }
    }
    false
}

/// One channel laid over the background. The exact quotient is never halfway
/// between two integers (255 is odd), so rounding it half up is rounding it
/// to the nearest integer.
pub fn blend_channel(c: u8, bg: u8, a: u8) -> (r: u8)
    ensures
        r as int == blend_value(c, bg, a),
{
    assert(c * a + bg * (255 - a) <= 255 * 255) by (nonlinear_arith)
        requires
            c <= 255,
            bg <= 255,
            a <= 255,
    ;
    assert(0 <= c * a + bg * (255 - a)) by (nonlinear_arith)
        requires
            0 <= c,
            0 <= bg,
            a <= 255,
            0 <= a,
    ;
    let mix: u32 = (c as u32) * (a as u32) + (bg as u32) * (255 - a as u32);
    assert(mix == c * a + bg * (255 - a));
    let v: u32 = (2 * mix + 255) / 510;
    v as u8
}

/// `img` laid over the opaque background colour `bg`; every result pixel is opaque.
pub fn flatten_on_background(img: &RgbaImage, bg: [u8; 3]) -> (r: RgbaImage)
    requires
        img.wf(),
    ensures
        r.wf(),
        r.width == img.width,
        r.height == img.height,
        r.pixels@ == img.pixels@.map_values(|p: Rgba8| flatten_pixel(p, bg@)),
{
    let n = img.pixels.len();
    let mut out: Vec<Rgba8> = Vec::new();
    for i in 0..n
        invariant
            n == img.pixels@.len(),
            out@ == img.pixels@.take(i as int).map_values(|p: Rgba8| flatten_pixel(p, bg@)),
    {
        let p = img.pixels[i];
        let q = Rgba8 {
            r: blend_channel(p.r, bg[0], p.a),
            g: blend_channel(p.g, bg[1], p.a),
            b: blend_channel(p.b, bg[2], p.a),
            a: 255,
        };
        out.push(q);
        assert(out@ =~= img.pixels@.take(i + 1).map_values(|p: Rgba8| flatten_pixel(p, bg@)));
    }
    assert(img.pixels@.take(n as int) =~= img.pixels@);
    RgbaImage { width: img.width, height: img.height, pixels: out }
}

/// A pixel-for-pixel copy of `img`.
pub fn copy_image(img: &RgbaImage) -> (r: RgbaImage)
    requires
        img.wf(),
    ensures
        r.wf(),
        r.width == img.width,
        r.height == img.height,
        r.pixels@ == img.pixels@,
{
    let n = img.pixels.len();
    let mut out: Vec<Rgba8> = Vec::new();
    for i in 0..n
        invariant
            n == img.pixels@.len(),
            out@ == img.pixels@.take(i as int),
    {
        out.push(img.pixels[i]);
        assert(out@ =~= img.pixels@.take(i + 1));
    }
    assert(img.pixels@.take(n as int) =~= img.pixels@);
    RgbaImage { width: img.width, height: img.height, pixels: out }
}

/// The pixels to hand to the encoder of `format`: unchanged where the format
/// keeps alpha, laid over `bg` where it does not.
pub fn prepare_pixels(img: &RgbaImage, format: &OutputFormat, bg: [u8; 3]) -> (r: RgbaImage)
    requires
        img.wf(),
    ensures
        r.wf(),
        r.width == img.width,
        r.height == img.height,
        alpha_supported(*format) ==> r.pixels@ == img.pixels@,
        !alpha_supported(*format) ==> r.pixels@ == img.pixels@.map_values(
            |p: Rgba8| flatten_pixel(p, bg@),
        ),
{
    if format.supports_alpha() {
        copy_image(img)
    } else {
        flatten_on_background(img, bg)
    }
}

/// Laying a pixel over a background gives an opaque pixel; an opaque pixel
/// is left as it is, and a fully transparent one becomes the background.
pub proof fn law_flatten_pixel(p: Rgba8, bg: Seq<u8>)
    requires
        bg.len() == 3,
    ensures
        flatten_pixel(p, bg).a == 255,
        p.a == 255 ==> flatten_pixel(p, bg) == p,
        p.a == 0 ==> flatten_pixel(p, bg) == (Rgba8 { r: bg[0], g: bg[1], b: bg[2], a: 255 }),
{
    if p.a == 255 {
        assert(blend_value(p.r, bg[0], 255) == p.r) by (nonlinear_arith)
            requires
                0 <= p.r <= 255;
        assert(blend_value(p.g, bg[1], 255) == p.g) by (nonlinear_arith)
            requires
                0 <= p.g <= 255;
        assert(blend_value(p.b, bg[2], 255) == p.b) by (nonlinear_arith)
            requires
                0 <= p.b <= 255;
    }
    if p.a == 0 {
        assert(blend_value(p.r, bg[0], 0) == bg[0]) by (nonlinear_arith)
            requires
                0 <= bg[0] <= 255;
        assert(blend_value(p.g, bg[1], 0) == bg[1]) by (nonlinear_arith)
            requires
                0 <= bg[1] <= 255;
        assert(blend_value(p.b, bg[2], 0) == bg[2]) by (nonlinear_arith)
            requires
                0 <= bg[2] <= 255;
    }
}

/// A blended channel is the integer nearest to the exact mix
/// `(c·a + bg·(255 − a)) / 255` (never a tie), and lies between `c` and `bg`.
pub proof fn law_blend_nearest(c: u8, bg: u8, a: u8)
    ensures
        -255 < 2 * (255 * blend_value(c, bg, a) - (c * a + bg * (255 - a))) < 255,
        c <= bg ==> c <= blend_value(c, bg, a) <= bg,
        bg <= c ==> bg <= blend_value(c, bg, a) <= c,
{
    let v: int = c * a + bg * (255 - a);
    let q = blend_value(c, bg, a);
    vstd::arithmetic::div_mod::lemma_fundamental_div_mod(2 * v + 255, 510);
    let r = (2 * v + 255) % 510;
    assert(2 * v + 255 == 510 * q + r);
    assert(0 <= r < 510);
    assert(r != 0);
    if c <= bg {
        assert(255 * c <= v <= 255 * bg) by (nonlinear_arith)
            requires
                v == c * a + bg * (255 - a),
                c <= bg,
                0 <= a <= 255,
        ;
    }
    if bg <= c {
        assert(255 * bg <= v <= 255 * c) by (nonlinear_arith)
            requires
                v == c * a + bg * (255 - a),
                bg <= c,
                0 <= a <= 255,
        ;
    }
}

/// An image laid over a background has no translucent pixel, and an image
/// without translucent pixels is unchanged by it.
pub proof fn law_flatten_image(img: &RgbaImage, flat: &RgbaImage, bg: Seq<u8>)
    requires
        bg.len() == 3,
        flat.pixels@ == img.pixels@.map_values(|p: Rgba8| flatten_pixel(p, bg)),
    ensures
        !has_translucent_pixel(flat),
        !has_translucent_pixel(img) ==> flat.pixels@ == img.pixels@,
{
    assert forall|i: int| 0 <= i < flat.pixels@.len() implies #[trigger] flat.pixels@[i].a == 255 by {
        law_flatten_pixel(img.pixels@[i], bg);
    }
    if !has_translucent_pixel(img) {
        assert forall|i: int| 0 <= i < flat.pixels@.len() implies #[trigger] flat.pixels@[i]
            == img.pixels@[i] by {
            assert(!(img.pixels@[i].a < 255));
            law_flatten_pixel(img.pixels@[i], bg);
        }
        assert(flat.pixels@ =~= img.pixels@);
    }
}

} // verus!
