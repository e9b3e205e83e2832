use vstd::arithmetic::div_mod::{
    lemma_fundamental_div_mod, lemma_div_pos_is_pos, lemma_multiply_divide_lt,
};
use vstd::prelude::*;

verus! {

/// One pixel: red, green, blue and alpha, 8 bits each.
#[derive(Clone, Copy, Debug, PartialEq, Eq, Structural)]
pub struct Rgba8 {
    pub r: u8,
    pub g: u8,
    pub b: u8,
    pub a: u8,
}

/// An 8-bit RGBA raster: `pixels` holds the rows from top to bottom, each row
/// from left to right.
#[derive(Debug)]
pub struct RgbaImage {
    pub width: u32,
    pub height: u32,
    pub pixels: Vec<Rgba8>,
}

/// The pixel at column `x` and row `y` of a row-major raster `width` pixels wide.
pub open spec fn pixel_at(pixels: Seq<Rgba8>, width: int, x: int, y: int) -> Rgba8 {
    pixels[y * width + x]
}

impl RgbaImage {
    /// The raster holds exactly `width * height` pixels.
    pub open spec fn wf(&self) -> bool {
        self.pixels@.len() == self.width * self.height
    }

    /// The pixel at column `x` and row `y`.
    pub open spec fn at(&self, x: int, y: int) -> Rgba8 {
        pixel_at(self.pixels@, self.width as int, x, y)
    }

    /// `(x, y)` lies inside the raster.
    pub open spec fn contains(&self, x: int, y: int) -> bool {
        0 <= x < self.width && 0 <= y < self.height
    }
}

/// Row-major position of `(x, y)` lies inside a `w` by `h` raster.
pub proof fn lemma_index_bounds(x: int, y: int, w: int, h: int)
    requires
        0 <= x < w,
        0 <= y < h,
    ensures
        0 <= y * w + x < w * h,
        y * w + x < (y + 1) * w,
        (y + 1) * w <= w * h,
{
    assert(0 <= y * w) by (nonlinear_arith)
        requires
            0 <= y,
            0 <= w,
    ;
    assert((y + 1) * w == y * w + w) by (nonlinear_arith);
    assert((y + 1) * w <= h * w) by (nonlinear_arith)
        requires
            y + 1 <= h,
            0 <= w,
    ;
    assert(h * w == w * h) by (nonlinear_arith);
}

/// Rows before row `y` end before row `y` starts.
proof fn lemma_earlier_row(xx: int, yy: int, y: int, w: int)
    requires
        0 <= xx < w,
        0 <= yy < y,
    ensures
        yy * w + xx < y * w,
{
    assert((yy + 1) * w <= y * w) by (nonlinear_arith)
        requires
            yy + 1 <= y,
            0 <= w,
    ;
    assert((yy + 1) * w == yy * w + w) by (nonlinear_arith);
}

/// Two rasters with the same size that agree at every position are equal.
pub proof fn lemma_same_pixels(a: &RgbaImage, b: &RgbaImage)
    requires
        a.wf(),
        b.wf(),
        a.width == b.width,
        a.height == b.height,
        forall|x: int, y: int| a.contains(x, y) ==> #[trigger] a.at(x, y) == b.at(x, y),
    ensures
        a.pixels@ == b.pixels@,
{
    let w = a.width as int;
    let h = a.height as int;
    assert forall|i: int| 0 <= i < a.pixels@.len() implies a.pixels@[i] == b.pixels@[i] by {
        assert(w > 0) by (nonlinear_arith)
            requires
                0 <= i < w * h,
                0 <= h,
                0 <= w,
        ;
        lemma_fundamental_div_mod(i, w);
        lemma_div_pos_is_pos(i, w);
        lemma_multiply_divide_lt(i, w, h);
        let x = i % w;
        let y = i / w;
        assert(y * w == w * y) by (nonlinear_arith);
        assert(a.contains(x, y));
        assert(a.at(x, y) == b.at(x, y));
    }
    assert(a.pixels@ =~= b.pixels@);
}

/// A rearrangement of the pixels of a raster: the eight ways the four corners
/// of an image can be placed, as named by the EXIF orientation tag.
#[derive(Clone, Copy, Debug, PartialEq, Eq, Structural)]
pub enum Placement {
    Keep,
    FlipHorizontal,
    Rotate180,
    FlipVertical,
    Transpose,
    Rotate90,
    Transverse,
    Rotate270,
}

/// The placement exchanges rows and columns.
pub open spec fn swaps_axes(t: Placement) -> bool {
    t is Transpose || t is Rotate90 || t is Transverse || t is Rotate270
}

/// Column of the source pixel shown at `(x, y)` of the result, for a
/// source `w` wide and `h` high.
pub open spec fn source_x(t: Placement, w: int, h: int, x: int, y: int) -> int {
    match t {
        Placement::Keep => x,
        Placement::FlipHorizontal => w - 1 - x,
        Placement::Rotate180 => w - 1 - x,
        Placement::FlipVertical => x,
        Placement::Transpose => y,
        Placement::Rotate90 => y,
        Placement::Transverse => w - 1 - y,
        Placement::Rotate270 => w - 1 - y,
    }
}

/// Row of the source pixel shown at `(x, y)` of the result, for a
/// source `w` wide and `h` high.
pub open spec fn source_y(t: Placement, w: int, h: int, x: int, y: int) -> int {
    match t {
        Placement::Keep => y,
        Placement::FlipHorizontal => y,
        Placement::Rotate180 => h - 1 - y,
        Placement::FlipVertical => h - 1 - y,
        Placement::Transpose => x,
        Placement::Rotate90 => h - 1 - x,
        Placement::Transverse => h - 1 - x,
        Placement::Rotate270 => x,
    }
}

/// `dst` is `src` rearranged by `t`.
pub open spec fn is_placed(src: &RgbaImage, dst: &RgbaImage, t: Placement) -> bool {
    &&& dst.wf()
    &&& if swaps_axes(t) {
        dst.width == src.height && dst.height == src.width
    } else {
        dst.width == src.width && dst.height == src.height
    }
    &&& forall|x: int, y: int|
        dst.contains(x, y) ==> #[trigger] dst.at(x, y) == src.at(
            source_x(t, src.width as int, src.height as int, x, y),
            source_y(t, src.width as int, src.height as int, x, y),
        )
}

/// Width of the result of placing a `w` by `h` raster by `t`.
pub open spec fn placed_width(t: Placement, w: int, h: int) -> int {
    if swaps_axes(t) {
        h
    } else {
        w
    }
}

/// Height of the result of placing a `w` by `h` raster by `t`.
pub open spec fn placed_height(t: Placement, w: int, h: int) -> int {
    if swaps_axes(t) {
        w
    } else {
        h
    }
}

/// The pixels, row by row, of the `w` by `h` raster `p` placed by `t`.
pub open spec fn placed_pixels(t: Placement, w: int, h: int, p: Seq<Rgba8>) -> Seq<Rgba8> {
    let dw = placed_width(t, w, h);
    Seq::new(
        (dw * placed_height(t, w, h)) as nat,
        |i: int| pixel_at(p, w, source_x(t, w, h, i % dw, i / dw), source_y(t, w, h, i % dw, i / dw)),
    )
}

/// A placed raster is described in closed form by `placed_pixels`.
pub proof fn lemma_placed_closed_form(src: &RgbaImage, dst: &RgbaImage, t: Placement)
    requires
        is_placed(src, dst, t),
    ensures
        dst.width == placed_width(t, src.width as int, src.height as int),
        dst.height == placed_height(t, src.width as int, src.height as int),
        dst.pixels@ == placed_pixels(t, src.width as int, src.height as int, src.pixels@),
{
    let w = dst.width as int;
    let h = dst.height as int;
    let q = placed_pixels(t, src.width as int, src.height as int, src.pixels@);
    assert forall|i: int| 0 <= i < dst.pixels@.len() implies dst.pixels@[i] == q[i] by {
        assert(w > 0) by (nonlinear_arith)
            requires
                0 <= i < w * h,
                0 <= h,
                0 <= w,
        ;
        lemma_fundamental_div_mod(i, w);
        lemma_div_pos_is_pos(i, w);
        lemma_multiply_divide_lt(i, w, h);
        let x = i % w;
        let y = i / w;
        assert(y * w == w * y) by (nonlinear_arith);
        assert(dst.contains(x, y));
        assert(dst.at(x, y) == dst.pixels@[i]);
    }
    assert(dst.pixels@ =~= q);
}

fn source_coords(t: Placement, w: usize, h: usize, x: usize, y: usize) -> (r: (usize, usize))
    requires
        if swaps_axes(t) {
            x < h && y < w
        } else {
            x < w && y < h
        },
    ensures
        r.0 == source_x(t, w as int, h as int, x as int, y as int),
        r.1 == source_y(t, w as int, h as int, x as int, y as int),
        r.0 < w,
        r.1 < h,
{
    match t {
        Placement::Keep => (x, y),
        Placement::FlipHorizontal => (w - 1 - x, y),
        Placement::Rotate180 => (w - 1 - x, h - 1 - y),
        Placement::FlipVertical => (x, h - 1 - y),
        Placement::Transpose => (y, x),
        Placement::Rotate90 => (y, h - 1 - x),
        Placement::Transverse => (w - 1 - y, h - 1 - x),
        Placement::Rotate270 => (w - 1 - y, x),
    }
}

/// `src` rearranged by `t`.
pub fn place(src: &RgbaImage, t: Placement) -> (r: RgbaImage)
    requires
        src.wf(),
    ensures
        is_placed(src, &r, t),
{
    let w = src.width as usize;
    let h = src.height as usize;
    let swap = match t {
        Placement::Transpose | Placement::Rotate90 | Placement::Transverse
        | Placement::Rotate270 => true,
        _ => false,
    };
    let (dw, dh) = if swap {
        (h, w)
    } else {
        (w, h)
    };
    let mut out: Vec<Rgba8> = Vec::new();
    let mut y: usize = 0;
    assert(src.pixels@.len() == w * h);
    while y < dh
        invariant
            src.wf(),
            w == src.width,
            h == src.height,
            swap == swaps_axes(t),
            dw == (if swap { h } else { w }),
            dh == (if swap { w } else { h }),
            y <= dh,
            src.pixels@.len() == w * h,
            out@.len() == y * dw,
            forall|xx: int, yy: int|
                0 <= xx < dw && 0 <= yy < y ==> #[trigger] pixel_at(out@, dw as int, xx, yy)
                    == src.at(source_x(t, w as int, h as int, xx, yy), source_y(t, w as int, h as int, xx, yy)),
        decreases dh - y,
    {
        let mut x: usize = 0;
        while x < dw
            invariant
                src.wf(),
                w == src.width,
                h == src.height,
                swap == swaps_axes(t),
                dw == (if swap { h } else { w }),
                dh == (if swap { w } else { h }),
                y < dh,
                x <= dw,
                src.pixels@.len() == w * h,
                out@.len() == y * dw + x,
                forall|xx: int, yy: int|
                    ((0 <= xx < dw && 0 <= yy < y) || (0 <= xx < x && yy == y))
                        ==> #[trigger] pixel_at(out@, dw as int, xx, yy) == src.at(
                        source_x(t, w as int, h as int, xx, yy),
                        source_y(t, w as int, h as int, xx, yy),
                    ),
            decreases dw - x,
        {
            let (sx, sy) = source_coords(t, w, h, x, y);
            proof {
                lemma_index_bounds(sx as int, sy as int, w as int, h as int);
            }
            let n = src.pixels.len();
            assert(sy * w + sx < n);
            assert(0 <= sy * w) by (nonlinear_arith)
                requires
                    0 <= sy,
                    0 <= w,
            ;
            let p = src.pixels[sy * w + sx];
            let ghost prev = out@;
            out.push(p);
            proof {
                assert forall|xx: int, yy: int|
                    ((0 <= xx < dw && 0 <= yy < y) || (0 <= xx < x + 1 && yy == y)) implies
                    #[trigger] pixel_at(out@, dw as int, xx, yy) == src.at(
                        source_x(t, w as int, h as int, xx, yy),
                        source_y(t, w as int, h as int, xx, yy),
                    ) by {
                    if yy < y {
                        lemma_earlier_row(xx, yy, y as int, dw as int);
                        assert(0 <= yy * dw) by (nonlinear_arith)
                            requires
                                0 <= yy,
                                0 <= dw,
                        ;
                        assert(pixel_at(prev, dw as int, xx, yy) == pixel_at(out@, dw as int, xx, yy));
                    } else if xx < x {
                        assert(0 <= yy * dw) by (nonlinear_arith)
                            requires
                                0 <= yy,
                                0 <= dw,
                        ;
                        assert(pixel_at(prev, dw as int, xx, yy) == pixel_at(out@, dw as int, xx, yy));
                    } else {
                        assert(out@[y * dw + x] == p);
                    }
                }
            }
            x = x + 1;
        }
        proof {
            assert((y + 1) * dw == y * dw + dw) by (nonlinear_arith);
        }
        y = y + 1;
    }
    proof {
        assert(dh * dw == w * h) by (nonlinear_arith)
            requires
                (dw == h && dh == w) || (dw == w && dh == h),
        ;
        assert(out@.len() == dh * dw);
        assert(h * w == w * h) by (nonlinear_arith);
    }
    let r = if swap {
        RgbaImage { width: src.height, height: src.width, pixels: out }
    } else {
        RgbaImage { width: src.width, height: src.height, pixels: out }
    };
    assert(r.wf());
    assert(if swaps_axes(t) {
        r.width == src.height && r.height == src.width
    } else {
        r.width == src.width && r.height == src.height
    });
    proof {
        assert forall|xx: int, yy: int| r.contains(xx, yy) implies #[trigger] r.at(xx, yy)
            == src.at(
            source_x(t, src.width as int, src.height as int, xx, yy),
            source_y(t, src.width as int, src.height as int, xx, yy),
        ) by {
            assert(pixel_at(out@, dw as int, xx, yy) == r.at(xx, yy));
        }
    }
    r
}


/// The placement that undoes the EXIF orientation `orientation`; values other
/// than 2 to 8 (1 is the upright image) leave the image as it is.
pub open spec fn orientation_placement(orientation: u32) -> Placement {
    if orientation == 2 {
        Placement::FlipHorizontal
    } else if orientation == 3 {
        Placement::Rotate180
    } else if orientation == 4 {
        Placement::FlipVertical
    } else if orientation == 5 {
        Placement::Transpose
    } else if orientation == 6 {
        Placement::Rotate90
    } else if orientation == 7 {
        Placement::Transverse
    } else if orientation == 8 {
        Placement::Rotate270
    } else {
        Placement::Keep
    }
}

/// Turns `img` upright according to its EXIF orientation: 2 mirrors it, 3
/// turns it half a turn, 4 flips it upside down, 5 mirrors along the main
/// diagonal, 6 turns it a quarter clockwise, 7 mirrors along the other
/// diagonal, 8 turns it a quarter anticlockwise; any other value returns it
/// unchanged.
pub fn apply_orientation(img: RgbaImage, orientation: u32) -> (r: RgbaImage)
    requires
        img.wf(),
    ensures
        orientation_placement(orientation) is Keep ==> r == img,
        is_placed(&img, &r, orientation_placement(orientation)),
{
    let t = match orientation {
        2 => Placement::FlipHorizontal,
        3 => Placement::Rotate180,
        4 => Placement::FlipVertical,
        5 => Placement::Transpose,
        6 => Placement::Rotate90,
        7 => Placement::Transverse,
        8 => Placement::Rotate270,
        _ => {
            return img;
        },
    };
    place(&img, t)
}

/// Mirroring twice, or turning half a turn twice, gives back the starting
/// image; a quarter turn one way followed by a quarter turn the other way
/// does too.
pub proof fn law_placement_undone(
    a: &RgbaImage,
    b: &RgbaImage,
    c: &RgbaImage,
    t: Placement,
    u: Placement,
)
    requires
        a.wf(),
        is_placed(a, b, t),
        is_placed(b, c, u),
        (t is FlipHorizontal && u is FlipHorizontal) || (t is FlipVertical && u is FlipVertical)
            || (t is Rotate180 && u is Rotate180) || (t is Transpose && u is Transpose) || (
        t is Transverse && u is Transverse) || (t is Rotate90 && u is Rotate270) || (
        t is Rotate270 && u is Rotate90),
    ensures
        c.width == a.width,
        c.height == a.height,
        c.pixels@ == a.pixels@,
{
    assert forall|x: int, y: int| c.contains(x, y) implies #[trigger] c.at(x, y) == a.at(x, y) by {
        let bx = source_x(u, b.width as int, b.height as int, x, y);
        let by = source_y(u, b.width as int, b.height as int, x, y);
        assert(b.contains(bx, by));
        assert(c.at(x, y) == b.at(bx, by));
    }
    lemma_same_pixels(c, a);
}

/// Two quarter turns clockwise make a half turn.
pub proof fn law_two_quarter_turns(a: &RgbaImage, b: &RgbaImage, c: &RgbaImage)
    requires
        a.wf(),
        is_placed(a, b, Placement::Rotate90),
        is_placed(b, c, Placement::Rotate90),
    ensures
        is_placed(a, c, Placement::Rotate180),
{
    assert forall|x: int, y: int| c.contains(x, y) implies #[trigger] c.at(x, y) == a.at(
        source_x(Placement::Rotate180, a.width as int, a.height as int, x, y),
        source_y(Placement::Rotate180, a.width as int, a.height as int, x, y),
    ) by {
        let bx = source_x(Placement::Rotate90, b.width as int, b.height as int, x, y);
        let by = source_y(Placement::Rotate90, b.width as int, b.height as int, x, y);
        assert(b.contains(bx, by));
        assert(c.at(x, y) == b.at(bx, by));
    }
}

/// Orientation 5 is a quarter turn clockwise followed by a horizontal mirror,
/// and orientation 7 a quarter turn anticlockwise followed by a horizontal mirror.
pub proof fn law_diagonal_mirrors(a: &RgbaImage, b: &RgbaImage, c: &RgbaImage, t: Placement)
    requires
        a.wf(),
        t is Rotate90 || t is Rotate270,
        is_placed(a, b, t),
        is_placed(b, c, Placement::FlipHorizontal),
    ensures
        t is Rotate90 ==> is_placed(a, c, orientation_placement(5)),
        t is Rotate270 ==> is_placed(a, c, orientation_placement(7)),
{
    let d = if t is Rotate90 {
        Placement::Transpose
    } else {
        Placement::Transverse
    };
    assert forall|x: int, y: int| c.contains(x, y) implies #[trigger] c.at(x, y) == a.at(
        source_x(d, a.width as int, a.height as int, x, y),
        source_y(d, a.width as int, a.height as int, x, y),
    ) by {
        let bx = source_x(Placement::FlipHorizontal, b.width as int, b.height as int, x, y);
        let by = source_y(Placement::FlipHorizontal, b.width as int, b.height as int, x, y);
        assert(b.contains(bx, by));
        assert(c.at(x, y) == b.at(bx, by));
    }
}


/// Channel `c` (0 red, 1 green, 2 blue, 3 alpha) of a pixel.
pub open spec fn channel(p: Rgba8, c: int) -> u8 {
    if c == 0 {
        p.r
    } else if c == 1 {
        p.g
    } else if c == 2 {
        p.b
    } else {
        p.a
    }
}

/// Pixels laid out as bytes, four per pixel in the order red, green, blue, alpha.
pub open spec fn rgba_layout(p: Seq<Rgba8>) -> Seq<u8> {
    Seq::new(4 * p.len(), |j: int| channel(p[j / 4], j % 4))
}

/// Pixels laid out as bytes, three per pixel in the order red, green, blue; alpha is dropped.
pub open spec fn rgb_layout(p: Seq<Rgba8>) -> Seq<u8> {
    Seq::new(3 * p.len(), |j: int| channel(p[j / 3], j % 3))
}

/// Pixels read from bytes laid out four per pixel (red, green, blue, alpha).
pub open spec fn pixels_from_rgba(b: Seq<u8>) -> Seq<Rgba8> {
    Seq::new(b.len() / 4, |i: int| Rgba8 { r: b[4 * i], g: b[4 * i + 1], b: b[4 * i + 2], a: b[4 * i + 3] })
}

pub(crate) proof fn lemma_div_mod_small(k: int, c: int, d: int)
    requires
        0 <= c < d,
        0 <= k,
    ensures
        (d * k + c) / d == k,
        (d * k + c) % d == c,
{
    assert(d * k == k * d) by (nonlinear_arith);
    vstd::arithmetic::div_mod::lemma_fundamental_div_mod_converse(d * k + c, d, k, c);
}

impl RgbaImage {
    /// The raster's bytes, four per pixel (red, green, blue, alpha), row by row.
    pub fn rgba_bytes(&self) -> (r: Vec<u8>)
        requires
            self.wf(),
        ensures
            r@ == rgba_layout(self.pixels@),
    {
        let n = self.pixels.len();
        let mut out: Vec<u8> = Vec::new();
        for i in 0..n
            invariant
                n == self.pixels@.len(),
                out@.len() == 4 * i,
                forall|j: int| 0 <= j < 4 * i ==> #[trigger] out@[j] == channel(self.pixels@[j / 4], j % 4),
        {
            let p = self.pixels[i];
            out.push(p.r);
            out.push(p.g);
            out.push(p.b);
            out.push(p.a);
            proof {
                assert forall|j: int| 0 <= j < 4 * (i + 1) implies #[trigger] out@[j] == channel(
                    self.pixels@[j / 4],
                    j % 4,
                ) by {
                    if j >= 4 * i {
                        lemma_div_mod_small(i as int, j - 4 * i, 4);
                    }
                }
            }
        }
        assert(out@ =~= rgba_layout(self.pixels@));
        out
    }

    /// The raster's bytes, three per pixel (red, green, blue), row by row; alpha is dropped.
    pub fn rgb_bytes(&self) -> (r: Vec<u8>)
        requires
            self.wf(),
        ensures
            r@ == rgb_layout(self.pixels@),
    {
        let n = self.pixels.len();
        let mut out: Vec<u8> = Vec::new();
        for i in 0..n
            invariant
                n == self.pixels@.len(),
                out@.len() == 3 * i,
                forall|j: int| 0 <= j < 3 * i ==> #[trigger] out@[j] == channel(self.pixels@[j / 3], j % 3),
        {
            let p = self.pixels[i];
            out.push(p.r);
            out.push(p.g);
            out.push(p.b);
            proof {
                assert forall|j: int| 0 <= j < 3 * (i + 1) implies #[trigger] out@[j] == channel(
                    self.pixels@[j / 3],
                    j % 3,
                ) by {
                    if j >= 3 * i {
                        lemma_div_mod_small(i as int, j - 3 * i, 3);
                    }
                }
            }
        }
        assert(out@ =~= rgb_layout(self.pixels@));
        out
    }

    /// A raster `width` by `height` read from bytes laid out four per pixel;
    /// `None` when there are not exactly `4 * width * height` bytes.
    pub fn from_rgba_bytes(width: u32, height: u32, bytes: &[u8]) -> (r: Option<RgbaImage>)
        ensures
            bytes@.len() == 4 * width * height <==> r is Some,
            r matches Some(img) ==> img.wf() && img.width == width && img.height == height
                && img.pixels@ == pixels_from_rgba(bytes@),
    {
        assert((width as int) * (height as int) <= 0xffff_ffffint * 0xffff_ffffint) by (nonlinear_arith)
            requires
                0 <= width <= 0xffff_ffffint,
                0 <= height <= 0xffff_ffffint,
        ;
        assert(0 <= (width as int) * (height as int)) by (nonlinear_arith)
            requires
                0 <= width,
                0 <= height,
        ;
        let area = (width as u64) * (height as u64);
        let n = bytes.len();
        proof {
            vstd::arithmetic::div_mod::lemma_fundamental_div_mod(n as int, 4);
            assert(4 * width * height == 4 * ((width as int) * (height as int))) by (nonlinear_arith);
        }
        if (n as u64) % 4 != 0 || (n as u64) / 4 != area {
            return None;
        }
        let count = n / 4;
        let mut pixels: Vec<Rgba8> = Vec::new();
        for i in 0..count
            invariant
                count == n / 4,
                n == bytes@.len(),
                pixels@ == pixels_from_rgba(bytes@).take(i as int),
        {
            let p = Rgba8 {
                r: bytes[4 * i],
                g: bytes[4 * i + 1],
                b: bytes[4 * i + 2],
                a: bytes[4 * i + 3],
            };
            pixels.push(p);
            assert(pixels@ =~= pixels_from_rgba(bytes@).take(i + 1));
        }
        assert(pixels@ =~= pixels_from_rgba(bytes@));
        Some(RgbaImage { width, height, pixels })
    }
}


/// What each EXIF orientation does to the pixels of a `w` by `h` image `a`:
/// 2 mirrors left to right, 3 turns half a turn, 4 mirrors top to bottom,
/// 5 mirrors along the main diagonal, 6 turns a quarter clockwise, 7 mirrors
/// along the other diagonal, 8 turns a quarter anticlockwise; any other
/// value keeps the image.
pub proof fn law_orientation_pixels(a: &RgbaImage, b: &RgbaImage, o: u32)
    requires
        a.wf(),
        is_placed(a, b, orientation_placement(o)),
    ensures
        b.wf(),
        (5 <= o <= 8) ==> b.width == a.height && b.height == a.width,
        !(5 <= o <= 8) ==> b.width == a.width && b.height == a.height,
        forall|x: int, y: int|
            0 <= x < b.width && 0 <= y < b.height ==> {
                let w = a.width as int;
                let h = a.height as int;
                #[trigger] b.at(x, y) == if o == 2 {
                    a.at(w - 1 - x, y)
                } else if o == 3 {
                    a.at(w - 1 - x, h - 1 - y)
                } else if o == 4 {
                    a.at(x, h - 1 - y)
                } else if o == 5 {
                    a.at(y, x)
                } else if o == 6 {
                    a.at(y, h - 1 - x)
                } else if o == 7 {
                    a.at(w - 1 - y, h - 1 - x)
                } else if o == 8 {
                    a.at(w - 1 - y, x)
                } else {
                    a.at(x, y)
                }
            },
{
    assert forall|x: int, y: int| 0 <= x < b.width && 0 <= y < b.height implies b.contains(x, y) by {}
}

/// Laying pixels out as bytes: four per pixel (red, green, blue, alpha), or
/// three per pixel (red, green, blue), in pixel order.
pub proof fn law_byte_layouts(p: Seq<Rgba8>)
    ensures
        rgba_layout(p).len() == 4 * p.len(),
        rgb_layout(p).len() == 3 * p.len(),
        forall|i: int|
            0 <= i < p.len() ==> {
                &&& rgba_layout(p)[4 * i] == (#[trigger] p[i]).r
                &&& rgba_layout(p)[4 * i + 1] == p[i].g
                &&& rgba_layout(p)[4 * i + 2] == p[i].b
                &&& rgba_layout(p)[4 * i + 3] == p[i].a
                &&& rgb_layout(p)[3 * i] == p[i].r
                &&& rgb_layout(p)[3 * i + 1] == p[i].g
                &&& rgb_layout(p)[3 * i + 2] == p[i].b
            },
{
    assert forall|i: int| 0 <= i < p.len() implies {
        &&& rgba_layout(p)[4 * i] == (#[trigger] p[i]).r
        &&& rgba_layout(p)[4 * i + 1] == p[i].g
        &&& rgba_layout(p)[4 * i + 2] == p[i].b
        &&& rgba_layout(p)[4 * i + 3] == p[i].a
        &&& rgb_layout(p)[3 * i] == p[i].r
        &&& rgb_layout(p)[3 * i + 1] == p[i].g
        &&& rgb_layout(p)[3 * i + 2] == p[i].b
    } by {
        lemma_div_mod_small(i, 0, 4);
        lemma_div_mod_small(i, 1, 4);
        lemma_div_mod_small(i, 2, 4);
        lemma_div_mod_small(i, 3, 4);
        lemma_div_mod_small(i, 0, 3);
        lemma_div_mod_small(i, 1, 3);
        lemma_div_mod_small(i, 2, 3);
    }
}

} // verus!
