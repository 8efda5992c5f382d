//! Geometry tessellation: turns metric state, panel rectangles, cursor
//! and elapsed fraction into flat, renderer-ready vertex streams and
//! text-draw requests.
//!
//! Positions are quantized to a 16-bit normalized coordinate space per
//! axis (`coordinate * MAX_QUANT / axis_extent`), texture coordinates the
//! same way into `[0, MAX_QUANT]`. Everything is a pure function of its
//! inputs: tessellating twice with identical inputs gives bit-identical
//! output.

use vstd::prelude::*;

verus! {

use crate::fixed::{div_i128, div_trunc, lemma_div_trunc_bound, mul_i128};

/// The largest quantized coordinate: `u16::MAX`.
pub const MAX_QUANT: u16 = 65535;

/// Fill color of the inner plot area.
pub const GREEN: [u8; 4] = [224, 249, 225, 255];

/// Fill color of panel backgrounds and cover strips.
pub const WHITE: [u8; 4] = [255, 255, 255, 255];

/// A solid-colored vertex: quantized position and RGBA color.
#[derive(Clone, Copy, Debug, PartialEq, Eq)]
pub struct Vertex {
    /// Position, quantized per axis to `[0, MAX_QUANT]`.
    pub position: [u16; 2],
    /// RGBA color.
    pub color: [u8; 4],
}

/// A textured vertex: quantized position and atlas coordinates.
#[derive(Clone, Copy, Debug, PartialEq, Eq)]
pub struct TextureVertex {
    /// Position, quantized per axis to `[0, MAX_QUANT]`.
    pub position: [u16; 2],
    /// Texture coordinates, quantized to `[0, MAX_QUANT]`.
    pub tex_coords: [u16; 2],
}

/// A point in milli-pixel viewport coordinates.
#[derive(Clone, Copy, Debug, PartialEq, Eq, Structural)]
pub struct Pt {
    /// Horizontal coordinate.
    pub x: i64,
    /// Vertical coordinate.
    pub y: i64,
}

impl Pt {
    /// The point moved by `(dx, dy)`.
    pub fn shift(self, dx: i64, dy: i64) -> (r: Pt)
        requires
            i64::MIN <= self.x + dx <= i64::MAX,
            i64::MIN <= self.y + dy <= i64::MAX,
        ensures
            r.x == self.x + dx,
            r.y == self.y + dy,
    {
        Pt { x: self.x + dx, y: self.y + dy }
    }

    /// The point moved by `d` on both axes.
    pub fn shift_both(self, d: i64) -> (r: Pt)
        requires
            i64::MIN <= self.x + d <= i64::MAX,
            i64::MIN <= self.y + d <= i64::MAX,
        ensures
            r.x == self.x + d,
            r.y == self.y + d,
    {
        Pt { x: self.x + d, y: self.y + d }
    }
}

/// One text-draw request for the external text-shaping collaborator:
/// screen position and bounding box in milli-pixels, the string, the
/// font scale in milli-points, and the horizontal alignment.
#[derive(Clone, Debug, PartialEq, Eq)]
pub struct TextRequest {
    /// Screen x of the section, milli-pixels.
    pub x: i64,
    /// Screen y of the section, milli-pixels, measured from the top.
    pub y: i64,
    /// Bounding-box width, milli-pixels.
    pub w: i64,
    /// Bounding-box height, milli-pixels.
    pub h: i64,
    /// The text to draw.
    pub text: String,
    /// Font scale, milli-points.
    pub scale: i64,
    /// Whether the text is centered horizontally (left-aligned when
    /// false).
    pub centered: bool,
}

/// The sixteen named regions of the decoration texture atlas: a 4x4 grid
/// of quarter tiles, each a corner or edge piece in one orientation.
/// `TxN` is tile `N` counting down the columns, as the renderer's atlas
/// lays them out; the UV pair already encodes the tile's flip.
#[derive(Clone, Copy, Debug, PartialEq, Eq, Structural)]
pub enum AtlasRegion {
    /// Column 0, flipped vertically.
    Tx1,
    /// Column 0, row 1.
    Tx2,
    /// Column 0, row 2, flipped horizontally.
    Tx3,
    /// Column 0, row 3, flipped vertically.
    Tx4,
    /// Column 1, row 0.
    Tx5,
    /// Column 1, row 1.
    Tx6,
    /// Column 1, row 2.
    Tx7,
    /// Column 1, row 3.
    Tx8,
    /// Column 2, row 0.
    Tx9,
    /// Column 2, row 1.
    Tx10,
    /// Column 2, row 2.
    Tx11,
    /// Column 2, row 3.
    Tx12,
    /// Column 3, row 0.
    Tx13,
    /// Column 3, row 1.
    Tx14,
    /// Column 3, row 2.
    Tx15,
    /// Column 3, row 3.
    Tx16,
}

/// The constant UV sub-rectangle of an atlas region, in milli-units of
/// the atlas: the two corner points handed to the textured quad.
pub open spec fn spec_uv(r: AtlasRegion) -> ((int, int), (int, int)) {
    match r {
        AtlasRegion::Tx1 => ((0, 250), (250, 0)),
        AtlasRegion::Tx2 => ((0, 250), (250, 500)),
        AtlasRegion::Tx3 => ((250, 500), (0, 750)),
        AtlasRegion::Tx4 => ((250, 1000), (0, 750)),
        AtlasRegion::Tx5 => ((250, 0), (500, 250)),
        AtlasRegion::Tx6 => ((250, 250), (500, 500)),
        AtlasRegion::Tx7 => ((250, 500), (500, 750)),
        AtlasRegion::Tx8 => ((250, 750), (500, 1000)),
        AtlasRegion::Tx9 => ((500, 0), (750, 250)),
        AtlasRegion::Tx10 => ((500, 250), (750, 500)),
        AtlasRegion::Tx11 => ((500, 500), (750, 750)),
        AtlasRegion::Tx12 => ((500, 750), (750, 1000)),
        AtlasRegion::Tx13 => ((750, 0), (1000, 250)),
        AtlasRegion::Tx14 => ((750, 250), (1000, 500)),
        AtlasRegion::Tx15 => ((750, 500), (1000, 750)),
        AtlasRegion::Tx16 => ((750, 750), (1000, 1000)),
    }
}

/// The UV corner points of an atlas region, in milli-units.
pub fn uv_of(r: AtlasRegion) -> (p: ((i64, i64), (i64, i64)))
    ensures
        ((p.0.0 as int, p.0.1 as int), (p.1.0 as int, p.1.1 as int)) == spec_uv(r),
{
    match r {
        AtlasRegion::Tx1 => ((0, 250), (250, 0)),
        AtlasRegion::Tx2 => ((0, 250), (250, 500)),
        AtlasRegion::Tx3 => ((250, 500), (0, 750)),
        AtlasRegion::Tx4 => ((250, 1000), (0, 750)),
        AtlasRegion::Tx5 => ((250, 0), (500, 250)),
        AtlasRegion::Tx6 => ((250, 250), (500, 500)),
        AtlasRegion::Tx7 => ((250, 500), (500, 750)),
        AtlasRegion::Tx8 => ((250, 750), (500, 1000)),
        AtlasRegion::Tx9 => ((500, 0), (750, 250)),
        AtlasRegion::Tx10 => ((500, 250), (750, 500)),
        AtlasRegion::Tx11 => ((500, 500), (750, 750)),
        AtlasRegion::Tx12 => ((500, 750), (750, 1000)),
        AtlasRegion::Tx13 => ((750, 0), (1000, 250)),
        AtlasRegion::Tx14 => ((750, 250), (1000, 500)),
        AtlasRegion::Tx15 => ((750, 500), (1000, 750)),
        AtlasRegion::Tx16 => ((750, 750), (1000, 1000)),
    }
}

/// A coordinate quantized to `[0, MAX_QUANT]` of its axis extent,
/// saturating below zero and above the extent.
pub open spec fn spec_quantize(v: int, extent: int) -> int {
    if v <= 0 {
        0
    } else if v >= extent {
        MAX_QUANT as int
    } else {
        (v * (MAX_QUANT as int)) / extent
    }
}

/// Quantizes one milli-pixel coordinate against its axis extent.
pub fn quantize(v: i128, extent: i64) -> (r: u16)
    requires
        1 <= extent <= 200_000_000,
    ensures
        r as int == spec_quantize(v as int, extent as int),
{
    if v <= 0 {
        0
    } else if v >= extent as i128 {
        65535
    } else {
        let q: u128 = ((v as u128) * 65535) / (extent as u128);
        proof {
            let vi = v as int;
            let e = extent as int;
            assert(vi * 65535 <= (e - 1) * 65535 && 0 <= vi * 65535) by (nonlinear_arith)
                requires
                    0 < vi <= e - 1,
            ;
            if (vi * 65535) / e >= 65536 {
                vstd::arithmetic::div_mod::lemma_fundamental_div_mod(vi * 65535, e);
                vstd::arithmetic::div_mod::lemma_mod_bound(vi * 65535, e);
                assert(e * ((vi * 65535) / e) >= e * 65536) by (nonlinear_arith)
                    requires
                        (vi * 65535) / e >= 65536,
                        e >= 1,
                ;
                assert(e * 65536 > (e - 1) * 65535) by (nonlinear_arith)
                    requires
                        e >= 1,
                ;
                assert(false);
            }
        }
        q as u16
    }
}

/// The quantized form of a milli-unit texture coordinate.
pub open spec fn spec_uv_quant(u: int) -> int {
    (u * (MAX_QUANT as int)) / 1000
}

/// Quantizes one milli-unit texture coordinate into `[0, MAX_QUANT]`.
pub fn uv_quant(u: i64) -> (r: u16)
    requires
        0 <= u <= 1000,
    ensures
        r as int == spec_uv_quant(u as int),
{
    proof {
        assert(0 <= (u as int) * 65535 <= 65_535_000) by (nonlinear_arith)
            requires
                0 <= u <= 1000,
        ;
        vstd::arithmetic::div_mod::lemma_div_pos_is_pos((u as int) * 65535, 1000);
        vstd::arithmetic::div_mod::lemma_div_is_ordered((u as int) * 65535, 65_535_000, 1000);
    }
    (((u as u64) * 65535) / 1000) as u16
}

/// `r` is the integer square root of `n`: the largest integer whose
/// square does not exceed `n`.
pub open spec fn is_isqrt(n: int, r: int) -> bool {
    0 <= r && r * r <= n && n < (r + 1) * (r + 1)
}

/// The integer square root, as the unique root the predicate admits.
pub open spec fn sqrt_floor(n: int) -> int {
    choose|r: int| is_isqrt(n, r)
}

/// Two integer square roots of the same number are equal.
pub proof fn lemma_isqrt_unique(n: int, r1: int, r2: int)
    requires
        is_isqrt(n, r1),
        is_isqrt(n, r2),
    ensures
        r1 == r2,
{
    if r1 < r2 {
        assert((r1 + 1) * (r1 + 1) <= r2 * r2) by (nonlinear_arith)
            requires
                0 <= r1 < r2,
        ;
    }
    if r2 < r1 {
        assert((r2 + 1) * (r2 + 1) <= r1 * r1) by (nonlinear_arith)
            requires
                0 <= r2 < r1,
        ;
    }
}

/// Computes the integer square root by binary search.
pub fn isqrt(n: u128) -> (r: u64)
    requires
        n < 0x4000_0000_0000_0000_0000_0000_0000_0000,
    ensures
        is_isqrt(n as int, r as int),
        r as int == sqrt_floor(n as int),
{
    let mut lo: u64 = 0;
    let mut hi: u64 = 0x8000_0000_0000_0000;
    proof {
        assert((0x8000_0000_0000_0001 as int) * (0x8000_0000_0000_0001 as int)
            > 0x4000_0000_0000_0000_0000_0000_0000_0000) by (nonlinear_arith);
    }
    while lo < hi
        invariant
            0 <= lo <= hi <= 0x8000_0000_0000_0000,
            (lo as int) * (lo as int) <= n as int,
            (n as int) < (hi as int + 1) * (hi as int + 1),
        decreases hi - lo,
    {
        let mid: u64 = lo + (hi - lo + 1) / 2;
        proof {
            assert(lo < mid <= hi);
            assert((mid as int) * (mid as int) <= 0x4000_0000_0000_0000_0000_0000_0000_0000)
                by (nonlinear_arith)
                requires
                    mid <= 0x8000_0000_0000_0000,
            ;
        }
        if (mid as u128) * (mid as u128) <= n {
            lo = mid;
        } else {
            hi = mid - 1;
            proof {
                assert((n as int) < (mid as int) * (mid as int));
            }
        }
    }
    proof {
        assert(is_isqrt(n as int, lo as int));
        let w = sqrt_floor(n as int);
        assert(is_isqrt(n as int, w));
        lemma_isqrt_unique(n as int, lo as int, w);
    }
    lo
}

/// The perpendicular ribbon offset for a tangent direction `(ax, ay)`,
/// scaled to the half stroke width `w`: `w * (-ay, ax) / |(ax, ay)|`,
/// or straight up when the direction is degenerate.
pub open spec fn spec_perp(ax: int, ay: int, w: int) -> (int, int) {
    let norm = sqrt_floor(ax * ax + ay * ay);
    if norm == 0 {
        (0, w)
    } else {
        (div_trunc(-w * ay, norm), div_trunc(w * ax, norm))
    }
}

/// Computes the perpendicular ribbon offset; its components never exceed
/// the stroke half-width in magnitude.
pub fn perp_offset(ax: i64, ay: i64, w: i64) -> (r: (i64, i64))
    requires
        -0x400_0000_0000_0000 <= ax <= 0x400_0000_0000_0000,
        -0x400_0000_0000_0000 <= ay <= 0x400_0000_0000_0000,
        0 <= w <= 1_000_000,
    ensures
        (r.0 as int, r.1 as int) == spec_perp(ax as int, ay as int, w as int),
        -w <= r.0 <= w,
        -w <= r.1 <= w,
{
    proof {
        assert(0 <= (ax as int) * (ax as int) <= 0x10_0000_0000_0000_0000_0000_0000_0000 && 0 <= (
        ay as int) * (ay as int) <= 0x10_0000_0000_0000_0000_0000_0000_0000) by (nonlinear_arith)
            requires
                -0x400_0000_0000_0000 <= ax <= 0x400_0000_0000_0000,
                -0x400_0000_0000_0000 <= ay <= 0x400_0000_0000_0000,
        ;
    }
    let ax2: i128 = mul_i128(ax as i128, ax as i128);
    let ay2: i128 = mul_i128(ay as i128, ay as i128);
    let sq: u128 = (ax2 + ay2) as u128;
    let norm: u64 = isqrt(sq);
    if norm == 0 {
        proof {
            assert(spec_perp(ax as int, ay as int, w as int) == (0int, w as int));
        }
        (0, w)
    } else {
        let nrm = norm as i128;
        let ox: i128 = div_i128(mul_i128(-(w as i128), ay as i128), nrm);
        let oy: i128 = div_i128(mul_i128(w as i128, ax as i128), nrm);
        proof {
            let n = norm as int;
            let axi = ax as int;
            let ayi = ay as int;
            let wi = w as int;
            assert((-wi) * ayi == -(wi * ayi)) by (nonlinear_arith);
            assert(ayi * ayi <= axi * axi + ayi * ayi && axi * axi <= axi * axi + ayi * ayi)
                by (nonlinear_arith);
            assert((n + 1) * (n + 1) > ayi * ayi && (n + 1) * (n + 1) > axi * axi);
            assert(-n <= ayi <= n && -n <= axi <= n) by (nonlinear_arith)
                requires
                    (n + 1) * (n + 1) > ayi * ayi,
                    (n + 1) * (n + 1) > axi * axi,
                    n >= 0,
            ;
            assert(-(wi * n) <= -wi * ayi <= wi * n && -(wi * n) <= wi * axi <= wi * n)
                by (nonlinear_arith)
                requires
                    -n <= ayi <= n,
                    -n <= axi <= n,
                    0 <= wi,
            ;
            lemma_div_trunc_bound(-wi * ayi, n, wi * n);
            lemma_div_trunc_bound(wi * axi, n, wi * n);
            assert((wi * n) / n == wi) by {
                vstd::arithmetic::div_mod::lemma_div_by_multiple(wi, n);
                assert(wi * n == n * wi) by (nonlinear_arith);
            }
        }
        (ox as i64, oy as i64)
    }
}

/// The decimal digit characters of `n`, most significant first.
pub open spec fn spec_digits(n: nat) -> Seq<char>
    decreases n,
{
    if n < 10 {
        seq![digit_char(n)]
    } else {
        spec_digits(n / 10).push(digit_char(n % 10))
    }
}

/// The character of one decimal digit.
pub open spec fn digit_char(d: nat) -> char {
    if d == 0 {
        '0'
    } else if d == 1 {
        '1'
    } else if d == 2 {
        '2'
    } else if d == 3 {
        '3'
    } else if d == 4 {
        '4'
    } else if d == 5 {
        '5'
    } else if d == 6 {
        '6'
    } else if d == 7 {
        '7'
    } else if d == 8 {
        '8'
    } else {
        '9'
    }
}

/// Appends one decimal digit character to a string.
fn push_digit(s: &mut String, d: u64)
    requires
        d < 10,
    ensures
        final(s)@ == old(s)@.push(digit_char(d as nat)),
{
    proof {
        reveal_strlit("0");
        reveal_strlit("1");
        reveal_strlit("2");
        reveal_strlit("3");
        reveal_strlit("4");
        reveal_strlit("5");
        reveal_strlit("6");
        reveal_strlit("7");
        reveal_strlit("8");
        reveal_strlit("9");
    }
    if d == 0 {
        s.append("0");
    } else if d == 1 {
        s.append("1");
    } else if d == 2 {
        s.append("2");
    } else if d == 3 {
        s.append("3");
    } else if d == 4 {
        s.append("4");
    } else if d == 5 {
        s.append("5");
    } else if d == 6 {
        s.append("6");
    } else if d == 7 {
        s.append("7");
    } else if d == 8 {
        s.append("8");
    } else {
        s.append("9");
    }
    proof {
        assert(old(s)@.push(digit_char(d as nat)) =~= s@);
    }
}

/// The ghost image of a text-draw request.
pub struct TextReqView {
    /// Screen x, milli-pixels.
    pub x: int,
    /// Screen y, milli-pixels, from the top.
    pub y: int,
    /// Bounding-box width.
    pub w: int,
    /// Bounding-box height.
    pub h: int,
    /// The characters drawn.
    pub text: Seq<char>,
    /// Font scale, milli-points.
    pub scale: int,
    /// Horizontal centering.
    pub centered: bool,
}

impl View for TextRequest {
    type V = TextReqView;

    open spec fn view(&self) -> TextReqView {
        TextReqView {
            x: self.x as int,
            y: self.y as int,
            w: self.w as int,
            h: self.h as int,
            text: self.text@,
            scale: self.scale as int,
            centered: self.centered,
        }
    }
}

/// Cap on the vertical plot offset of a curve point, in milli-pixels:
/// far beyond any viewport, so saturating here never changes a quantized
/// vertex, but it keeps the ribbon arithmetic bounded.
pub const PLOT_CLAMP: i64 = 1_000_000_000_000;

/// The vertical plot offset saturated at `PLOT_CLAMP`.
pub open spec fn clamp_ratio(q: int) -> int {
    if q > PLOT_CLAMP as int {
        PLOT_CLAMP as int
    } else if q < -(PLOT_CLAMP as int) {
        -(PLOT_CLAMP as int)
    } else {
        q
    }
}

/// One quantized solid vertex.
pub open spec fn spec_vertex(p: (int, int), bx: int, by: int, color: [u8; 4]) -> Vertex {
    (Vertex {
        position: [spec_quantize(p.0, bx) as u16, spec_quantize(p.1, by) as u16],
        color,
    })
}

/// The six solid vertices of a quad: the triangles `(p1, p2, p3)` and
/// `(p1, p2, p4)`.
pub open spec fn spec_quad4(
    p1: (int, int),
    p2: (int, int),
    p3: (int, int),
    p4: (int, int),
    bx: int,
    by: int,
    color: [u8; 4],
) -> Seq<Vertex> {
    seq![
        spec_vertex(p1, bx, by, color),
        spec_vertex(p2, bx, by, color),
        spec_vertex(p3, bx, by, color),
        spec_vertex(p1, bx, by, color),
        spec_vertex(p2, bx, by, color),
        spec_vertex(p4, bx, by, color),
    ]
}

/// The solid quad spanned by two opposite corners.
pub open spec fn spec_quad_rect(
    p1: (int, int),
    p2: (int, int),
    bx: int,
    by: int,
    color: [u8; 4],
) -> Seq<Vertex> {
    spec_quad4(p1, p2, (p1.0, p2.1), (p2.0, p1.1), bx, by, color)
}

/// One quantized textured vertex.
pub open spec fn spec_tex_vertex(p: (int, int), uv: (int, int), bx: int, by: int) -> TextureVertex {
    (TextureVertex {
        position: [spec_quantize(p.0, bx) as u16, spec_quantize(p.1, by) as u16],
        tex_coords: [spec_uv_quant(uv.0) as u16, spec_uv_quant(uv.1) as u16],
    })
}

/// The six textured vertices of the atlas quad spanned by two opposite
/// corners, with the region's UV pair spread over the corners.
pub open spec fn spec_quad_tex_rect(
    p1: (int, int),
    p2: (int, int),
    bx: int,
    by: int,
    region: AtlasRegion,
) -> Seq<TextureVertex> {
    let uv = spec_uv(region);
    let uv1 = uv.0;
    let uv2 = uv.1;
    let p3 = (p1.0, p2.1);
    let p4 = (p2.0, p1.1);
    seq![
        spec_tex_vertex(p3, uv1, bx, by),
        spec_tex_vertex(p4, uv2, bx, by),
        spec_tex_vertex(p1, (uv1.0, uv2.1), bx, by),
        spec_tex_vertex(p3, uv1, bx, by),
        spec_tex_vertex(p4, uv2, bx, by),
        spec_tex_vertex(p2, (uv2.0, uv1.1), bx, by),
    ]
}

/// Appends the six vertices of a solid quad given by four corners.
fn push_quad4(
    out: &mut Vec<Vertex>,
    p1: (i64, i64),
    p2: (i64, i64),
    p3: (i64, i64),
    p4: (i64, i64),
    bx: i64,
    by: i64,
    color: [u8; 4],
)
    requires
        1 <= bx <= 200_000_000,
        1 <= by <= 200_000_000,
    ensures
        final(out)@ == old(out)@ + spec_quad4(
            (p1.0 as int, p1.1 as int),
            (p2.0 as int, p2.1 as int),
            (p3.0 as int, p3.1 as int),
            (p4.0 as int, p4.1 as int),
            bx as int,
            by as int,
            color,
        ),
{
    let v1 = Vertex { position: [quantize(p1.0 as i128, bx), quantize(p1.1 as i128, by)], color };
    let v2 = Vertex { position: [quantize(p2.0 as i128, bx), quantize(p2.1 as i128, by)], color };
    let v3 = Vertex { position: [quantize(p3.0 as i128, bx), quantize(p3.1 as i128, by)], color };
    let v4 = Vertex { position: [quantize(p4.0 as i128, bx), quantize(p4.1 as i128, by)], color };
    out.push(v1);
    out.push(v2);
    out.push(v3);
    out.push(v1);
    out.push(v2);
    out.push(v4);
    proof {
        assert(out@ =~= old(out)@ + spec_quad4(
            (p1.0 as int, p1.1 as int),
            (p2.0 as int, p2.1 as int),
            (p3.0 as int, p3.1 as int),
            (p4.0 as int, p4.1 as int),
            bx as int,
            by as int,
            color,
        ));
    }
}

/// Appends the six vertices of the solid quad spanned by two corners.
fn push_quad_rect(
    out: &mut Vec<Vertex>,
    p1: (i64, i64),
    p2: (i64, i64),
    bx: i64,
    by: i64,
    color: [u8; 4],
)
    requires
        1 <= bx <= 200_000_000,
        1 <= by <= 200_000_000,
    ensures
        final(out)@ == old(out)@ + spec_quad_rect(
            (p1.0 as int, p1.1 as int),
            (p2.0 as int, p2.1 as int),
            bx as int,
            by as int,
            color,
        ),
{
    push_quad4(out, p1, p2, (p1.0, p2.1), (p2.0, p1.1), bx, by, color);
}

/// Appends the six vertices of the atlas quad spanned by two corners.
fn push_quad_tex_rect(
    out: &mut Vec<TextureVertex>,
    p1: (i64, i64),
    p2: (i64, i64),
    bx: i64,
    by: i64,
    region: AtlasRegion,
)
    requires
        1 <= bx <= 200_000_000,
        1 <= by <= 200_000_000,
    ensures
        final(out)@ == old(out)@ + spec_quad_tex_rect(
            (p1.0 as int, p1.1 as int),
            (p2.0 as int, p2.1 as int),
            bx as int,
            by as int,
            region,
        ),
{
    let uv: ((i64, i64), (i64, i64)) = uv_of(region);
    let u1 = uv.0;
    let u2 = uv.1;
    proof {
        assert(0 <= u1.0 <= 1000 && 0 <= u1.1 <= 1000 && 0 <= u2.0 <= 1000 && 0 <= u2.1 <= 1000) by {
            assert(((u1.0 as int, u1.1 as int), (u2.0 as int, u2.1 as int)) == spec_uv(region));
        }
    }
    let p3: (i64, i64) = (p1.0, p2.1);
    let p4: (i64, i64) = (p2.0, p1.1);
    let t1 = TextureVertex {
        position: [quantize(p3.0 as i128, bx), quantize(p3.1 as i128, by)],
        tex_coords: [uv_quant(u1.0), uv_quant(u1.1)],
    };
    let t2 = TextureVertex {
        position: [quantize(p4.0 as i128, bx), quantize(p4.1 as i128, by)],
        tex_coords: [uv_quant(u2.0), uv_quant(u2.1)],
    };
    let t3 = TextureVertex {
        position: [quantize(p1.0 as i128, bx), quantize(p1.1 as i128, by)],
        tex_coords: [uv_quant(u1.0), uv_quant(u2.1)],
    };
    let t6 = TextureVertex {
        position: [quantize(p2.0 as i128, bx), quantize(p2.1 as i128, by)],
        tex_coords: [uv_quant(u2.0), uv_quant(u1.1)],
    };
    out.push(t1);
    out.push(t2);
    out.push(t3);
    out.push(t1);
    out.push(t2);
    out.push(t6);
    proof {
        assert(out@ =~= old(out)@ + spec_quad_tex_rect(
            (p1.0 as int, p1.1 as int),
            (p2.0 as int, p2.1 as int),
            bx as int,
            by as int,
            region,
        ));
    }
}

/// Renders `n` in decimal.
pub fn u64_to_string(n: u64) -> (r: String)
    ensures
        r@ == spec_digits(n as nat),
    decreases n,
{
    if n < 10 {
        let mut s = String::new();
        push_digit(&mut s, n);
        proof {
            assert(s@ =~= seq![digit_char(n as nat)]);
        }
        s
    } else {
        let mut s = u64_to_string(n / 10);
        push_digit(&mut s, n % 10);
        s
    }
}

use crate::spline::{spec_interpolate, InterpolatedCurve};

/// One evaluated ribbon point: the horizontal scroll position for
/// abscissa `stx` and the curve value at `stv`, normalized into the plot
/// strip by `range`. The evaluated segment is picked from `jx` and
/// clamped to the last segment.
pub open spec fn rib_pt(
    c: InterpolatedCurve,
    x0: int,
    of: int,
    step: int,
    py0: int,
    ph: int,
    range: int,
    stx: int,
    stv: int,
    jx: int,
) -> (int, int) {
    let n = c.segments() as int;
    let j = vstd::math::min(n - 1, jx / 1000);
    let v = spec_interpolate(c.samples(), c.segments(), j as nat, stv);
    (x0 + div_trunc((stx - of) * step, 1000), py0 + clamp_ratio(div_trunc(v * ph, range)))
}

/// Evaluates one ribbon point.
#[verifier::rlimit(30)]
fn rib_point(
    c: &InterpolatedCurve,
    x0: i64,
    of: i64,
    step: i64,
    py0: i64,
    ph: i64,
    range: i64,
    stx: i64,
    stv: i64,
    jx: i64,
) -> (r: (i64, i64))
    requires
        c.wf(),
        2 <= c.segments() <= 19,
        0 <= of < 1000,
        0 <= stv,
        stv <= jx <= stv + 125,
        stx == stv || stx == stv + 125,
        of <= stv,
        stv <= (c.segments() as int - 1) * 1000 + of + 24,
        -3_000_000_000_000_000 <= x0 <= 3_000_000_000_000_000,
        -5_000_000_000_000_000 <= step <= 5_000_000_000_000_000,
        -3_000_000_000_000_000 <= py0 <= 3_000_000_000_000_000,
        -5_000_000_000_000_000 <= ph <= 5_000_000_000_000_000,
        1000 <= range,
    ensures
        (r.0 as int, r.1 as int) == rib_pt(
            *c,
            x0 as int,
            of as int,
            step as int,
            py0 as int,
            ph as int,
            range as int,
            stx as int,
            stv as int,
            jx as int,
        ),
        -100_000_000_000_000_000 <= r.0 <= 100_000_000_000_000_000,
        -4_000_000_000_000_000 <= r.1 <= 4_000_000_000_000_000,
{
    let n: usize = c.seg_count();
    let jd: usize = ((jx as u64) / 1000) as usize;
    let j: usize = if jd < n - 1 {
        jd
    } else {
        n - 1
    };
    proof {
        let jxi = jx as int;
        vstd::arithmetic::div_mod::lemma_fundamental_div_mod(jxi, 1000);
        vstd::arithmetic::div_mod::lemma_mod_bound(jxi, 1000);
        assert(j as int == vstd::math::min(c.segments() as int - 1, jxi / 1000));
        assert((j as int) * 1000 - 1000 <= stv as int <= (j as int) * 1000 + 2000) by {
            let nn = c.segments() as int;
            let q = jxi / 1000;
            assert(1000 * q <= jxi < 1000 * q + 1000);
            if q <= nn - 1 {
                assert(j as int == q);
                assert(q * 1000 == 1000 * q) by (nonlinear_arith);
            } else {
                assert(j as int == nn - 1);
                assert(1000 * q >= 1000 * nn) by (nonlinear_arith)
                    requires
                        q >= nn,
                ;
                assert((nn - 1) * 1000 == 1000 * nn - 1000) by (nonlinear_arith);
            }
        }
    }
    let v: i64 = c.interpolate(stv, j);
    let q: i128 = div_i128(mul_i128(v as i128, ph as i128), range as i128);
    let off: i64 = if q > PLOT_CLAMP as i128 {
        PLOT_CLAMP
    } else if q < -(PLOT_CLAMP as i128) {
        -PLOT_CLAMP
    } else {
        q as i64
    };
    let xq: i128 = div_i128(mul_i128((stx - of) as i128, step as i128), 1000);
    proof {
        assert(-96_000_000_000_000_000_000 <= ((stx - of) as int) * (step as int)
            <= 96_000_000_000_000_000_000) by (nonlinear_arith)
            requires
                0 <= stx - of <= 19_200,
                -5_000_000_000_000_000 <= step <= 5_000_000_000_000_000,
        ;
        lemma_div_trunc_bound(
            ((stx - of) as int) * (step as int),
            1000,
            96_000_000_000_000_000_000,
        );
    }
    (x0 + (xq as i64), py0 + off)
}

/// The quads of one instance's ribbon from abscissa `st` on: while `st`
/// is short of the end, each step pairs the last point pair `(a1, a2)`
/// with the next evaluated point `b1` and its perpendicular offset
/// `b2`; the final step closes the ribbon with a vertical offset.
pub open spec fn spec_ribbon(
    c: InterpolatedCurve,
    color: [u8; 4],
    x0: int,
    of: int,
    step: int,
    py0: int,
    ph: int,
    range: int,
    w: int,
    bx: int,
    by: int,
    a1: (int, int),
    a2: (int, int),
    st: int,
) -> Seq<Vertex>
    decreases vstd::math::max(0, (c.segments() as int - 1) * 1000 + of - 100 - st),
{
    let limit = (c.segments() as int - 1) * 1000 + of - 100;
    if st < limit {
        let b1 = rib_pt(c, x0, of, step, py0, ph, range, st, st, st);
        let c1 = rib_pt(c, x0, of, step, py0, ph, range, st + 125, st, st + 125);
        let o = spec_perp(c1.0 - a1.0, c1.1 - a1.1, w);
        let b2 = (b1.0 + o.0, b1.1 + o.1);
        spec_quad4(a1, b2, a2, b1, bx, by, color) + spec_ribbon(
            c,
            color,
            x0,
            of,
            step,
            py0,
            ph,
            range,
            w,
            bx,
            by,
            b1,
            b2,
            st + 125,
        )
    } else {
        let b1 = rib_pt(c, x0, of, step, py0, ph, range, st, st, st);
        let b2 = (b1.0, b1.1 + w);
        spec_quad4(a1, b2, a2, b1, bx, by, color)
    }
}

/// One instance's whole ribbon: the first point pair starts at the
/// elapsed fraction `of` with a vertical offset, and the stepping starts
/// one subdivision later.
pub open spec fn spec_ribbon_full(
    c: InterpolatedCurve,
    color: [u8; 4],
    x0: int,
    of: int,
    step: int,
    py0: int,
    ph: int,
    range: int,
    w: int,
    bx: int,
    by: int,
) -> Seq<Vertex> {
    let a1 = rib_pt(c, x0, of, step, py0, ph, range, of, of, of);
    let a2 = (a1.0, a1.1 + w);
    spec_ribbon(c, color, x0, of, step, py0, ph, range, w, bx, by, a1, a2, of + 125)
}

/// Emits one instance's ribbon: a constant-width stroked approximation
/// of the fitted curve, one quad per subdivision step.
fn emit_ribbon(
    out: &mut Vec<Vertex>,
    c: &InterpolatedCurve,
    color: [u8; 4],
    x0: i64,
    of: i64,
    step: i64,
    py0: i64,
    ph: i64,
    range: i64,
    w: i64,
    bx: i64,
    by: i64,
)
    requires
        c.wf(),
        2 <= c.segments() <= 19,
        0 <= of < 1000,
        -3_000_000_000_000_000 <= x0 <= 3_000_000_000_000_000,
        -5_000_000_000_000_000 <= step <= 5_000_000_000_000_000,
        -3_000_000_000_000_000 <= py0 <= 3_000_000_000_000_000,
        -5_000_000_000_000_000 <= ph <= 5_000_000_000_000_000,
        1000 <= range,
        0 <= w <= 1_000_000,
        1 <= bx <= 200_000_000,
        1 <= by <= 200_000_000,
    ensures
        final(out)@ == old(out)@ + spec_ribbon_full(
            *c,
            color,
            x0 as int,
            of as int,
            step as int,
            py0 as int,
            ph as int,
            range as int,
            w as int,
            bx as int,
            by as int,
        ),
{
    let n: usize = c.seg_count();
    let limit: i64 = ((n - 1) as i64) * 1000 + of - 100;
    let a0: (i64, i64) = rib_point(c, x0, of, step, py0, ph, range, of, of, of);
    let mut a1x: i64 = a0.0;
    let mut a1y: i64 = a0.1;
    let mut a2x: i64 = a0.0;
    let mut a2y: i64 = a0.1 + w;
    let mut st: i64 = of + 125;
    while st < limit
        invariant
            c.wf(),
            2 <= c.segments() <= 19,
            n == c.segments(),
            limit == (c.segments() as int - 1) * 1000 + of - 100,
            0 <= of < 1000,
            of + 125 <= st <= limit + 124,
            -3_000_000_000_000_000 <= x0 <= 3_000_000_000_000_000,
            -5_000_000_000_000_000 <= step <= 5_000_000_000_000_000,
            -3_000_000_000_000_000 <= py0 <= 3_000_000_000_000_000,
            -5_000_000_000_000_000 <= ph <= 5_000_000_000_000_000,
            1000 <= range,
            0 <= w <= 1_000_000,
            1 <= bx <= 200_000_000,
            1 <= by <= 200_000_000,
            -100_000_000_000_000_000 <= a1x <= 100_000_000_000_000_000,
            -4_000_000_000_000_000 <= a1y <= 4_000_000_000_000_000,
            -101_000_000_000_000_000 <= a2x <= 101_000_000_000_000_000,
            -5_000_000_000_000_000 <= a2y <= 5_000_000_000_000_000,
            out@ + spec_ribbon(
                *c,
                color,
                x0 as int,
                of as int,
                step as int,
                py0 as int,
                ph as int,
                range as int,
                w as int,
                bx as int,
                by as int,
                (a1x as int, a1y as int),
                (a2x as int, a2y as int),
                st as int,
            ) == old(out)@ + spec_ribbon_full(
                *c,
                color,
                x0 as int,
                of as int,
                step as int,
                py0 as int,
                ph as int,
                range as int,
                w as int,
                bx as int,
                by as int,
            ),
        decreases limit + 125 - st,
    {
        let b1: (i64, i64) = rib_point(c, x0, of, step, py0, ph, range, st, st, st);
        let c1: (i64, i64) = rib_point(c, x0, of, step, py0, ph, range, st + 125, st, st + 125);
        let o: (i64, i64) = perp_offset(c1.0 - a1x, c1.1 - a1y, w);
        let b2: (i64, i64) = (b1.0 + o.0, b1.1 + o.1);
        let ghost pre = out@;
        push_quad4(out, (a1x, a1y), b2, (a2x, a2y), b1, bx, by, color);
        proof {
            let args_b1 = rib_pt(
                *c,
                x0 as int,
                of as int,
                step as int,
                py0 as int,
                ph as int,
                range as int,
                st as int,
                st as int,
                st as int,
            );
            let args_c1 = rib_pt(
                *c,
                x0 as int,
                of as int,
                step as int,
                py0 as int,
                ph as int,
                range as int,
                st as int + 125,
                st as int,
                st as int + 125,
            );
            assert((b1.0 as int, b1.1 as int) == args_b1);
            assert((c1.0 as int, c1.1 as int) == args_c1);
            assert(out@ + spec_ribbon(
                *c,
                color,
                x0 as int,
                of as int,
                step as int,
                py0 as int,
                ph as int,
                range as int,
                w as int,
                bx as int,
                by as int,
                (b1.0 as int, b1.1 as int),
                (b2.0 as int, b2.1 as int),
                st as int + 125,
            ) =~= pre + spec_ribbon(
                *c,
                color,
                x0 as int,
                of as int,
                step as int,
                py0 as int,
                ph as int,
                range as int,
                w as int,
                bx as int,
                by as int,
                (a1x as int, a1y as int),
                (a2x as int, a2y as int),
                st as int,
            ));
        }
        a1x = b1.0;
        a1y = b1.1;
        a2x = b2.0;
        a2y = b2.1;
        st = st + 125;
    }
    let b1: (i64, i64) = rib_point(c, x0, of, step, py0, ph, range, st, st, st);
    let b2: (i64, i64) = (b1.0, b1.1 + w);
    let ghost pre = out@;
    push_quad4(out, (a1x, a1y), b2, (a2x, a2y), b1, bx, by, color);
    proof {
        assert(out@ =~= pre + spec_ribbon(
            *c,
            color,
            x0 as int,
            of as int,
            step as int,
            py0 as int,
            ph as int,
            range as int,
            w as int,
            bx as int,
            by as int,
            (a1x as int, a1y as int),
            (a2x as int, a2y as int),
            st as int,
        ));
        assert(out@ =~= old(out)@ + spec_ribbon_full(
            *c,
            color,
            x0 as int,
            of as int,
            step as int,
            py0 as int,
            ph as int,
            range as int,
            w as int,
            bx as int,
            by as int,
        ));
    }
}

use crate::layout::{
    panel_rect, scaled_length, spec_panel_rect, spec_scaled, MAX_DPI, MAX_PANELS, MAX_VIEWPORT,
};
use crate::query::{range_floor, spec_display_range, CounterV2, QueryV2};

/// The display range a panel uses this frame: the metric's two range
/// floors blended by the elapsed fraction.
pub open spec fn panel_range(c: CounterV2, t: int) -> int {
    spec_display_range(
        range_floor(c.max_spec().0, c.avg_spec().0),
        range_floor(c.max_spec().1, c.avg_spec().1),
        t,
    )
}

/// The solid geometry of the panel at position `idx`: its white
/// background quad, the green plot quad, the white mid gridline, and
/// then, per instance curve, the stroked ribbon and two white cover
/// strips.
pub open spec fn spec_panel_solid(
    c: CounterV2,
    n: int,
    w: int,
    h: int,
    dpi: int,
    t: int,
    idx: int,
) -> Seq<Vertex> {
    let rect = spec_panel_rect(n, w, h, dpi, idx);
    let x1 = rect.0;
    let y1 = rect.1;
    let x2 = rect.2;
    let y2 = rect.3;
    let pa44 = spec_scaled(88_000, dpi);
    let pa10 = spec_scaled(20_000, dpi);
    let pa6 = spec_scaled(12_000, dpi);
    let pa1 = spec_scaled(2_000, dpi);
    let bx = w * 1000;
    let by = h * 1000;
    let ymid = y1 + div_trunc(y2 - y1, 2);
    spec_quad_rect((x1, y1), (x2, y2), bx, by, WHITE) + spec_quad_rect(
        (x1 + pa6, y1 + pa10),
        (x2 - pa44, y2 - pa10),
        bx,
        by,
        GREEN,
    ) + spec_quad_rect((x1, ymid - pa1), (x2 - pa44, ymid + pa1), bx, by, WHITE)
        + spec_panel_instances(c, n, w, h, dpi, t, idx, 0)
}

/// The ribbons and cover strips of the panel's instances from instance
/// `i` on. An instance whose curve has fewer than two segments is
/// skipped until enough samples accumulate.
pub open spec fn spec_panel_instances(
    c: CounterV2,
    n: int,
    w: int,
    h: int,
    dpi: int,
    t: int,
    idx: int,
    i: int,
) -> Seq<Vertex>
    decreases c.curves_spec().len() - i,
{
    if i < 0 || i >= c.curves_spec().len() {
        Seq::empty()
    } else {
        let rect = spec_panel_rect(n, w, h, dpi, idx);
        let x1 = rect.0;
        let y1 = rect.1;
        let x2 = rect.2;
        let y2 = rect.3;
        let pa44 = spec_scaled(88_000, dpi);
        let pa18 = spec_scaled(36_000, dpi);
        let pa10 = spec_scaled(20_000, dpi);
        let pa6 = spec_scaled(12_000, dpi);
        let pa2and5 = spec_scaled(5_000, dpi);
        let bx = w * 1000;
        let by = h * 1000;
        let curve = c.curves_spec()[i];
        let color = c.colors()[i];
        let range = panel_range(c, t);
        let body = if curve.segments() >= 2 {
            let x0 = x1 + pa6;
            let py0 = y1 + pa18;
            let ph = y2 - pa18 - y1 - pa18;
            let step = div_trunc(x2 - pa6 - pa44 - x1, curve.segments() as int - 1);
            spec_ribbon_full(curve, color, x0, t, step, py0, ph, range, pa2and5, bx, by)
                + spec_quad_rect((x1, y1), (x2, y1 + pa10), bx, by, WHITE) + spec_quad_rect(
                (x1, y2),
                (x2, y2 - pa10),
                bx,
                by,
                WHITE,
            )
        } else {
            Seq::empty()
        };
        body + spec_panel_instances(c, n, w, h, dpi, t, idx, i + 1)
    }
}

/// The sixteen decorative atlas quads of the panel at position `idx`:
/// rounded corners, edges and joins anchored at the panel's corners and
/// edge midpoints.
pub open spec fn spec_panel_tex(n: int, w: int, h: int, dpi: int, idx: int) -> Seq<TextureVertex> {
    let rect = spec_panel_rect(n, w, h, dpi, idx);
    let x1 = rect.0;
    let y1 = rect.1;
    let x2 = rect.2;
    let y2 = rect.3;
    let pa48 = spec_scaled(96_000, dpi);
    let pa32 = spec_scaled(64_000, dpi);
    let pa16 = spec_scaled(32_000, dpi);
    let pa10 = spec_scaled(20_000, dpi);
    let pa6 = spec_scaled(12_000, dpi);
    let bx = w * 1000;
    let by = h * 1000;
    spec_quad_tex_rect((x1 - pa16, y1 - pa16), (x1, y1), bx, by, AtlasRegion::Tx2)
        + spec_quad_tex_rect((x2 + pa16, y2 + pa16), (x2, y2), bx, by, AtlasRegion::Tx4)
        + spec_quad_tex_rect((x1 - pa16, y2 + pa16), (x1, y2), bx, by, AtlasRegion::Tx1)
        + spec_quad_tex_rect((x2 + pa16, y1 - pa16), (x2, y1), bx, by, AtlasRegion::Tx3)
        + spec_quad_tex_rect((x1, y1 - pa16), (x2, y1), bx, by, AtlasRegion::Tx6)
        + spec_quad_tex_rect((x1 - pa16, y1), (x1, y2), bx, by, AtlasRegion::Tx5)
        + spec_quad_tex_rect((x1, y2), (x2, y2 + pa16), bx, by, AtlasRegion::Tx8)
        + spec_quad_tex_rect((x2, y1), (x2 + pa16, y2), bx, by, AtlasRegion::Tx7)
        + spec_quad_tex_rect((x1 - pa6, y1 - pa6), (x1 + pa10, y1 + pa10), bx, by, AtlasRegion::Tx10)
        + spec_quad_tex_rect(
        (x2 - pa48, y2 - pa10),
        (x2 - pa32, y2 + pa6),
        bx,
        by,
        AtlasRegion::Tx12,
    ) + spec_quad_tex_rect((x1 - pa6, y2 - pa10), (x1 + pa10, y2 + pa6), bx, by, AtlasRegion::Tx9)
        + spec_quad_tex_rect(
        (x2 - pa48, y1 - pa6),
        (x2 - pa32, y1 + pa10),
        bx,
        by,
        AtlasRegion::Tx11,
    ) + spec_quad_tex_rect((x1 - pa6, y1 + pa10), (x1 + pa10, y2 - pa10), bx, by, AtlasRegion::Tx13)
        + spec_quad_tex_rect(
        (x1 + pa10, y1 - pa6),
        (x2 - pa48, y1 + pa10),
        bx,
        by,
        AtlasRegion::Tx14,
    ) + spec_quad_tex_rect((x1 + pa10, y2 - pa10), (x2 - pa48, y2 + pa6), bx, by, AtlasRegion::Tx16)
        + spec_quad_tex_rect(
        (x2 - pa48, y1 + pa10),
        (x2 - pa32, y2 - pa10),
        bx,
        by,
        AtlasRegion::Tx15,
    )
}

/// The text requests of the panel at position `idx`: the rounded display
/// value, its half at the mid gridline, and, when the cursor is inside
/// the panel's bounds, the metric's full path as a tooltip.
pub open spec fn spec_panel_texts(
    c: CounterV2,
    n: int,
    w: int,
    h: int,
    dpi: int,
    cx: int,
    cy: int,
    t: int,
    idx: int,
) -> Seq<TextReqView> {
    let rect = spec_panel_rect(n, w, h, dpi, idx);
    let x1 = rect.0;
    let y1 = rect.1;
    let x2 = rect.2;
    let y2 = rect.3;
    let pa44 = spec_scaled(88_000, dpi);
    let pa32 = spec_scaled(64_000, dpi);
    let pa26 = spec_scaled(52_000, dpi);
    let pa20 = spec_scaled(40_000, dpi);
    let pa18 = spec_scaled(36_000, dpi);
    let pa13 = spec_scaled(26_000, dpi);
    let pa6 = spec_scaled(12_000, dpi);
    let pa5 = spec_scaled(10_000, dpi);
    let scale = spec_scaled(20_000, dpi);
    let hm = h * 1000;
    let ymid = y1 + div_trunc(y2 - y1, 2);
    let range = panel_range(c, t);
    let base = seq![
        (TextReqView {
            x: x2 - pa32 + pa13,
            y: hm - (y2 - pa6),
            w: pa26,
            h: pa20,
            text: spec_digits(((range + 500) / 1000) as nat),
            scale,
            centered: true,
        }),
        (TextReqView {
            x: x2 - pa32 + pa13,
            y: hm - (ymid + pa5),
            w: pa26,
            h: pa20,
            text: spec_digits(((div_trunc(range, 2) + 500) / 1000) as nat),
            scale,
            centered: true,
        }),
    ];
    if cx * 1000 > x1 - pa6 && cx * 1000 < x2 + pa6 && hm - cy * 1000 > y1 - pa6 && hm - cy * 1000
        < y2 + pa6 {
        base.push(
            (TextReqView {
                x: x1 + pa18,
                y: hm - (y2 - pa18),
                w: x2 - pa6 - pa44 - x1 - pa18,
                h: y2 - pa18 - y1 - pa18,
                text: c.path_spec(),
                scale,
                centered: false,
            }),
        )
    } else {
        base
    }
}

/// The solid geometry of every panel from position `from` on.
pub open spec fn spec_solid_all(
    cs: Seq<CounterV2>,
    n: int,
    w: int,
    h: int,
    dpi: int,
    t: int,
    from: int,
) -> Seq<Vertex>
    decreases cs.len() - from,
{
    if from < 0 || from >= cs.len() {
        Seq::empty()
    } else {
        spec_panel_solid(cs[from], n, w, h, dpi, t, from) + spec_solid_all(
            cs,
            n,
            w,
            h,
            dpi,
            t,
            from + 1,
        )
    }
}

/// The atlas decoration of every panel from position `from` on.
pub open spec fn spec_tex_all(n: int, w: int, h: int, dpi: int, from: int) -> Seq<TextureVertex>
    decreases n - from,
{
    if from < 0 || from >= n {
        Seq::empty()
    } else {
        spec_panel_tex(n, w, h, dpi, from) + spec_tex_all(n, w, h, dpi, from + 1)
    }
}

/// The text requests of every panel from position `from` on.
pub open spec fn spec_texts_all(
    cs: Seq<CounterV2>,
    n: int,
    w: int,
    h: int,
    dpi: int,
    cx: int,
    cy: int,
    t: int,
    from: int,
) -> Seq<TextReqView>
    decreases cs.len() - from,
{
    if from < 0 || from >= cs.len() {
        Seq::empty()
    } else {
        spec_panel_texts(cs[from], n, w, h, dpi, cx, cy, t, from) + spec_texts_all(
            cs,
            n,
            w,
            h,
            dpi,
            cx,
            cy,
            t,
            from + 1,
        )
    }
}

/// Tessellation is deterministic: any two frames whose streams meet the
/// tessellator's contract for the same inputs are bit-identical, because
/// the contract pins each stream to a function of the inputs alone.
pub proof fn lemma_tessellation_deterministic(
    cs: Seq<CounterV2>,
    n: int,
    w: int,
    h: int,
    dpi: int,
    cx: int,
    cy: int,
    t: int,
    solid1: Seq<Vertex>,
    solid2: Seq<Vertex>,
    tex1: Seq<TextureVertex>,
    tex2: Seq<TextureVertex>,
    texts1: Seq<TextReqView>,
    texts2: Seq<TextReqView>,
)
    requires
        solid1 == spec_solid_all(cs, n, w, h, dpi, t, 0),
        solid2 == spec_solid_all(cs, n, w, h, dpi, t, 0),
        tex1 == spec_tex_all(n, w, h, dpi, 0),
        tex2 == spec_tex_all(n, w, h, dpi, 0),
        texts1 == spec_texts_all(cs, n, w, h, dpi, cx, cy, t, 0),
        texts2 == spec_texts_all(cs, n, w, h, dpi, cx, cy, t, 0),
    ensures
        solid1 == solid2,
        tex1 == tex2,
        texts1 == texts2,
{
}

/// One frame's tessellated output: the solid and textured vertex
/// streams and the frame's text requests, all fully replaced each frame.
pub struct TessOutput {
    /// Solid-colored quads.
    pub solid: Vec<Vertex>,
    /// Atlas-textured quads.
    pub textured: Vec<TextureVertex>,
    /// Queued text-draw requests.
    pub texts: Vec<TextRequest>,
}

/// Emits one panel's geometry and text requests.
#[verifier::rlimit(100)]
fn emit_panel(
    solid: &mut Vec<Vertex>,
    tex: &mut Vec<TextureVertex>,
    texts: &mut Vec<TextRequest>,
    c: &CounterV2,
    idx: usize,
    n: usize,
    w: u32,
    h: u32,
    dpi: u32,
    cx: i32,
    cy: i32,
    t: i64,
)
    requires
        c.wf(),
        idx < n <= MAX_PANELS,
        1 <= w <= MAX_VIEWPORT,
        1 <= h <= MAX_VIEWPORT,
        1 <= dpi <= MAX_DPI,
        0 <= t < 1000,
    ensures
        final(solid)@ == old(solid)@ + spec_panel_solid(
            *c,
            n as int,
            w as int,
            h as int,
            dpi as int,
            t as int,
            idx as int,
        ),
        final(tex)@ == old(tex)@ + spec_panel_tex(n as int, w as int, h as int, dpi as int, idx as int),
        final(texts)@.map_values(|tr: TextRequest| tr@) == old(texts)@.map_values(
            |tr: TextRequest| tr@,
        ) + spec_panel_texts(
            *c,
            n as int,
            w as int,
            h as int,
            dpi as int,
            cx as int,
            cy as int,
            t as int,
            idx as int,
        ),
{
    let rect = panel_rect(idx, n, w, h, dpi);
    let x1: i64 = rect.x1;
    let y1: i64 = rect.y1;
    let x2: i64 = rect.x2;
    let y2: i64 = rect.y2;
    let pa48: i64 = scaled_length(96_000, dpi);
    let pa44: i64 = scaled_length(88_000, dpi);
    let pa32: i64 = scaled_length(64_000, dpi);
    let pa26: i64 = scaled_length(52_000, dpi);
    let pa20: i64 = scaled_length(40_000, dpi);
    let pa18: i64 = scaled_length(36_000, dpi);
    let pa16: i64 = scaled_length(32_000, dpi);
    let pa13: i64 = scaled_length(26_000, dpi);
    let pa10: i64 = scaled_length(20_000, dpi);
    let pa6: i64 = scaled_length(12_000, dpi);
    let pa5: i64 = scaled_length(10_000, dpi);
    let pa2and5: i64 = scaled_length(5_000, dpi);
    let pa1: i64 = scaled_length(2_000, dpi);
    let scale20: i64 = scaled_length(20_000, dpi);
    let bx: i64 = (w as i64) * 1000;
    let by: i64 = (h as i64) * 1000;
    let hm: i64 = by;
    proof {
        lemma_div_trunc_bound((y2 - y1) as int, 2, 2_000_000_000_000_000);
    }
    let ymid: i64 = y1 + (div_i128((y2 - y1) as i128, 2) as i64);

    // panel background, plot area, mid gridline
    push_quad_rect(solid, (x1, y1), (x2, y2), bx, by, WHITE);
    push_quad_rect(solid, (x1 + pa6, y1 + pa10), (x2 - pa44, y2 - pa10), bx, by, GREEN);
    push_quad_rect(solid, (x1, ymid - pa1), (x2 - pa44, ymid + pa1), bx, by, WHITE);
    let ghost base3 = solid@;

    // rounded corner, edge and join decorations from the atlas
    push_quad_tex_rect(tex, (x1 - pa16, y1 - pa16), (x1, y1), bx, by, AtlasRegion::Tx2);
    push_quad_tex_rect(tex, (x2 + pa16, y2 + pa16), (x2, y2), bx, by, AtlasRegion::Tx4);
    push_quad_tex_rect(tex, (x1 - pa16, y2 + pa16), (x1, y2), bx, by, AtlasRegion::Tx1);
    push_quad_tex_rect(tex, (x2 + pa16, y1 - pa16), (x2, y1), bx, by, AtlasRegion::Tx3);
    push_quad_tex_rect(tex, (x1, y1 - pa16), (x2, y1), bx, by, AtlasRegion::Tx6);
    push_quad_tex_rect(tex, (x1 - pa16, y1), (x1, y2), bx, by, AtlasRegion::Tx5);
    push_quad_tex_rect(tex, (x1, y2), (x2, y2 + pa16), bx, by, AtlasRegion::Tx8);
    push_quad_tex_rect(tex, (x2, y1), (x2 + pa16, y2), bx, by, AtlasRegion::Tx7);
    push_quad_tex_rect(tex, (x1 - pa6, y1 - pa6), (x1 + pa10, y1 + pa10), bx, by, AtlasRegion::Tx10);
    push_quad_tex_rect(
        tex,
        (x2 - pa48, y2 - pa10),
        (x2 - pa32, y2 + pa6),
        bx,
        by,
        AtlasRegion::Tx12,
    );
    push_quad_tex_rect(tex, (x1 - pa6, y2 - pa10), (x1 + pa10, y2 + pa6), bx, by, AtlasRegion::Tx9);
    push_quad_tex_rect(
        tex,
        (x2 - pa48, y1 - pa6),
        (x2 - pa32, y1 + pa10),
        bx,
        by,
        AtlasRegion::Tx11,
    );
    push_quad_tex_rect(tex, (x1 - pa6, y1 + pa10), (x1 + pa10, y2 - pa10), bx, by, AtlasRegion::Tx13);
    push_quad_tex_rect(
        tex,
        (x1 + pa10, y1 - pa6),
        (x2 - pa48, y1 + pa10),
        bx,
        by,
        AtlasRegion::Tx14,
    );
    push_quad_tex_rect(tex, (x1 + pa10, y2 - pa10), (x2 - pa48, y2 + pa6), bx, by, AtlasRegion::Tx16);
    push_quad_tex_rect(
        tex,
        (x2 - pa48, y1 + pa10),
        (x2 - pa32, y2 - pa10),
        bx,
        by,
        AtlasRegion::Tx15,
    );
    proof {
        assert(tex@ =~= old(tex)@ + spec_panel_tex(
            n as int,
            w as int,
            h as int,
            dpi as int,
            idx as int,
        ));
    }

    // current value and half-value labels, and the hover tooltip
    let range: i64 = c.display_range(t);
    let label1: String = u64_to_string(((range as u64) + 500) / 1000);
    let label2: String = u64_to_string((((range as u64) / 2) + 500) / 1000);
    texts.push(
        TextRequest {
            x: x2 - pa32 + pa13,
            y: hm - (y2 - pa6),
            w: pa26,
            h: pa20,
            text: label1,
            scale: scale20,
            centered: true,
        },
    );
    texts.push(
        TextRequest {
            x: x2 - pa32 + pa13,
            y: hm - (ymid + pa5),
            w: pa26,
            h: pa20,
            text: label2,
            scale: scale20,
            centered: true,
        },
    );
    let cxm: i64 = (cx as i64) * 1000;
    let cym: i64 = (cy as i64) * 1000;
    if cxm > x1 - pa6 && cxm < x2 + pa6 && hm - cym > y1 - pa6 && hm - cym < y2 + pa6 {
        texts.push(
            TextRequest {
                x: x1 + pa18,
                y: hm - (y2 - pa18),
                w: x2 - pa6 - pa44 - x1 - pa18,
                h: y2 - pa18 - y1 - pa18,
                text: c.path().clone(),
                scale: scale20,
                centered: false,
            },
        );
    }
    proof {
        assert(texts@.map_values(|tr: TextRequest| tr@) =~= old(texts)@.map_values(
            |tr: TextRequest| tr@,
        ) + spec_panel_texts(
            *c,
            n as int,
            w as int,
            h as int,
            dpi as int,
            cx as int,
            cy as int,
            t as int,
            idx as int,
        ));
    }

    // per-instance curve ribbons and cover strips
    proof {
        c.lemma_curves_shape();
    }
    let ghost texsnap = tex@;
    let ghost textsnap = texts@;
    let nc: usize = c.curve_count();
    let mut i: usize = 0;
    while i < nc
        invariant
            c.wf(),
            nc == c.curves_spec().len(),
            0 <= i <= nc,
            nc == 0 || nc == c.instance_count(),
            idx < n <= MAX_PANELS,
            1 <= w <= MAX_VIEWPORT,
            1 <= h <= MAX_VIEWPORT,
            1 <= dpi <= MAX_DPI,
            0 <= t < 1000,
            (x1 as int, y1 as int, x2 as int, y2 as int) == spec_panel_rect(
                n as int,
                w as int,
                h as int,
                dpi as int,
                idx as int,
            ),
            -1_000_000_000_000_000 <= x1 <= 1_000_000_000_000_000,
            -1_000_000_000_000_000 <= y1 <= 1_000_000_000_000_000,
            -1_000_000_000_000_000 <= x2 <= 1_000_000_000_000_000,
            -1_000_000_000_000_000 <= y2 <= 1_000_000_000_000_000,
            pa44 as int == spec_scaled(88_000, dpi as int),
            pa18 as int == spec_scaled(36_000, dpi as int),
            pa10 as int == spec_scaled(20_000, dpi as int),
            pa6 as int == spec_scaled(12_000, dpi as int),
            pa2and5 as int == spec_scaled(5_000, dpi as int),
            0 <= pa44 <= 7_000_000,
            0 <= pa18 <= 7_000_000,
            0 <= pa10 <= 7_000_000,
            0 <= pa6 <= 7_000_000,
            0 <= pa2and5 <= 1_000_000,
            bx == (w as int) * 1000,
            by == (h as int) * 1000,
            1 <= bx <= 200_000_000,
            1 <= by <= 200_000_000,
            range as int == panel_range(*c, t as int),
            1000 <= range <= 4_000_000_000_000_000,
            tex@ == texsnap,
            texts@ == textsnap,
            solid@ + spec_panel_instances(
                *c,
                n as int,
                w as int,
                h as int,
                dpi as int,
                t as int,
                idx as int,
                i as int,
            ) == base3 + spec_panel_instances(
                *c,
                n as int,
                w as int,
                h as int,
                dpi as int,
                t as int,
                idx as int,
                0,
            ),
        decreases nc - i,
    {
        let ghost presolid = solid@;
        let curve = c.curve(i);
        let color: [u8; 4] = c.color(i);
        let segs: usize = curve.seg_count();
        if segs >= 2 {
            let x0: i64 = x1 + pa6;
            let py0: i64 = y1 + pa18;
            let ph: i64 = y2 - pa18 - y1 - pa18;
            proof {
                lemma_div_trunc_bound(
                    (x2 - pa6 - pa44 - x1) as int,
                    segs as int - 1,
                    3_000_000_000_000_000,
                );
            }
            let step: i64 = div_i128((x2 - pa6 - pa44 - x1) as i128, (segs - 1) as i128) as i64;
            emit_ribbon(solid, curve, color, x0, t, step, py0, ph, range, pa2and5, bx, by);
            push_quad_rect(solid, (x1, y1), (x2, y1 + pa10), bx, by, WHITE);
            push_quad_rect(solid, (x1, y2), (x2, y2 - pa10), bx, by, WHITE);
        }
        proof {
            assert(solid@ + spec_panel_instances(
                *c,
                n as int,
                w as int,
                h as int,
                dpi as int,
                t as int,
                idx as int,
                i as int + 1,
            ) =~= presolid + spec_panel_instances(
                *c,
                n as int,
                w as int,
                h as int,
                dpi as int,
                t as int,
                idx as int,
                i as int,
            ));
        }
        i = i + 1;
    }
    proof {
        assert(spec_panel_instances(
            *c,
            n as int,
            w as int,
            h as int,
            dpi as int,
            t as int,
            idx as int,
            nc as int,
        ) =~= Seq::<Vertex>::empty());
        assert(solid@ =~= old(solid)@ + spec_panel_solid(
            *c,
            n as int,
            w as int,
            h as int,
            dpi as int,
            t as int,
            idx as int,
        ));
    }
}

/// Tessellates one frame: every tracked metric, ordered by position,
/// becomes one panel of solid quads, atlas decoration and text
/// requests. A pure function of its arguments: identical inputs give
/// bit-identical output.
#[verifier::rlimit(100)]
pub fn tessellate(query: &QueryV2, w: u32, h: u32, dpi: u32, cx: i32, cy: i32, t: i64) -> (r:
    TessOutput)
    requires
        query.wf(),
        query.entries().len() <= MAX_PANELS,
        1 <= w <= MAX_VIEWPORT,
        1 <= h <= MAX_VIEWPORT,
        1 <= dpi <= MAX_DPI,
        0 <= t < 1000,
    ensures
        r.solid@ == spec_solid_all(
            query.counters_spec(),
            query.entries().len() as int,
            w as int,
            h as int,
            dpi as int,
            t as int,
            0,
        ),
        r.textured@ == spec_tex_all(
            query.entries().len() as int,
            w as int,
            h as int,
            dpi as int,
            0,
        ),
        r.texts@.map_values(|tr: TextRequest| tr@) == spec_texts_all(
            query.counters_spec(),
            query.entries().len() as int,
            w as int,
            h as int,
            dpi as int,
            cx as int,
            cy as int,
            t as int,
            0,
        ),
{
    let n: usize = query.counter_count();
    let mut solid: Vec<Vertex> = Vec::new();
    let mut tex: Vec<TextureVertex> = Vec::new();
    let mut texts: Vec<TextRequest> = Vec::new();
    let ghost cs = query.counters_spec();
    let mut idx: usize = 0;
    while idx < n
        invariant
            query.wf(),
            cs == query.counters_spec(),
            n == query.entries().len(),
            n <= MAX_PANELS,
            0 <= idx <= n,
            1 <= w <= MAX_VIEWPORT,
            1 <= h <= MAX_VIEWPORT,
            1 <= dpi <= MAX_DPI,
            0 <= t < 1000,
            solid@ + spec_solid_all(cs, n as int, w as int, h as int, dpi as int, t as int, idx as int)
                == spec_solid_all(cs, n as int, w as int, h as int, dpi as int, t as int, 0),
            tex@ + spec_tex_all(n as int, w as int, h as int, dpi as int, idx as int)
                == spec_tex_all(n as int, w as int, h as int, dpi as int, 0),
            texts@.map_values(|tr: TextRequest| tr@) + spec_texts_all(
                cs,
                n as int,
                w as int,
                h as int,
                dpi as int,
                cx as int,
                cy as int,
                t as int,
                idx as int,
            ) == spec_texts_all(
                cs,
                n as int,
                w as int,
                h as int,
                dpi as int,
                cx as int,
                cy as int,
                t as int,
                0,
            ),
        decreases n - idx,
    {
        let ghost presolid = solid@;
        let ghost pretex = tex@;
        let ghost pretexts = texts@.map_values(|tr: TextRequest| tr@);
        let c: &CounterV2 = query.counter_at(idx);
        emit_panel(&mut solid, &mut tex, &mut texts, c, idx, n, w, h, dpi, cx, cy, t);
        proof {
            assert(solid@ + spec_solid_all(
                cs,
                n as int,
                w as int,
                h as int,
                dpi as int,
                t as int,
                idx as int + 1,
            ) =~= presolid + spec_solid_all(
                cs,
                n as int,
                w as int,
                h as int,
                dpi as int,
                t as int,
                idx as int,
            ));
            assert(tex@ + spec_tex_all(n as int, w as int, h as int, dpi as int, idx as int + 1)
                =~= pretex + spec_tex_all(n as int, w as int, h as int, dpi as int, idx as int));
            assert(texts@.map_values(|tr: TextRequest| tr@) + spec_texts_all(
                cs,
                n as int,
                w as int,
                h as int,
                dpi as int,
                cx as int,
                cy as int,
                t as int,
                idx as int + 1,
            ) =~= pretexts + spec_texts_all(
                cs,
                n as int,
                w as int,
                h as int,
                dpi as int,
                cx as int,
                cy as int,
                t as int,
                idx as int,
            ));
        }
        idx = idx + 1;
    }
    proof {
        assert(solid@ =~= spec_solid_all(cs, n as int, w as int, h as int, dpi as int, t as int, 0));
        assert(tex@ =~= spec_tex_all(n as int, w as int, h as int, dpi as int, 0));
        assert(texts@.map_values(|tr: TextRequest| tr@) =~= spec_texts_all(
            cs,
            n as int,
            w as int,
            h as int,
            dpi as int,
            cx as int,
            cy as int,
            t as int,
            0,
        ));
    }
    TessOutput { solid, textured: tex, texts }
}

} // verus!
