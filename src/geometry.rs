use vstd::prelude::*;

verus! {

/// An axis-aligned rectangle in logical pixels: top-left corner and size.
#[derive(Debug, Clone, Copy, PartialEq, Eq, Structural)]
pub struct Rect {
    pub x: i32,
    pub y: i32,
    pub w: i32,
    pub h: i32,
}

impl Rect {
    /// The size is non-negative and the far edges are representable.
    pub open spec fn wf(&self) -> bool {
        &&& self.w >= 0
        &&& self.h >= 0
        &&& self.x + self.w <= i32::MAX
        &&& self.y + self.h <= i32::MAX
    }

    pub open spec fn contains_rect(&self, o: Rect) -> bool {
        &&& self.x <= o.x
        &&& self.y <= o.y
        &&& o.x + o.w <= self.x + self.w
        &&& o.y + o.h <= self.y + self.h
    }

    pub fn new(x: i32, y: i32, w: i32, h: i32) -> (r: Rect)
        ensures
            r == (Rect { x, y, w, h }),
    {
        Rect { x, y, w, h }
    }

    /// The rectangle of the given size at the origin.
    pub fn from_size(w: i32, h: i32) -> (r: Rect)
        ensures
            r == (Rect { x: 0, y: 0, w, h }),
    {
        Rect { x: 0, y: 0, w, h }
    }
}

/// The rectangle that `shrink` yields: each edge moves inwards by its
/// thickness, but never past the opposite edge.
pub open spec fn shrink_spec(r: Rect, t: Thickness) -> Rect {
    let dl = if t.left as int <= r.w as int { t.left as int } else { r.w as int };
    let dr = if t.right as int <= r.w - dl { t.right as int } else { r.w - dl };
    let dt = if t.top as int <= r.h as int { t.top as int } else { r.h as int };
    let db = if t.bottom as int <= r.h - dt { t.bottom as int } else { r.h - dt };
    Rect {
        x: (r.x + dl) as i32,
        y: (r.y + dt) as i32,
        w: (r.w - dl - dr) as i32,
        h: (r.h - dt - db) as i32,
    }
}

/// `r` with each edge moved inwards by `t`, as `shrink_spec` says.
pub fn shrink(r: Rect, t: &Thickness) -> (s: Rect)
    requires
        r.wf(),
    ensures
        s == shrink_spec(r, *t),
        s.wf(),
        r.contains_rect(s),
{
    let w = r.w as u32;
    let h = r.h as u32;
    let dl = if t.left <= w { t.left } else { w };
    let dr = if t.right <= w - dl { t.right } else { w - dl };
    let dt = if t.top <= h { t.top } else { h };
    let db = if t.bottom <= h - dt { t.bottom } else { h - dt };
    Rect {
        x: r.x + dl as i32,
        y: r.y + dt as i32,
        w: (w - dl - dr) as i32,
        h: (h - dt - db) as i32,
    }
}

/// Left half of `r` (the smaller half when the width is odd).
pub open spec fn left_half(r: Rect) -> Rect {
    Rect { x: r.x, y: r.y, w: (r.w / 2) as i32, h: r.h }
}

/// Right half of `r`: what `left_half` leaves.
pub open spec fn right_half(r: Rect) -> Rect {
    Rect { x: (r.x + r.w / 2) as i32, y: r.y, w: (r.w - r.w / 2) as i32, h: r.h }
}

/// Top edge offset of strip `i` when the height `h` is cut into `k` strips.
pub open spec fn strip_edge(h: int, i: int, k: int) -> int {
    h * i / k
}

/// Strip `i` of `k` horizontal strips of equal height (up to rounding)
/// stacked from top to bottom.
pub open spec fn strip(r: Rect, i: int, k: int) -> Rect {
    Rect {
        x: r.x,
        y: (r.y + strip_edge(r.h as int, i, k)) as i32,
        w: r.w,
        h: (strip_edge(r.h as int, i + 1, k) - strip_edge(r.h as int, i, k)) as i32,
    }
}

/// Cuts `r` into its left and right halves.
pub fn split_left_right(r: Rect) -> (res: (Rect, Rect))
    requires
        r.wf(),
    ensures
        res.0 == left_half(r),
        res.1 == right_half(r),
        res.0.wf(),
        res.1.wf(),
        r.contains_rect(res.0),
        r.contains_rect(res.1),
{
    let lw = r.w / 2;
    (Rect { x: r.x, y: r.y, w: lw, h: r.h }, Rect { x: r.x + lw, y: r.y, w: r.w - lw, h: r.h })
}

/// Strip edges grow with the strip index and stay within the height.
pub proof fn lemma_strip_edge_mono(h: int, i: int, j: int, k: int)
    requires
        h >= 0,
        0 <= i <= j <= k,
        k > 0,
    ensures
        0 <= strip_edge(h, i, k) <= strip_edge(h, j, k) <= h,
{
    assert(h * i <= h * j) by (nonlinear_arith)
        requires
            h >= 0,
            i <= j,
    ;
    assert(h * j <= h * k) by (nonlinear_arith)
        requires
            h >= 0,
            j <= k,
    ;
    assert(0 <= h * i) by (nonlinear_arith)
        requires
            h >= 0,
            i >= 0,
    ;
    assert(h * i / k <= h * j / k) by (nonlinear_arith)
        requires
            h * i <= h * j,
            k > 0,
    ;
    assert(h * j / k <= h * k / k) by (nonlinear_arith)
        requires
            h * j <= h * k,
            k > 0,
    ;
    assert(h * k / k == h) by (nonlinear_arith)
        requires
            k > 0,
    ;
    assert(0 <= h * i / k) by (nonlinear_arith)
        requires
            h * i >= 0,
            k > 0,
    ;
}

/// Strip `i` of `r` cut into `k` horizontal strips.
pub fn strip_of(r: Rect, i: usize, k: usize) -> (s: Rect)
    requires
        r.wf(),
        i < k,
    ensures
        s == strip(r, i as int, k as int),
        s.wf(),
        r.contains_rect(s),
{
    proof {
        lemma_strip_edge_mono(r.h as int, i as int, i as int + 1, k as int);
        assert((r.h as int) * (i as int) <= (r.h as int) * (i as int + 1)) by (nonlinear_arith)
            requires
                r.h >= 0,
        ;
        assert((r.h as int) * (i as int + 1) <= (r.h as int) * (k as int)) by (nonlinear_arith)
            requires
                r.h >= 0,
                i < k,
        ;
        assert((r.h as int) * (k as int) <= 0x7fff_ffff * 0xffff_ffff_ffff_ffff) by (
        nonlinear_arith)
            requires
                0 <= r.h <= 0x7fff_ffff,
                0 <= k <= 0xffff_ffff_ffff_ffff,
        ;
    }
    let h = r.h as u128;
    let top = (h * i as u128 / k as u128) as i32;
    let bottom = (h * (i as u128 + 1) / k as u128) as i32;
    Rect { x: r.x, y: r.y + top, w: r.w, h: bottom - top }
}

/// Widths of the four edges of a frame.
#[derive(Debug, Clone, Copy, PartialEq, Eq, Structural)]
pub struct Thickness {
    pub top: u32,
    pub right: u32,
    pub bottom: u32,
    pub left: u32,
}

impl Thickness {
    /// The same width on all four edges.
    pub fn uniform(x: u32) -> (r: Thickness)
        ensures
            r == (Thickness { top: x, right: x, bottom: x, left: x }),
    {
        Thickness { top: x, right: x, bottom: x, left: x }
    }

    /// `y` on top and bottom, `x` on right and left.
    pub fn symmetric(y: u32, x: u32) -> (r: Thickness)
        ensures
            r == (Thickness { top: y, right: x, bottom: y, left: x }),
    {
        Thickness { top: y, right: x, bottom: y, left: x }
    }

    pub fn from_edges(top: u32, right: u32, bottom: u32, left: u32) -> (r: Thickness)
        ensures
            r == (Thickness { top, right, bottom, left }),
    {
        Thickness { top, right, bottom, left }
    }
}

impl From<u32> for Thickness {
    fn from(x: u32) -> (r: Thickness) {
        Thickness::uniform(x)
    }
}

impl vstd::std_specs::convert::FromSpecImpl<u32> for Thickness {
    open spec fn obeys_from_spec() -> bool {
        true
    }

    open spec fn from_spec(x: u32) -> Thickness {
        Thickness { top: x, right: x, bottom: x, left: x }
    }
}

impl From<(u32, u32)> for Thickness {
    fn from(yx: (u32, u32)) -> (r: Thickness) {
        Thickness::symmetric(yx.0, yx.1)
    }
}

impl vstd::std_specs::convert::FromSpecImpl<(u32, u32)> for Thickness {
    open spec fn obeys_from_spec() -> bool {
        true
    }

    open spec fn from_spec(yx: (u32, u32)) -> Thickness {
        Thickness { top: yx.0, right: yx.1, bottom: yx.0, left: yx.1 }
    }
}

impl From<(u32, u32, u32, u32)> for Thickness {
    fn from(e: (u32, u32, u32, u32)) -> (r: Thickness) {
        Thickness::from_edges(e.0, e.1, e.2, e.3)
    }
}

impl vstd::std_specs::convert::FromSpecImpl<(u32, u32, u32, u32)> for Thickness {
    open spec fn obeys_from_spec() -> bool {
        true
    }

    open spec fn from_spec(e: (u32, u32, u32, u32)) -> Thickness {
        Thickness { top: e.0, right: e.1, bottom: e.2, left: e.3 }
    }
}

/// A colour with 8 bits per channel.
#[derive(Debug, Clone, Copy, PartialEq, Eq, Structural)]
pub struct Rgba {
    pub r: u8,
    pub g: u8,
    pub b: u8,
    pub a: u8,
}

impl Rgba {
    /// Reads `0xRRGGBBAA`.
    pub fn from_rgba(hex: u32) -> (c: Rgba)
        ensures
            c.r as int == hex as int / 0x100_0000,
            c.g as int == (hex as int / 0x1_0000) % 0x100,
            c.b as int == (hex as int / 0x100) % 0x100,
            c.a as int == hex as int % 0x100,
    {
        let r = (hex >> 24u32) as u8;
        let g = (hex >> 16u32) as u8;
        let b = (hex >> 8u32) as u8;
        let a = hex as u8;
        assert(r == hex / 0x100_0000) by (bit_vector)
            requires
                r == (hex >> 24u32) as u8,
        ;
        assert(g == (hex / 0x1_0000) % 0x100) by (bit_vector)
            requires
                g == (hex >> 16u32) as u8,
        ;
        assert(b == (hex / 0x100) % 0x100) by (bit_vector)
            requires
                b == (hex >> 8u32) as u8,
        ;
        assert(a == hex % 0x100) by (bit_vector)
            requires
                a == hex as u8,
        ;
        Rgba { r, g, b, a }
    }

    /// Reads `0xRRGGBB`, fully opaque.
    pub fn from_rgb(hex: u32) -> (c: Rgba)
        requires
            hex < 0x100_0000,
        ensures
            c.r as int == hex as int / 0x1_0000,
            c.g as int == (hex as int / 0x100) % 0x100,
            c.b as int == hex as int % 0x100,
            c.a == 0xff,
    {
        let r = (hex >> 16u32) as u8;
        let g = (hex >> 8u32) as u8;
        let b = hex as u8;
        assert(r == hex / 0x1_0000) by (bit_vector)
            requires
                r == (hex >> 16u32) as u8,
                hex < 0x100_0000,
        ;
        assert(g == (hex / 0x100) % 0x100) by (bit_vector)
            requires
                g == (hex >> 8u32) as u8,
        ;
        assert(b == hex % 0x100) by (bit_vector)
            requires
                b == hex as u8,
        ;
        Rgba { r, g, b, a: 0xff }
    }
}

/// Decoration drawn around a window.
#[derive(Debug, Clone, Copy, PartialEq, Eq, Structural)]
pub struct Border {
    pub dim: Thickness,
    pub active_rgba: Rgba,
    pub inactive_rgba: Rgba,
}

/// The border a layout leaf gives a window before any decorator runs.
pub open spec fn plain_border() -> Border {
    Border {
        dim: Thickness { top: 0, right: 0, bottom: 0, left: 0 },
        active_rgba: Rgba { r: 0, g: 0, b: 0, a: 0xff },
        inactive_rgba: Rgba { r: 0, g: 0, b: 0, a: 0xff },
    }
}

/// The border of `plain_border`.
pub fn make_plain_border() -> (b: Border)
    ensures
        b == plain_border(),
{
    let black = Rgba { r: 0, g: 0, b: 0, a: 0xff };
    Border { dim: Thickness::uniform(0), active_rgba: black, inactive_rgba: black }
}

/// Where a window goes and how it is framed.
#[derive(Debug, Clone, Copy, PartialEq, Eq, Structural)]
pub struct WindowProps {
    pub geometry: Rect,
    pub border: Border,
}

} // verus!
