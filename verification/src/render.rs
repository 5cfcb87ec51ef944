//! Image rendering primitives for keys.
//!
//! Everything a key shows is a 72×72 RGB tile. Icons are fit (aspect-preserving,
//! centered on black) to 72×72 so that the deck does not stretch them. Widget
//! graphs are drawn directly onto these tiles.

use vstd::prelude::*;

use crate::path;
use crate::text;

verus! {

/// Stream Deck MK.2 key dimension (square).
pub const KEY_SIZE: u32 = 72;

/// The number of pixels of a tile.
pub const TILE_PIXELS: usize = 5184;

/// Uniform margin (px per side) left around trimmed (transparent) icons so they
/// all have consistent padding regardless of the artwork's own border.
pub const ICON_MARGIN: u32 = 8;

/// The square that trimmed icons are fit into.
pub const ICON_FIT: u32 = KEY_SIZE - 2 * ICON_MARGIN;

/// A color.
#[derive(Debug, Clone, Copy, PartialEq, Eq, Structural)]
pub struct Rgb {
    pub r: u8,
    pub g: u8,
    pub b: u8,
}

/// Black.
pub open spec fn black() -> Rgb {
    Rgb { r: 0, g: 0, b: 0 }
}

/// What a key shows: its pixels, row by row from the top.
#[derive(Debug, Clone)]
pub struct Tile {
    pub pixels: Vec<Rgb>,
}

impl View for Tile {
    type V = Seq<Rgb>;

    open spec fn view(&self) -> Seq<Rgb> {
        self.pixels@
    }
}

impl Tile {
    /// A tile has all its pixels.
    pub open spec fn wf(self) -> bool {
        self@.len() == TILE_PIXELS
    }

    /// The pixel in column `x` of row `y`.
    pub open spec fn at(self, x: int, y: int) -> Rgb {
        self@[72 * y + x]
    }

    /// Whether two tiles show the same.
    pub open spec fn shows(self, f: spec_fn(int, int) -> Rgb) -> bool {
        &&& self.wf()
        &&& forall|x: int, y: int|
            0 <= x < 72 && 0 <= y < 72 ==> #[trigger] self.at(x, y) == f(x, y)
    }

    /// A tile of one color.
    pub fn from_pixel(color: Rgb) -> (r: Tile)
        ensures
            r.shows(|x: int, y: int| color),
    {
        let mut pixels: Vec<Rgb> = Vec::new();
        let mut i: usize = 0;
        while i < TILE_PIXELS
            invariant
                i <= TILE_PIXELS,
                pixels.len() == i,
                forall|j: int| 0 <= j < i ==> pixels@[j] == color,
            decreases TILE_PIXELS - i,
        {
            pixels.push(color);
            i = i + 1;
        }
        Tile { pixels }
    }

    /// Set one pixel.
    pub fn put_pixel(&mut self, x: u32, y: u32, color: Rgb)
        requires
            old(self).wf(),
            x < 72,
            y < 72,
        ensures
            final(self).wf(),
            forall|px: int, py: int|
                0 <= px < 72 && 0 <= py < 72 ==> #[trigger] final(self).at(px, py) == (if px == x
                    && py == y {
                    color
                } else {
                    old(self).at(px, py)
                }),
    {
        let i: usize = 72 * y as usize + x as usize;
        self.pixels.set(i, color);
    }

    /// One pixel.
    pub fn pixel(&self, x: u32, y: u32) -> (r: Rgb)
        requires
            self.wf(),
            x < 72,
            y < 72,
        ensures
            r == self.at(x as int, y as int),
    {
        self.pixels[72 * y as usize + x as usize]
    }

    /// The same tile again.
    pub fn copy(&self) -> (r: Tile)
        ensures
            r@ == self@,
    {
        let mut pixels: Vec<Rgb> = Vec::new();
        let mut i: usize = 0;
        while i < self.pixels.len()
            invariant
                i <= self.pixels.len(),
                pixels@ == self.pixels@.take(i as int),
            decreases self.pixels.len() - i,
        {
            pixels.push(self.pixels[i]);
            i = i + 1;
            assert(pixels@ =~= self.pixels@.take(i as int));
        }
        assert(self.pixels@.take(self.pixels@.len() as int) =~= self.pixels@);
        Tile { pixels }
    }
}

/// A fully black (off) tile: what an unconfigured or blanked key shows.
pub fn blank_tile() -> (r: Tile)
    ensures
        r.shows(|x: int, y: int| black()),
{
    Tile::from_pixel(Rgb { r: 0, g: 0, b: 0 })
}

// --- Drawing primitives ----------------------------------------------------

/// Whether a pixel lies in a rectangle.
pub open spec fn in_rect(px: int, py: int, x: int, y: int, w: int, h: int) -> bool {
    x <= px < x + w && y <= py < y + h
}

/// The nearest border between pixels of the tile.
pub open spec fn clipped(v: int) -> int {
    if v < 0 {
        0
    } else if v > 72 {
        72
    } else {
        v
    }
}

/// The part of a span that lies on the tile.
fn clip(from: i32, len: u32) -> (r: (u32, u32))
    ensures
        r.0 == clipped(from as int),
        r.1 == clipped(from + len),
{
    let end: i64 = from as i64 + len as i64;
    let lo: u32 = if from < 0 {
        0
    } else if from > 72 {
        72
    } else {
        from as u32
    };
    let hi: u32 = if end < lo as i64 {
        lo
    } else if end > 72 {
        72
    } else {
        end as u32
    };
    (lo, hi)
}

/// Fill a rectangle (clipped to the tile bounds). `x`/`y` may be negative.
pub fn fill_rect(tile: &mut Tile, x: i32, y: i32, w: u32, h: u32, color: Rgb)
    requires
        old(tile).wf(),
    ensures
        final(tile).wf(),
        forall|px: int, py: int|
            0 <= px < 72 && 0 <= py < 72 ==> #[trigger] final(tile).at(px, py) == (if in_rect(
                px,
                py,
                x as int,
                y as int,
                w as int,
                h as int,
            ) {
                color
            } else {
                old(tile).at(px, py)
            }),
{
    let (x0, x1) = clip(x, w);
    let (y0, y1) = clip(y, h);
    let mut py: u32 = y0;
    while py < y1
        invariant
            tile.wf(),
            x0 <= x1 <= 72,
            y0 <= py <= y1 <= 72,
            forall|a: int, b: int|
                0 <= a < 72 && 0 <= b < 72 ==> #[trigger] tile.at(a, b) == (if x0 <= a < x1 && y0
                    <= b < py {
                    color
                } else {
                    old(tile).at(a, b)
                }),
        decreases y1 - py,
    {
        let mut px: u32 = x0;
        while px < x1
            invariant
                tile.wf(),
                x0 <= px <= x1 <= 72,
                y0 <= py < y1 <= 72,
                forall|a: int, b: int|
                    0 <= a < 72 && 0 <= b < 72 ==> #[trigger] tile.at(a, b) == (if x0 <= a < x1
                        && y0 <= b < py || x0 <= a < px && b == py {
                        color
                    } else {
                        old(tile).at(a, b)
                    }),
            decreases x1 - px,
        {
            tile.put_pixel(px, py, color);
            px = px + 1;
        }
        py = py + 1;
    }
}

/// The bundled failure-feedback icon: a red tile with a white exclamation mark.
pub open spec fn error_icon() -> spec_fn(int, int) -> Rgb {
    |x: int, y: int|
        if 31 <= x < 41 && (14 <= y < 44 || 50 <= y < 60) {
            Rgb { r: 255, g: 255, b: 255 }
        } else {
            Rgb { r: 180, g: 30, b: 30 }
        }
}

/// The bundled default failure-feedback icon: a red tile with a white exclamation
/// mark, drawn from rectangles. Overridable via `error_icon` in the config.
pub fn default_error_icon() -> (r: Tile)
    ensures
        r.shows(error_icon()),
{
    let mut tile = Tile::from_pixel(Rgb { r: 180, g: 30, b: 30 });
    let white = Rgb { r: 255, g: 255, b: 255 };
    // Exclamation bar: a centered vertical bar...
    let bar_w: i32 = 10;
    let cx: i32 = (KEY_SIZE / 2) as i32 - bar_w / 2;
    fill_rect(&mut tile, cx, 14, bar_w as u32, 30, white);
    // ...and the dot beneath it.
    fill_rect(&mut tile, cx, 50, bar_w as u32, 10, white);
    tile
}

// --- Pictures --------------------------------------------------------------

/// The channels of a pixel: red, green, blue, alpha.
pub type Channels = (u8, u8, u8, u8);

/// An image with straight alpha: four bytes per pixel, row by row from the top.
#[derive(Debug, Clone)]
pub struct Picture {
    pub width: u32,
    pub height: u32,
    pub bytes: Vec<u8>,
}

impl Picture {
    /// The number of pixels.
    pub open spec fn count(self) -> int {
        self.width * self.height
    }

    /// A picture has all its pixels.
    pub open spec fn wf(self) -> bool {
        self.bytes.len() == 4 * self.count()
    }

    /// The pixel at a position in the row-by-row order.
    pub open spec fn pixel(self, k: int) -> Channels {
        (
            self.bytes@[4 * k],
            self.bytes@[4 * k + 1],
            self.bytes@[4 * k + 2],
            self.bytes@[4 * k + 3],
        )
    }

    /// The pixel in column `x` of row `y`.
    pub open spec fn at(self, x: int, y: int) -> Channels {
        self.pixel(y * self.width + x)
    }

    /// Whether the picture has a pixel there.
    pub open spec fn has(self, x: int, y: int) -> bool {
        0 <= x < self.width && 0 <= y < self.height
    }

    /// Whether the picture has no pixel at all.
    pub open spec fn is_empty(self) -> bool {
        self.width == 0 || self.height == 0
    }

    /// Whether the rows that resizing works on fit the machine.
    pub open spec fn resizable(self) -> bool {
        self.width * 1152 <= isize::MAX
    }
}

/// The position of a pixel lies within the picture.
proof fn position(x: int, y: int, w: int, h: int)
    by (nonlinear_arith)
    requires
        0 <= x < w,
        0 <= y < h,
    ensures
        0 <= y * w + x < w * h,
{
}

/// Whether every pixel is (near-)opaque.
pub open spec fn is_opaque(p: Picture) -> bool {
    forall|k: int| 0 <= k < p.count() ==> #[trigger] p.pixel(k).3 >= 250
}

/// True if every pixel is (near-)opaque, i.e. there's no transparency to trim.
pub fn fully_opaque(p: &Picture) -> (r: bool)
    requires
        p.wf(),
    ensures
        r == is_opaque(*p),
{
    let mut i: usize = 0;
    let ghost mut k: int = 0;
    while i < p.bytes.len()
        invariant
            p.wf(),
            i == 4 * k,
            0 <= k <= p.count(),
            forall|j: int| 0 <= j < k ==> #[trigger] p.pixel(j).3 >= 250,
        decreases p.bytes.len() - i,
    {
        if p.bytes[i + 3] < 250 {
            assert(p.pixel(k).3 < 250);
            return false;
        }
        proof {
            k = k + 1;
        }
        i = i + 4;
    }
    true
}

/// Whether a pixel has meaningful opacity.
pub open spec fn is_content(p: Picture, x: int, y: int) -> bool {
    p.has(x, y) && p.at(x, y).3 >= 16
}

/// Whether a column has content.
pub open spec fn column_has(p: Picture, x: int) -> bool {
    exists|y: int| is_content(p, x, y)
}

/// Whether a row has content.
pub open spec fn row_has(p: Picture, y: int) -> bool {
    exists|x: int| is_content(p, x, y)
}

/// Whether a box holds all content and touches it on each side.
pub open spec fn is_bbox(p: Picture, x: int, y: int, w: int, h: int) -> bool {
    &&& forall|a: int, b: int| #[trigger] is_content(p, a, b) ==> in_rect(a, b, x, y, w, h)
    &&& column_has(p, x)
    &&& column_has(p, x + w - 1)
    &&& row_has(p, y)
    &&& row_has(p, y + h - 1)
}

/// There is no more than one such box.
pub proof fn one_bbox(
    p: Picture,
    x: int,
    y: int,
    w: int,
    h: int,
    x2: int,
    y2: int,
    w2: int,
    h2: int,
)
    requires
        is_bbox(p, x, y, w, h),
        is_bbox(p, x2, y2, w2, h2),
    ensures
        x == x2,
        y == y2,
        w == w2,
        h == h2,
{
    assert forall|a: int, b: int| #[trigger] is_content(p, a, b) implies x <= a < x + w && x2 <= a
        < x2 + w2 && y <= b < y + h && y2 <= b < y2 + h2 by {}
}

/// Bounding box `(x, y, w, h)` of pixels with meaningful opacity; `None` if the
/// image is fully transparent.
pub fn content_bbox(p: &Picture) -> (r: Option<(u32, u32, u32, u32)>)
    requires
        p.wf(),
    ensures
        match r {
            Some((x, y, w, h)) => is_bbox(*p, x as int, y as int, w as int, h as int) && w > 0 && h
                > 0 && x + w <= p.width && y + h <= p.height,
            None => forall|a: int, b: int| !(#[trigger] is_content(*p, a, b)),
        },
{
    let mut found = false;
    let mut x0: u32 = 0;
    let mut y0: u32 = 0;
    let mut x1: u32 = 0;
    let mut y1: u32 = 0;
    let mut i: usize = 0;
    let mut y: u32 = 0;
    assert(0 * p.width == 0) by (nonlinear_arith);
    while y < p.height
        invariant
            p.wf(),
            y <= p.height,
            i == 4 * (y * p.width),
            found ==> x0 <= x1 < p.width && y0 <= y1 < p.height && column_has(*p, x0 as int)
                && column_has(*p, x1 as int) && row_has(*p, y0 as int) && row_has(*p, y1 as int),
            forall|a: int, b: int| #[trigger]
                is_content(*p, a, b) && b < y ==> found && x0 <= a <= x1 && y0 <= b <= y1,
        decreases p.height - y,
    {
        let mut x: u32 = 0;
        while x < p.width
            invariant
                p.wf(),
                y < p.height,
                x <= p.width,
                i == 4 * (y * p.width + x),
                found ==> x0 <= x1 < p.width && y0 <= y1 < p.height && column_has(*p, x0 as int)
                    && column_has(*p, x1 as int) && row_has(*p, y0 as int) && row_has(
                    *p,
                    y1 as int,
                ),
                forall|a: int, b: int| #[trigger]
                    is_content(*p, a, b) && (b < y || b == y && a < x) ==> found && x0 <= a <= x1
                        && y0 <= b <= y1,
            decreases p.width - x,
        {
            proof {
                position(x as int, y as int, p.width as int, p.height as int);
            }
            if p.bytes[i + 3] >= 16 {
                assert(is_content(*p, x as int, y as int));
                if !found || x < x0 {
                    x0 = x;
                }
                if !found || x > x1 {
                    x1 = x;
                }
                if !found || y < y0 {
                    y0 = y;
                }
                if !found || y > y1 {
                    y1 = y;
                }
                found = true;
            }
            x = x + 1;
            i = i + 4;
        }
        proof {
            let w = p.width as int;
            assert((y + 1) * w == y * w + w) by (nonlinear_arith);
        }
        y = y + 1;
    }
    if found {
        Some((x0, y0, x1 - x0 + 1, y1 - y0 + 1))
    } else {
        None
    }
}

/// Whether a picture is a part of another.
pub open spec fn is_crop(p: Picture, x: int, y: int, w: int, h: int, part: Picture) -> bool {
    &&& part.wf()
    &&& part.width == w
    &&& part.height == h
    &&& forall|a: int, b: int| part.has(a, b) ==> #[trigger] part.at(a, b) == p.at(x + a, y + b)
}

/// A channel of the pixel in column `x` of row `y`, in rows of `w` pixels.
pub open spec fn channel(bytes: Seq<u8>, w: int, x: int, y: int, i: int) -> u8 {
    bytes[4 * (y * w + x) + i]
}

/// The part of a picture in a box.
pub fn crop(p: &Picture, x: u32, y: u32, w: u32, h: u32) -> (r: Picture)
    requires
        p.wf(),
        x + w <= p.width,
        y + h <= p.height,
    ensures
        is_crop(*p, x as int, y as int, w as int, h as int, r),
{
    let ghost pw = p.width as int;
    let ghost wi = w as int;
    let mut bytes: Vec<u8> = Vec::new();
    let mut b: u32 = 0;
    assert(0 * wi == 0) by (nonlinear_arith);
    while b < h
        invariant
            p.wf(),
            pw == p.width,
            wi == w,
            x + w <= p.width,
            y + h <= p.height,
            b <= h,
            bytes.len() == 4 * (b * wi),
            forall|a: int, c: int, i: int|
                0 <= a < wi && 0 <= c < b && 0 <= i < 4 ==> #[trigger] channel(bytes@, wi, a, c, i)
                    == channel(p.bytes@, pw, x + a, y + c, i),
        decreases h - b,
    {
        let ghost start = bytes@;
        let mut a: u32 = 0;
        while a < w
            invariant
                p.wf(),
                pw == p.width,
                wi == w,
                x + w <= p.width,
                y + h <= p.height,
                b < h,
                a <= w,
                start.len() == 4 * (b * wi),
                bytes.len() == start.len() + 4 * a,
                bytes@.take(start.len() as int) == start,
                forall|c: int, i: int|
                    0 <= c < a && 0 <= i < 4 ==> #[trigger] channel(bytes@, wi, c, b as int, i)
                        == channel(p.bytes@, pw, x + c, y + b, i),
            decreases w - a,
        {
            let ghost before = bytes@;
            let ghost yb = y + b;
            proof {
                position(x + a, yb, pw, p.height as int);
                assert(0 <= yb * pw) by (nonlinear_arith)
                    requires
                        0 <= yb,
                        0 <= pw,
                ;
            }
            let k: usize = 4 * ((y + b) as usize * p.width as usize + (x + a) as usize);
            bytes.push(p.bytes[k]);
            bytes.push(p.bytes[k + 1]);
            bytes.push(p.bytes[k + 2]);
            bytes.push(p.bytes[k + 3]);
            proof {
                assert(bytes@.take(start.len() as int) =~= before.take(start.len() as int));
                assert forall|c: int, i: int| 0 <= c < a + 1 && 0 <= i < 4 implies #[trigger] channel(
                    bytes@,
                    wi,
                    c,
                    b as int,
                    i,
                ) == channel(p.bytes@, pw, x + c, yb, i) by {
                    if c < a {
                        assert(channel(before, wi, c, b as int, i) == channel(
                            p.bytes@,
                            pw,
                            x + c,
                            yb,
                            i,
                        ));
                    }
                }
            }
            a = a + 1;
        }
        proof {
            assert((b + 1) * wi == b * wi + wi) by (nonlinear_arith);
            assert forall|a: int, c: int, i: int|
                0 <= a < wi && 0 <= c < b + 1 && 0 <= i < 4 implies #[trigger] channel(
                bytes@,
                wi,
                a,
                c,
                i,
            ) == channel(p.bytes@, pw, x + a, y + c, i) by {
                if c < b {
                    position(a, c, wi, b as int);
                    assert(wi * b == b * wi) by (nonlinear_arith);
                    assert(channel(start, wi, a, c, i) == start[4 * (c * wi + a) + i]);
                    assert(bytes@.take(start.len() as int)[4 * (c * wi + a) + i] == bytes@[4 * (c
                        * wi + a) + i]);
                    assert(channel(start, wi, a, c, i) == channel(p.bytes@, pw, x + a, y + c, i));
                }
            }
        }
        b = b + 1;
    }
    let part = Picture { width: w, height: h, bytes };
    proof {
        assert(wi * h == h * wi) by (nonlinear_arith);
        assert forall|a: int, b: int| part.has(a, b) implies #[trigger] part.at(a, b) == p.at(
            x + a,
            y + b,
        ) by {
            assert(channel(part.bytes@, wi, a, b, 0) == channel(p.bytes@, pw, x + a, y + b, 0));
            assert(channel(part.bytes@, wi, a, b, 1) == channel(p.bytes@, pw, x + a, y + b, 1));
            assert(channel(part.bytes@, wi, a, b, 2) == channel(p.bytes@, pw, x + a, y + b, 2));
            assert(channel(part.bytes@, wi, a, b, 3) == channel(p.bytes@, pw, x + a, y + b, 3));
        }
    }
    part
}

// --- Fitting ---------------------------------------------------------------

/// The shorter side after resizing: proportional to the longer one, to the
/// nearest pixel, and at least one.
pub open spec fn short_side(short: int, long: int, size: int, out: int) -> bool {
    &&& 1 <= out <= size
    &&& 2 * (short * size - out * long) <= long
    &&& out == 1 || 2 * (out * long - short * size) <= long
}

/// Whether `out` is an outcome of scaling these bytes of a picture to fit a square of
/// `size` pixels.
pub uninterp spec fn resampled(
    width: u32,
    height: u32,
    bytes: Seq<u8>,
    size: int,
    out: Seq<u8>,
) -> bool;

/// Whether all pixels of a picture are the same.
pub open spec fn is_plain(p: Picture, c: Channels) -> bool {
    forall|k: int| 0 <= k < p.count() ==> #[trigger] p.pixel(k) == c
}

/// Whether a picture is another, resized to fit a square of `size` pixels.
pub open spec fn is_resized(p: Picture, size: int, out: Picture) -> bool {
    &&& out.wf()
    &&& resampled(p.width, p.height, p.bytes@, size, out.bytes@)
    &&& if p.width >= p.height {
        out.width == size && short_side(p.height as int, p.width as int, size, out.height as int)
    } else {
        out.height == size && short_side(p.width as int, p.height as int, size, out.width as int)
    }
    &&& out.width == p.width && out.height == p.height ==> out.bytes@ == p.bytes@
    &&& p.width == 72 && p.height == 72 ==> forall|c: Channels| #[trigger]
        is_plain(p, c) ==> is_plain(out, c)
}

/// `image::DynamicImage::resize` with the Lanczos filter scales an image to the
/// largest size that fits a square, with its aspect kept to the nearest pixel; an
/// image that already has that size comes back as it is, and one of the size of a key
/// that is of one color keeps it, since the weights of the filter are divided by
/// their sum and the result is rounded to nearest. Which bytes a scaled image
/// has is named as a relation, not as a function of the image: the filter goes through
/// the platform's sine.
#[verifier::external_body]
fn resize(p: &Picture, size: u32) -> (r: Picture)
    requires
        p.wf(),
        !p.is_empty(),
        p.resizable(),
        1 <= size <= 72,
    ensures
        is_resized(*p, size as int, r),
        resampled(p.width, p.height, p.bytes@, size as int, r.bytes@),
{
    let image = image::RgbaImage::from_raw(p.width, p.height, p.bytes.clone()).unwrap();
    let scaled = image::DynamicImage::ImageRgba8(image)
        .resize(size, size, image::imageops::FilterType::Lanczos3)
        .into_rgba8();
    Picture { width: scaled.width(), height: scaled.height(), bytes: scaled.into_raw() }
}

/// What becomes of a pixel when another, neither transparent nor opaque, is
/// overlaid on it.
pub uninterp spec fn blended(bottom: (u8, u8, u8, u8), top: (u8, u8, u8, u8)) -> (u8, u8, u8, u8);

/// What becomes of a pixel when another is overlaid on it.
pub open spec fn over(bottom: Channels, top: Channels) -> Channels {
    if top.3 == 0 {
        bottom
    } else if top.3 == 255 {
        top
    } else {
        blended(bottom, top)
    }
}

/// `image::imageops::overlay` puts an image onto another, at a place that may lie
/// outside: where the two meet, a transparent pixel changes nothing, an opaque one
/// replaces what is there, and any other is blended with it.
#[verifier::external_body]
fn overlay(bottom: &mut Picture, top: &Picture, x: i64, y: i64)
    requires
        old(bottom).wf(),
        top.wf(),
    ensures
        final(bottom).wf(),
        final(bottom).width == old(bottom).width,
        final(bottom).height == old(bottom).height,
        forall|px: int, py: int|
            final(bottom).has(px, py) ==> #[trigger] final(bottom).at(px, py) == (if !top.has(
                px - x,
                py - y,
            ) || top.at(px - x, py - y).3 == 0 {
                old(bottom).at(px, py)
            } else if top.at(px - x, py - y).3 == 255 {
                top.at(px - x, py - y)
            } else {
                blended(old(bottom).at(px, py), top.at(px - x, py - y))
            }),
{
    let mut canvas = image::RgbaImage::from_raw(bottom.width, bottom.height, bottom.bytes.clone())
        .unwrap();
    let image = image::RgbaImage::from_raw(top.width, top.height, top.bytes.clone()).unwrap();
    image::imageops::overlay(&mut canvas, &image, x, y);
    bottom.bytes = canvas.into_raw();
}

/// A black, opaque picture of the size of a key.
fn black_canvas() -> (r: Picture)
    ensures
        r.wf(),
        r.width == 72,
        r.height == 72,
        forall|x: int, y: int| r.has(x, y) ==> #[trigger] r.at(x, y) == (0u8, 0u8, 0u8, 255u8),
{
    let mut bytes: Vec<u8> = Vec::new();
    let mut i: usize = 0;
    while i < TILE_PIXELS
        invariant
            i <= TILE_PIXELS,
            bytes.len() == 4 * i,
            forall|j: int|
                0 <= j < 4 * i ==> #[trigger] bytes@[j] == (if j % 4 == 3 {
                    255u8
                } else {
                    0u8
                }),
        decreases TILE_PIXELS - i,
    {
        bytes.push(0);
        bytes.push(0);
        bytes.push(0);
        bytes.push(255);
        i = i + 1;
    }
    let canvas = Picture { width: 72, height: 72, bytes };
    assert forall|x: int, y: int| canvas.has(x, y) implies #[trigger] canvas.at(x, y) == (
        0u8,
        0u8,
        0u8,
        255u8,
    ) by {
        let k = y * 72 + x;
        assert(bytes@[4 * k] == 0 && bytes@[4 * k + 1] == 0 && bytes@[4 * k + 2] == 0);
    }
    canvas
}

/// The colors of a picture of the size of a key.
fn to_tile(p: &Picture) -> (r: Tile)
    requires
        p.wf(),
        p.width == 72,
        p.height == 72,
    ensures
        r.shows(
            |x: int, y: int|
                {
                    let c = p.at(x, y);
                    Rgb { r: c.0, g: c.1, b: c.2 }
                },
        ),
{
    let mut pixels: Vec<Rgb> = Vec::new();
    let mut i: usize = 0;
    while i < TILE_PIXELS
        invariant
            p.wf(),
            p.width == 72,
            p.height == 72,
            i <= TILE_PIXELS,
            pixels.len() == i,
            forall|k: int|
                0 <= k < i ==> #[trigger] pixels@[k] == (Rgb {
                    r: p.pixel(k).0,
                    g: p.pixel(k).1,
                    b: p.pixel(k).2,
                }),
        decreases TILE_PIXELS - i,
    {
        pixels.push(Rgb { r: p.bytes[4 * i], g: p.bytes[4 * i + 1], b: p.bytes[4 * i + 2] });
        i = i + 1;
    }
    Tile { pixels }
}

/// What a picture shows when it is centered on a black key.
pub open spec fn centered(p: Picture) -> spec_fn(int, int) -> Rgb {
    let x0 = (72 - p.width) / 2;
    let y0 = (72 - p.height) / 2;
    |x: int, y: int|
        if p.has(x - x0, y - y0) {
            let c = over((0u8, 0u8, 0u8, 255u8), p.at(x - x0, y - y0));
            Rgb { r: c.0, g: c.1, b: c.2 }
        } else {
            black()
        }
}

/// Centre a picture on a black tile and composite its alpha over the black.
pub fn center(p: &Picture) -> (r: Tile)
    requires
        p.wf(),
        p.width <= 72,
        p.height <= 72,
    ensures
        r.shows(centered(*p)),
{
    let mut canvas = black_canvas();
    let x: i64 = (KEY_SIZE - p.width) as i64 / 2;
    let y: i64 = (KEY_SIZE - p.height) as i64 / 2;
    let ghost empty = canvas;
    overlay(&mut canvas, p, x, y);
    let tile = to_tile(&canvas);
    assert forall|a: int, b: int| 0 <= a < 72 && 0 <= b < 72 implies #[trigger] tile.at(a, b)
        == centered(*p)(a, b) by {
        assert(canvas.has(a, b));
        assert(empty.has(a, b));
        assert(empty.at(a, b) == (0u8, 0u8, 0u8, 255u8));
        assert(canvas.at(a, b) == canvas.at(a, b));
    }
    tile
}

/// Whether a tile shows a picture, fit into a centered square of `size` pixels.
pub open spec fn is_fit(p: Picture, size: int, tile: Tile) -> bool {
    exists|scaled: Picture| #[trigger] is_resized(p, size, scaled) && tile.shows(centered(scaled))
}

/// Resize `content` to fit (aspect-preserving) within a `box_size` square, centre
/// it on a black tile, and composite its alpha over the black.
pub fn fit_rgba(content: &Picture, box_size: u32) -> (r: Tile)
    requires
        content.wf(),
        !content.is_empty(),
        content.resizable(),
        1 <= box_size <= 72,
    ensures
        is_fit(*content, box_size as int, r),
{
    let scaled = resize(content, box_size);
    center(&scaled)
}

/// Whatever is fit into a smaller square leaves the margin around it black.
pub proof fn fit_keeps_its_margin(p: Picture, margin: int, tile: Tile, x: int, y: int)
    requires
        0 <= margin < 36,
        is_fit(p, 72 - 2 * margin, tile),
        0 <= x < 72,
        0 <= y < 72,
        x < margin || x >= 72 - margin || y < margin || y >= 72 - margin,
    ensures
        tile.at(x, y) == black(),
{
    let scaled = choose|scaled: Picture| #[trigger]
        is_resized(p, 72 - 2 * margin, scaled) && tile.shows(centered(scaled));
    assert(tile.at(x, y) == centered(scaled)(x, y));
}

/// Whether a tile shows a picture as a key does: an opaque one fills the key, any
/// other is trimmed to its content and fit with a margin, and one without content
/// leaves the key black.
pub open spec fn is_fit_to_key(p: Picture, tile: Tile) -> bool {
    if p.is_empty() {
        tile.shows(|x: int, y: int| black())
    } else if is_opaque(p) {
        is_fit(p, KEY_SIZE as int, tile)
    } else if exists|x: int, y: int| #[trigger] is_content(p, x, y) {
        exists|x: int, y: int, w: int, h: int, content: Picture|
            is_bbox(p, x, y, w, h) && #[trigger] is_crop(p, x, y, w, h, content) && is_fit(
                content,
                ICON_FIT as int,
                tile,
            )
    } else {
        tile.shows(|x: int, y: int| black())
    }
}

/// Fit any image into a centered 72×72 tile without distortion.
pub fn fit_to_key(img: &Picture) -> (r: Tile)
    requires
        img.wf(),
        img.resizable(),
    ensures
        is_fit_to_key(*img, r),
{
    if img.width == 0 || img.height == 0 {
        return blank_tile();
    }
    // Transparent icons: trim to their actual content and re-fit with a uniform
    // margin, so every icon has consistent padding regardless of the artwork's own
    // border. Opaque icons (no transparency to trim by) fill the key as-is.
    if fully_opaque(img) {
        fit_rgba(img, KEY_SIZE)
    } else {
        match content_bbox(img) {
            Some((x, y, w, h)) => {
                let content = crop(img, x, y, w, h);
                proof {
                    let b = choose|b: int| is_content(*img, x as int, b);
                    assert(is_content(*img, x as int, b));
                }
                fit_rgba(&content, ICON_FIT)
            },
            None => blank_tile(),
        }
    }
}

/// The colors of a tile, as an opaque picture.
pub open spec fn is_picture_of(tile: Tile, p: Picture) -> bool {
    &&& p.wf()
    &&& p.width == 72
    &&& p.height == 72
    &&& forall|k: int|
        0 <= k < 5184 ==> #[trigger] p.pixel(k) == (tile@[k].r, tile@[k].g, tile@[k].b, 255u8)
}

/// The colors of a tile, as an opaque picture.
fn to_picture(tile: &Tile) -> (r: Picture)
    requires
        tile.wf(),
    ensures
        is_picture_of(*tile, r),
{
    let mut bytes: Vec<u8> = Vec::new();
    let mut i: usize = 0;
    let ghost mut out = Picture { width: 72, height: 72, bytes };
    while i < TILE_PIXELS
        invariant
            tile.wf(),
            i <= TILE_PIXELS,
            bytes.len() == 4 * i,
            out.bytes@ == bytes@,
            forall|k: int|
                0 <= k < i ==> #[trigger] out.pixel(k) == (
                    tile@[k].r,
                    tile@[k].g,
                    tile@[k].b,
                    255u8,
                ),
        decreases TILE_PIXELS - i,
    {
        let ghost before = out;
        let c = tile.pixels[i];
        bytes.push(c.r);
        bytes.push(c.g);
        bytes.push(c.b);
        bytes.push(255);
        proof {
            out = Picture { width: 72, height: 72, bytes };
            assert forall|k: int| 0 <= k < i + 1 implies #[trigger] out.pixel(k) == (
                tile@[k].r,
                tile@[k].g,
                tile@[k].b,
                255u8,
            ) by {
                if k < i {
                    assert(out.pixel(k) == before.pixel(k));
                }
            }
        }
        i = i + 1;
    }
    let r = Picture { width: 72, height: 72, bytes };
    assert forall|k: int| 0 <= k < 5184 implies #[trigger] r.pixel(k) == (
        tile@[k].r,
        tile@[k].g,
        tile@[k].b,
        255u8,
    ) by {
        assert(r.pixel(k) == out.pixel(k));
    }
    r
}

/// What a picture shows when it stands on a black key, `margin` pixels from the
/// left and from the top.
pub open spec fn framed(p: Picture, margin: int) -> spec_fn(int, int) -> Rgb {
    |x: int, y: int|
        if p.has(x - margin, y - margin) {
            let c = p.at(x - margin, y - margin);
            Rgb { r: c.0, g: c.1, b: c.2 }
        } else {
            black()
        }
}

/// Put the colors of a picture on a black tile, `margin` pixels from the left and
/// from the top.
pub fn frame(p: &Picture, margin: u32) -> (r: Tile)
    requires
        p.wf(),
        p.width + margin <= 72,
        p.height + margin <= 72,
    ensures
        r.shows(framed(*p, margin as int)),
{
    let mut pixels: Vec<Rgb> = Vec::new();
    let mut i: u32 = 0;
    while i < 5184
        invariant
            p.wf(),
            p.width + margin <= 72,
            p.height + margin <= 72,
            i <= 5184,
            pixels.len() == i,
            forall|j: int|
                0 <= j < i ==> #[trigger] pixels@[j] == framed(*p, margin as int)(j % 72, j / 72),
        decreases 5184 - i,
    {
        let x: u32 = i % 72;
        let y: u32 = i / 72;
        if margin <= x && x - margin < p.width && margin <= y && y - margin < p.height {
            let px: usize = (x - margin) as usize;
            let py: usize = (y - margin) as usize;
            proof {
                position(px as int, py as int, p.width as int, p.height as int);
                assert(0 <= py * p.width <= 72 * 72) by (nonlinear_arith)
                    requires
                        0 <= py <= 72,
                        0 <= p.width <= 72,
                ;
            }
            let k: usize = 4 * (py * p.width as usize + px);
            pixels.push(Rgb { r: p.bytes[k], g: p.bytes[k + 1], b: p.bytes[k + 2] });
        } else {
            pixels.push(Rgb { r: 0, g: 0, b: 0 });
        }
        i = i + 1;
    }
    let tile = Tile { pixels };
    assert forall|x: int, y: int| 0 <= x < 72 && 0 <= y < 72 implies #[trigger] tile.at(x, y)
        == framed(*p, margin as int)(x, y) by {
        let j = 72 * y + x;
        assert(j % 72 == x && j / 72 == y);
        assert(tile@[j] == pixels@[j]);
    }
    tile
}

/// Whether a tile shows another, scaled down to leave a black border.
pub open spec fn is_inset(tile: Tile, margin: int, out: Tile) -> bool {
    exists|p: Picture, scaled: Picture| #[trigger]
        is_picture_of(tile, p) && #[trigger] is_resized(p, 72 - 2 * margin, scaled) && out.shows(
            framed(scaled, margin),
        )
}

/// Scale a tile down to leave a black border of `margin` pixels on each side.
pub fn inset(tile: &Tile, margin: u32) -> (r: Tile)
    requires
        tile.wf(),
        margin < 36,
    ensures
        is_inset(*tile, margin as int, r),
{
    let p = to_picture(tile);
    let scaled = resize(&p, KEY_SIZE - 2 * margin);
    frame(&scaled, margin)
}

/// Whatever a tile shows, the border around it is black once it is scaled down.
pub proof fn inset_keeps_its_border(tile: Tile, margin: int, out: Tile, x: int, y: int)
    requires
        0 <= margin < 36,
        is_inset(tile, margin, out),
        0 <= x < 72,
        0 <= y < 72,
        x < margin || x >= 72 - margin || y < margin || y >= 72 - margin,
    ensures
        out.at(x, y) == black(),
{
    let (p, scaled) = choose|p: Picture, scaled: Picture| #[trigger]
        is_picture_of(tile, p) && #[trigger] is_resized(p, 72 - 2 * margin, scaled) && out.shows(
            framed(scaled, margin),
        );
    assert(out.at(x, y) == framed(scaled, margin)(x, y));
}

/// A tile of one color keeps it when it is scaled down, inside the black border.
pub proof fn plain_tile_keeps_its_color(tile: Tile, margin: int, out: Tile, c: Rgb, x: int, y: int)
    requires
        tile.wf(),
        0 <= margin < 36,
        is_inset(tile, margin, out),
        forall|k: int| 0 <= k < TILE_PIXELS ==> #[trigger] tile@[k] == c,
        0 <= x < 72,
        0 <= y < 72,
    ensures
        out.at(x, y) == (if margin <= x < 72 - margin && margin <= y < 72 - margin {
            c
        } else {
            black()
        }),
{
    let (p, scaled) = choose|p: Picture, scaled: Picture| #[trigger]
        is_picture_of(tile, p) && #[trigger] is_resized(p, 72 - 2 * margin, scaled) && out.shows(
            framed(scaled, margin),
        );
    let size = 72 - 2 * margin;
    let all = (c.r, c.g, c.b, 255u8);
    assert(is_plain(p, all));
    assert(scaled.width == size);
    assert(scaled.height == size) by (nonlinear_arith)
        requires
            short_side(72, 72, size, scaled.height as int),
    ;
    assert(out.at(x, y) == framed(scaled, margin)(x, y));
    if scaled.has(x - margin, y - margin) {
        position(x - margin, y - margin, size, size);
        assert(scaled.pixel((y - margin) * size + (x - margin)) == all);
    }
}

// --- Icons -----------------------------------------------------------------

/// A channel, with what it was multiplied by taken out again.
pub open spec fn divided(c: u8, a: u8) -> int {
    let v = (c * 255 + a / 2) / (a as int);
    if v > 255 {
        255
    } else {
        v
    }
}

/// A pixel with straight alpha, from one whose channels are multiplied by it.
pub open spec fn straight(c: Channels) -> Channels {
    if c.3 == 0 {
        (0, 0, 0, 0)
    } else {
        (divided(c.0, c.3) as u8, divided(c.1, c.3) as u8, divided(c.2, c.3) as u8, c.3)
    }
}

/// A channel, with what it was multiplied by taken out again.
fn divide(c: u8, a: u8) -> (r: u8)
    requires
        a > 0,
    ensures
        r == divided(c, a),
{
    let v: u16 = (c as u16 * 255 + a as u16 / 2) / a as u16;
    if v > 255 {
        255
    } else {
        v as u8
    }
}

/// Turn premultiplied alpha into straight alpha.
pub fn unpremultiply(p: &Picture) -> (r: Picture)
    requires
        p.wf(),
    ensures
        r.wf(),
        r.width == p.width,
        r.height == p.height,
        forall|k: int| 0 <= k < p.count() ==> #[trigger] r.pixel(k) == straight(p.pixel(k)),
{
    let mut bytes: Vec<u8> = Vec::new();
    let mut i: usize = 0;
    let ghost mut k: int = 0;
    let ghost mut out = Picture { width: p.width, height: p.height, bytes };
    while i < p.bytes.len()
        invariant
            p.wf(),
            i == 4 * k,
            bytes.len() == i,
            0 <= k <= p.count(),
            out.bytes@ == bytes@,
            out.width == p.width,
            out.height == p.height,
            forall|j: int| 0 <= j < k ==> #[trigger] out.pixel(j) == straight(p.pixel(j)),
        decreases p.bytes.len() - i,
    {
        let ghost before = out;
        let a: u8 = p.bytes[i + 3];
        if a == 0 {
            bytes.push(0);
            bytes.push(0);
            bytes.push(0);
            bytes.push(0);
        } else {
            bytes.push(divide(p.bytes[i], a));
            bytes.push(divide(p.bytes[i + 1], a));
            bytes.push(divide(p.bytes[i + 2], a));
            bytes.push(a);
        }
        proof {
            out = Picture { width: p.width, height: p.height, bytes };
            assert forall|j: int| 0 <= j < k + 1 implies #[trigger] out.pixel(j) == straight(
                p.pixel(j),
            ) by {
                if j < k {
                    assert(out.pixel(j) == before.pixel(j));
                }
            }
            k = k + 1;
        }
        i = i + 4;
    }
    let r = Picture { width: p.width, height: p.height, bytes };
    assert forall|j: int| 0 <= j < p.count() implies #[trigger] r.pixel(j) == straight(
        p.pixel(j),
    ) by {
        assert(r.pixel(j) == out.pixel(j));
    }
    r
}

/// Whether an icon file is an SVG, by its extension.
pub open spec fn names_svg(p: Seq<char>) -> bool {
    match path::extension_of(p) {
        Some(e) => text::lowered(e) == "svg"@ || text::lowered(e) == "svgz"@,
        None => false,
    }
}

/// Is an icon file an SVG (by its extension, in any case)?
pub fn is_svg(p: &str) -> (r: bool)
    ensures
        r == names_svg(p@),
{
    match path::extension(p) {
        Some(e) => {
            let e = text::to_lower(&e);
            text::same(&e, "svg") || text::same(&e, "svgz")
        },
        None => false,
    }
}

/// What was read of an icon.
#[derive(Debug, Clone)]
pub enum IconData {
    /// The content of a raster file.
    Raster { path: String, bytes: Vec<u8> },
    /// A rendered SVG, with premultiplied alpha.
    Svg(Picture),
}

/// Why an icon cannot be shown.
#[derive(Debug, Clone)]
pub enum IconError {
    /// It cannot be decoded.
    Undecodable(String),
    /// It is too wide for the machine.
    TooWide,
}

/// What a raster file decodes to, in the format that its path names: the width,
/// the height and the bytes of the pixels.
pub uninterp spec fn decoded(path: Seq<char>, bytes: Seq<u8>) -> Option<(u32, u32, Seq<u8>)>;

/// `image::load_from_memory_with_format` decodes an image in the format that
/// `image::ImageFormat::from_path` finds in the path's extension, or fails, and the
/// pixels come as four bytes each; which image it is has a name here.
#[verifier::external_body]
fn decode(p: &str, bytes: &Vec<u8>) -> (r: Result<Picture, String>)
    ensures
        match r {
            Ok(picture) => picture.wf() && decoded(p@, bytes@) == Some(
                (picture.width, picture.height, picture.bytes@),
            ),
            Err(_) => decoded(p@, bytes@) is None,
        },
{
    let format = image::ImageFormat::from_path(p).map_err(|e| e.to_string())?;
    let image = image::load_from_memory_with_format(bytes, format)
        .map_err(|e| e.to_string())?
        .into_rgba8();
    Ok(Picture { width: image.width(), height: image.height(), bytes: image.into_raw() })
}

/// Fit a decoded icon to a tile, unless it is too wide for the machine.
pub fn show_picture(p: &Picture) -> (r: Result<Tile, IconError>)
    requires
        p.wf(),
    ensures
        match r {
            Ok(tile) => p.resizable() && is_fit_to_key(*p, tile),
            Err(e) => !p.resizable() && e is TooWide,
        },
{
    if p.width as u64 * 1152 > isize::MAX as u64 {
        return Err(IconError::TooWide);
    }
    Ok(fit_to_key(p))
}

/// Whether a picture is what was read of an icon, with straight alpha.
pub open spec fn is_icon(data: IconData, p: Picture) -> bool {
    &&& p.wf()
    &&& match data {
        IconData::Raster { path, bytes } => decoded(path@, bytes@) == Some(
            (p.width, p.height, p.bytes@),
        ),
        IconData::Svg(s) => p.width == s.width && p.height == s.height && forall|k: int|
            0 <= k < s.count() ==> #[trigger] p.pixel(k) == straight(s.pixel(k)),
    }
}

/// Decode an icon and fit it to a 72×72 tile (aspect-preserving, centered on a
/// black background). A rendered SVG has its alpha made straight first, so that
/// it gets trimmed + margined exactly like a raster icon.
pub fn load_icon(data: &IconData) -> (r: Result<Tile, IconError>)
    requires
        data matches IconData::Svg(p) ==> p.wf(),
    ensures
        match r {
            Ok(tile) => exists|p: Picture| #[trigger]
                is_icon(*data, p) && p.resizable() && is_fit_to_key(p, tile),
            Err(IconError::Undecodable(_)) => data matches IconData::Raster { path, bytes }
                && decoded(path@, bytes@) is None,
            Err(IconError::TooWide) => exists|p: Picture| #[trigger]
                is_icon(*data, p) && !p.resizable(),
        },
{
    match data {
        IconData::Raster { path, bytes } => match decode(path.as_str(), bytes) {
            Ok(p) => {
                assert(is_icon(*data, p));
                show_picture(&p)
            },
            Err(e) => Err(IconError::Undecodable(e)),
        },
        IconData::Svg(s) => {
            let p = unpremultiply(s);
            assert(is_icon(*data, p));
            show_picture(&p)
        },
    }
}

// --- Laws ------------------------------------------------------------------

/// The pixels of a tile go row by row from the top, and from the left in each row.
pub proof fn tiles_go_row_by_row(tile: Tile, f: spec_fn(int, int) -> Rgb, x: int, y: int)
    requires
        tile.shows(f),
        0 <= x < 72,
        0 <= y < 72,
    ensures
        tile.pixels@.len() == 72 * 72,
        tile.pixels@[72 * y + x] == f(x, y),
        x < 71 ==> tile.pixels@[72 * y + x + 1] == f(x + 1, y),
        x == 71 && y < 71 ==> tile.pixels@[72 * y + x + 1] == f(0, y + 1),
{
    assert(tile.at(x, y) == f(x, y));
    if x < 71 {
        assert(tile.at(x + 1, y) == f(x + 1, y));
    } else if y < 71 {
        assert(tile.at(0, y + 1) == f(0, y + 1));
    }
}

/// The pixels of a picture go row by row too, four bytes each.
pub proof fn pictures_go_row_by_row(p: Picture, x: int, y: int)
    ensures
        p.at(x, y) == p.pixel(y * p.width + x),
        p.pixel(x) == (
            p.bytes@[4 * x],
            p.bytes@[4 * x + 1],
            p.bytes@[4 * x + 2],
            p.bytes@[4 * x + 3],
        ),
        p.has(x, y) <==> 0 <= x < p.width && 0 <= y < p.height,
{
}

/// A rectangle holds as many columns as it is wide and as many rows as it is high,
/// from its corner on.
pub proof fn rectangles_have_their_size(px: int, py: int, x: int, y: int, w: int, h: int)
    ensures
        in_rect(x + px, y + py, x, y, w, h) <==> 0 <= px < w && 0 <= py < h,
{
}

/// The failure icon is the same on the left as on the right: a white mark, a bar with
/// a dot below it, on red.
pub proof fn failure_icon_is_symmetric(x: int, y: int)
    requires
        0 <= x < 72,
        0 <= y < 72,
    ensures
        error_icon()(71 - x, y) == error_icon()(x, y),
        error_icon()(x, y) == (Rgb { r: 255, g: 255, b: 255 }) || error_icon()(x, y) == (Rgb {
            r: 180,
            g: 30,
            b: 30,
        }),
        error_icon()(36, y) == (Rgb { r: 255, g: 255, b: 255 }) <==> 14 <= y < 44 || 50 <= y < 60,
        error_icon()(x, 20) == (Rgb { r: 255, g: 255, b: 255 }) <==> 31 <= x <= 40,
{
}

/// A picture counts as opaque unless a pixel is below an alpha of 250, and a pixel
/// counts as content from an alpha of 16 on.
pub proof fn opacity_has_its_limits(p: Picture, k: int, x: int, y: int)
    requires
        0 <= k < p.count(),
        p.has(x, y),
    ensures
        p.pixel(k).3 < 250 ==> !is_opaque(p),
        (forall|j: int| 0 <= j < p.count() ==> #[trigger] p.pixel(j).3 >= 250) ==> is_opaque(p),
        is_content(p, x, y) <==> p.at(x, y).3 >= 16,
{
}

/// The box around the content holds all of it, and on each of its four sides there is
/// some.
pub proof fn boxes_touch_their_content(p: Picture, x: int, y: int, w: int, h: int, a: int, b: int)
    requires
        is_bbox(p, x, y, w, h),
    ensures
        p.has(a, b) && p.at(a, b).3 >= 16 ==> x <= a < x + w && y <= b < y + h,
        ({
            let right = x + w - 1;
            let bottom = y + h - 1;
            &&& exists|j: int| p.has(x, j) && (#[trigger] p.at(x, j)).3 >= 16
            &&& exists|j: int| p.has(right, j) && (#[trigger] p.at(right, j)).3 >= 16
            &&& exists|i: int| p.has(i, y) && (#[trigger] p.at(i, y)).3 >= 16
            &&& exists|i: int| p.has(i, bottom) && (#[trigger] p.at(i, bottom)).3 >= 16
        }),
{
    if p.has(a, b) && p.at(a, b).3 >= 16 {
        assert(is_content(p, a, b));
    }
    let right = x + w - 1;
    let bottom = y + h - 1;
    let j = choose|j: int| is_content(p, x, j);
    assert(p.has(x, j) && p.at(x, j).3 >= 16);
    let k = choose|k: int| is_content(p, right, k);
    assert(p.has(right, k) && p.at(right, k).3 >= 16);
    let i = choose|i: int| is_content(p, i, y);
    assert(p.has(i, y) && p.at(i, y).3 >= 16);
    let m = choose|m: int| is_content(p, m, bottom);
    assert(p.has(m, bottom) && p.at(m, bottom).3 >= 16);
}

/// A crop of a crop is a crop of the whole, and that of the whole box is the picture.
pub proof fn crops_of_crops(
    p: Picture,
    x: int,
    y: int,
    w: int,
    h: int,
    part: Picture,
    a: int,
    b: int,
    u: int,
    v: int,
    inner: Picture,
    i: int,
    j: int,
)
    requires
        is_crop(p, x, y, w, h, part),
        is_crop(part, a, b, u, v, inner),
        0 <= a,
        0 <= b,
        a + u <= w,
        b + v <= h,
        0 <= i < u,
        0 <= j < v,
    ensures
        inner.at(i, j) == p.at(x + a + i, y + b + j),
        inner.width == u,
        inner.height == v,
{
    assert(inner.has(i, j));
    assert(part.has(a + i, b + j));
    assert(inner.at(i, j) == part.at(a + i, b + j));
    assert(part.at(a + i, b + j) == p.at(x + (a + i), y + (b + j)));
}

/// A picture that is centered has its opaque pixels as they are, half of what the key
/// has to spare before them in each direction; a transparent pixel, and what lies
/// beside the picture, is black.
pub proof fn centered_pixels(p: Picture, a: int, b: int, x: int, y: int)
    requires
        p.width <= 72,
        p.height <= 72,
        p.has(a, b),
        0 <= x < 72,
        0 <= y < 72,
    ensures
        p.at(a, b).3 == 255 ==> centered(p)((72 - p.width) / 2 + a, (72 - p.height) / 2 + b) == (
        Rgb { r: p.at(a, b).0, g: p.at(a, b).1, b: p.at(a, b).2 }),
        p.at(a, b).3 == 0 ==> centered(p)((72 - p.width) / 2 + a, (72 - p.height) / 2 + b) == (
        Rgb { r: 0, g: 0, b: 0 }),
        x < (72 - p.width) / 2 || x >= (72 - p.width) / 2 + p.width || y < (72 - p.height) / 2 || y
            >= (72 - p.height) / 2 + p.height ==> centered(p)(x, y) == (Rgb { r: 0, g: 0, b: 0 }),
{
}

/// An opaque picture of the size of a key is shown as it is.
pub proof fn key_sized_pictures_show_as_they_are(p: Picture, tile: Tile, x: int, y: int)
    requires
        p.wf(),
        p.width == 72,
        p.height == 72,
        is_fit_to_key(p, tile),
        forall|k: int| 0 <= k < p.count() ==> #[trigger] p.pixel(k).3 == 255,
        0 <= x < 72,
        0 <= y < 72,
    ensures
        tile.at(x, y) == (Rgb { r: p.at(x, y).0, g: p.at(x, y).1, b: p.at(x, y).2 }),
{
    assert(is_opaque(p));
    let scaled = choose|scaled: Picture| #[trigger]
        is_resized(p, KEY_SIZE as int, scaled) && tile.shows(centered(scaled));
    assert(scaled.height == 72) by (nonlinear_arith)
        requires
            short_side(72, 72, 72, scaled.height as int),
    ;
    assert(tile.at(x, y) == centered(scaled)(x, y));
    assert(scaled.has(x, y));
    assert(scaled.at(x, y) == p.at(x, y));
    assert(p.pixel(y * 72 + x).3 == 255);
}

/// A picture with transparency leaves a black margin of eight pixels around what it
/// shows, however large its own margin was.
pub proof fn transparent_pictures_keep_the_margin(p: Picture, tile: Tile, x: int, y: int)
    requires
        is_fit_to_key(p, tile),
        !is_opaque(p),
        0 <= x < 72,
        0 <= y < 72,
        x < 8 || x >= 64 || y < 8 || y >= 64,
    ensures
        tile.at(x, y) == (Rgb { r: 0, g: 0, b: 0 }),
{
    if p.is_empty() {
    } else if exists|a: int, b: int| #[trigger] is_content(p, a, b) {
        let (a, b, w, h, content) = choose|a: int, b: int, w: int, h: int, content: Picture|
            is_bbox(p, a, b, w, h) && #[trigger] is_crop(p, a, b, w, h, content) && is_fit(
                content,
                ICON_FIT as int,
                tile,
            );
        fit_keeps_its_margin(content, 8, tile, x, y);
    }
}

/// A picture with transparency whose content is as large as the space inside the
/// margin shows that content there, pixel by pixel, wherever it lay in the picture.
pub proof fn content_moves_inside_the_margin(
    p: Picture,
    tile: Tile,
    x: int,
    y: int,
    a: int,
    b: int,
)
    requires
        p.wf(),
        !p.is_empty(),
        is_fit_to_key(p, tile),
        !is_opaque(p),
        is_bbox(p, x, y, 56, 56),
        0 <= a < 56,
        0 <= b < 56,
        p.at(x + a, y + b).3 == 255,
    ensures
        tile.at(8 + a, 8 + b) == (Rgb {
            r: p.at(x + a, y + b).0,
            g: p.at(x + a, y + b).1,
            b: p.at(x + a, y + b).2,
        }),
{
    let j = choose|j: int| is_content(p, x, j);
    assert(is_content(p, x, j));
    let (x2, y2, w, h, content) = choose|x2: int, y2: int, w: int, h: int, content: Picture|
        is_bbox(p, x2, y2, w, h) && #[trigger] is_crop(p, x2, y2, w, h, content) && is_fit(
            content,
            ICON_FIT as int,
            tile,
        );
    one_bbox(p, x, y, 56, 56, x2, y2, w, h);
    let scaled = choose|scaled: Picture| #[trigger]
        is_resized(content, ICON_FIT as int, scaled) && tile.shows(centered(scaled));
    assert(scaled.height == 56) by (nonlinear_arith)
        requires
            short_side(56, 56, 56, scaled.height as int),
    ;
    assert(content.has(a, b));
    assert(content.at(a, b) == p.at(x + a, y + b));
    assert(scaled.at(a, b) == content.at(a, b));
    assert(tile.at(8 + a, 8 + b) == centered(scaled)(8 + a, 8 + b));
}

/// A picture without pixels or without content leaves the key black.
pub proof fn empty_pictures_are_black(p: Picture, tile: Tile, x: int, y: int)
    requires
        is_fit_to_key(p, tile),
        p.is_empty() || (!is_opaque(p) && forall|a: int, b: int| !(#[trigger] is_content(p, a, b))),
        0 <= x < 72,
        0 <= y < 72,
    ensures
        tile.at(x, y) == (Rgb { r: 0, g: 0, b: 0 }),
{
}

/// A tile that is given no border stays as it is.
pub proof fn insets_without_a_border(tile: Tile, out: Tile, x: int, y: int)
    requires
        tile.wf(),
        is_inset(tile, 0, out),
        0 <= x < 72,
        0 <= y < 72,
    ensures
        out.at(x, y) == tile.at(x, y),
{
    let (p, scaled) = choose|p: Picture, scaled: Picture| #[trigger]
        is_picture_of(tile, p) && #[trigger] is_resized(p, 72 - 2 * 0, scaled) && out.shows(
            framed(scaled, 0),
        );
    assert(scaled.height == 72) by (nonlinear_arith)
        requires
            short_side(72, 72, 72, scaled.height as int),
    ;
    assert(out.at(x, y) == framed(scaled, 0)(x, y));
    assert(scaled.has(x, y));
    assert(scaled.at(x, y) == p.at(x, y));
    assert(p.pixel(y * 72 + x) == (
        tile@[y * 72 + x].r,
        tile@[y * 72 + x].g,
        tile@[y * 72 + x].b,
        255u8,
    ));
}

/// A framed picture has its pixels so far from the left and from the top, and black
/// around it.
pub proof fn framed_pixels(p: Picture, margin: int, x: int, y: int)
    ensures
        p.has(x, y) ==> framed(p, margin)(x + margin, y + margin) == (Rgb {
            r: p.at(x, y).0,
            g: p.at(x, y).1,
            b: p.at(x, y).2,
        }),
        !p.has(x, y) ==> framed(p, margin)(x + margin, y + margin) == (Rgb { r: 0, g: 0, b: 0 }),
{
}

/// Making alpha straight leaves opaque pixels alone and clears transparent ones; any
/// other channel, multiplied by alpha again, comes within half of alpha of what it
/// was, and no channel comes out above white. Alpha itself stays.
pub proof fn straight_alpha_undoes_multiplying(c: Channels)
    ensures
        straight(c).3 == c.3,
        c.3 == 255 ==> straight(c) == c,
        c.3 == 0 ==> straight(c) == (0u8, 0u8, 0u8, 0u8),
        c.3 > 0 && c.0 <= c.3 ==> -(c.3 as int) <= 2 * (straight(c).0 * c.3 - c.0 * 255) <= c.3,
        c.3 > 0 && c.1 <= c.3 ==> -(c.3 as int) <= 2 * (straight(c).1 * c.3 - c.1 * 255) <= c.3,
        c.3 > 0 && c.2 <= c.3 ==> -(c.3 as int) <= 2 * (straight(c).2 * c.3 - c.2 * 255) <= c.3,
        c.3 > 0 && c.0 > c.3 ==> straight(c).0 == 255,
        c.3 > 0 && c.1 > c.3 ==> straight(c).1 == 255,
        c.3 > 0 && c.2 > c.3 ==> straight(c).2 == 255,
{
    if c.3 > 0 {
        divided_is_nearest(c.0, c.3);
        divided_is_nearest(c.1, c.3);
        divided_is_nearest(c.2, c.3);
    }
}

proof fn divided_is_nearest(c: u8, a: u8)
    requires
        a > 0,
    ensures
        0 <= divided(c, a) <= 255,
        a == 255 ==> divided(c, a) == c,
        c <= a ==> -(a as int) <= 2 * (divided(c, a) * a - c * 255) <= a,
        c > a ==> divided(c, a) == 255,
{
    let n = c * 255 + a / 2;
    let d = a as int;
    let q = n / d;
    vstd::arithmetic::div_mod::lemma_fundamental_div_mod(n, d);
    assert(0 <= n % d < d);
    assert(n == d * q + n % d);
    assert(q * d == d * q) by (nonlinear_arith);
    assert(q >= 0) by (nonlinear_arith)
        requires
            n == d * q + n % d,
            0 <= n % d < d,
            n >= 0,
            d > 0,
    ;
    if c <= a {
        assert(q <= 255) by (nonlinear_arith)
            requires
                n == d * q + n % d,
                n % d >= 0,
                n <= 255 * d + d / 2,
                d > 0,
        ;
    } else {
        assert(q >= 255) by (nonlinear_arith)
            requires
                n == d * q + n % d,
                n % d < d,
                n >= 255 * d,
                d > 0,
        ;
    }
}

/// An icon is an SVG by its extension alone, in any case.
pub proof fn svgs_by_extension(p: Seq<char>, q: Seq<char>, stem: Seq<char>, ext: Seq<char>)
    requires
        !ext.contains('.'),
        stem.len() > 0,
        path::name_of(p) == Some(stem.push('.') + ext),
        path::name_of(q) == Some(ext) || path::name_of(q) is None,
    ensures
        names_svg(p) <==> text::lowered(ext) == "svg"@ || text::lowered(ext) == "svgz"@,
        !names_svg(q),
{
    path::names_are_stems_and_extensions(p, q, stem, ext);
}

/// An icon is the picture that its file decodes to, or the rendered one with its
/// alpha made straight, pixel by pixel.
pub proof fn icons_are_their_pictures(
    path: String,
    bytes: Vec<u8>,
    s: Picture,
    p: Picture,
    k: int,
)
    requires
        s.wf(),
        0 <= k < s.count(),
    ensures
        is_icon(IconData::Raster { path, bytes }, p) ==> decoded(path@, bytes@) == Some(
            (p.width, p.height, p.bytes@),
        ),
        is_icon(IconData::Svg(s), p) ==> p.width == s.width && p.height == s.height && p.pixel(k)
            == straight(s.pixel(k)),
{
}

} // verus!
