//! Idle "Matrix"-style screensaver: green digital rain drawn across the whole
//! deck. The glyphs are hand-coded 5×7 bitmaps, not a real font.
//!
//! The rain flows across the key gaps: it is one deck-wide picture, of which each
//! key shows its part.

use vstd::prelude::*;

use crate::render;
use crate::render::{Rgb, Tile};

verus! {

/// Cell size in pixels; the deck is a grid of one glyph each.
pub const CELL: u32 = 15;

/// The columns of the cell grid.
pub const COLS: usize = 24;

/// The rows of the cell grid.
pub const ROWS: i32 = 14;

/// The number of glyphs.
pub const GLYPH_COUNT: u64 = 16;

// --- Glyphs ----------------------------------------------------------------

/// Hand-drawn 5×7 glyphs (low 5 bits per row, bit 4 = leftmost column). Abstract
/// katakana-ish/symbol shapes: they only need to be varied and glyph-like, not
/// real characters.
pub open spec fn glyph_rows(g: int) -> Seq<u8> {
    if g == 0 {
        seq![0b01110, 0b10001, 0b10011, 0b10101, 0b11001, 0b10001, 0b01110]
    } else if g == 1 {
        seq![0b00100, 0b01100, 0b00100, 0b00100, 0b00100, 0b00100, 0b01110]
    } else if g == 2 {
        seq![0b00100, 0b11111, 0b00100, 0b11111, 0b00100, 0b01000, 0b10000]
    } else if g == 3 {
        seq![0b10010, 0b00100, 0b01000, 0b00010, 0b00100, 0b01000, 0b00110]
    } else if g == 4 {
        seq![0b10000, 0b01000, 0b00100, 0b11111, 0b00010, 0b00100, 0b01000]
    } else if g == 5 {
        seq![0b11111, 0b00010, 0b00100, 0b01111, 0b10100, 0b00100, 0b00100]
    } else if g == 6 {
        seq![0b00100, 0b00100, 0b11111, 0b00100, 0b00100, 0b00100, 0b00100]
    } else if g == 7 {
        seq![0b01010, 0b01010, 0b01010, 0b01010, 0b10011, 0b10010, 0b00000]
    } else if g == 8 {
        seq![0b11111, 0b00001, 0b00010, 0b00100, 0b00100, 0b01000, 0b01000]
    } else if g == 9 {
        seq![0b01000, 0b00010, 0b10000, 0b00010, 0b00001, 0b10010, 0b01100]
    } else if g == 10 {
        seq![0b00000, 0b00000, 0b11111, 0b00000, 0b11111, 0b00000, 0b00000]
    } else if g == 11 {
        seq![0b00000, 0b00100, 0b01010, 0b10001, 0b00000, 0b00000, 0b00000]
    } else if g == 12 {
        seq![0b11111, 0b10001, 0b10001, 0b10001, 0b10001, 0b10001, 0b11111]
    } else if g == 13 {
        seq![0b01110, 0b00000, 0b00000, 0b11111, 0b00000, 0b00000, 0b11111]
    } else if g == 14 {
        seq![0b00000, 0b01010, 0b00000, 0b00100, 0b00000, 0b01010, 0b00000]
    } else {
        seq![0b01001, 0b01001, 0b01001, 0b01001, 0b01001, 0b00011, 0b00110]
    }
}

/// The rows of a glyph.
fn glyph(g: u8) -> (r: [u8; 7])
    ensures
        r@ == glyph_rows(g as int),
{
    let rows: [u8; 7] = match g {
        0 => [0b01110, 0b10001, 0b10011, 0b10101, 0b11001, 0b10001, 0b01110],
        1 => [0b00100, 0b01100, 0b00100, 0b00100, 0b00100, 0b00100, 0b01110],
        2 => [0b00100, 0b11111, 0b00100, 0b11111, 0b00100, 0b01000, 0b10000],
        3 => [0b10010, 0b00100, 0b01000, 0b00010, 0b00100, 0b01000, 0b00110],
        4 => [0b10000, 0b01000, 0b00100, 0b11111, 0b00010, 0b00100, 0b01000],
        5 => [0b11111, 0b00010, 0b00100, 0b01111, 0b10100, 0b00100, 0b00100],
        6 => [0b00100, 0b00100, 0b11111, 0b00100, 0b00100, 0b00100, 0b00100],
        7 => [0b01010, 0b01010, 0b01010, 0b01010, 0b10011, 0b10010, 0b00000],
        8 => [0b11111, 0b00001, 0b00010, 0b00100, 0b00100, 0b01000, 0b01000],
        9 => [0b01000, 0b00010, 0b10000, 0b00010, 0b00001, 0b10010, 0b01100],
        10 => [0b00000, 0b00000, 0b11111, 0b00000, 0b11111, 0b00000, 0b00000],
        11 => [0b00000, 0b00100, 0b01010, 0b10001, 0b00000, 0b00000, 0b00000],
        12 => [0b11111, 0b10001, 0b10001, 0b10001, 0b10001, 0b10001, 0b11111],
        13 => [0b01110, 0b00000, 0b00000, 0b11111, 0b00000, 0b00000, 0b11111],
        14 => [0b00000, 0b01010, 0b00000, 0b00100, 0b00000, 0b01010, 0b00000],
        _ => [0b01001, 0b01001, 0b01001, 0b01001, 0b01001, 0b00011, 0b00110],
    };
    assert(rows@ =~= glyph_rows(g as int));
    rows
}

/// The bit of a glyph's column, from the left.
pub open spec fn column_bit(gx: int) -> u8 {
    if gx == 0 {
        16
    } else if gx == 1 {
        8
    } else if gx == 2 {
        4
    } else if gx == 3 {
        2
    } else {
        1
    }
}

/// Whether a pixel of a cell is lit: the glyph stands in the middle of the cell,
/// scaled by two.
pub open spec fn is_lit(g: int, x: int, y: int) -> bool {
    2 <= x < 12 && 0 <= y < 14 && glyph_rows(g)[y / 2] & column_bit((x - 2) / 2) != 0
}

/// Whether a pixel of a cell is lit.
fn lit(g: u8, x: u32, y: u32) -> (r: bool)
    requires
        x < CELL,
        y < CELL,
    ensures
        r == is_lit(g as int, x as int, y as int),
{
    if x < 2 || x >= 12 || y >= 14 {
        return false;
    }
    let gx: u32 = (x - 2) / 2;
    let bit: u8 = match gx {
        0 => 16,
        1 => 8,
        2 => 4,
        3 => 2,
        _ => 1,
    };
    let rows = glyph(g);
    rows[(y / 2) as usize] & bit != 0
}

// --- Chance ----------------------------------------------------------------

/// One step of xorshift64.
pub open spec fn xorshift(x: u64) -> u64 {
    let a = x ^ (x << 13u64);
    let b = a ^ (a >> 7u64);
    b ^ (b << 17u64)
}

/// Xorshift never falls into zero, where it would stay.
pub proof fn xorshift_is_never_zero(x: u64)
    requires
        x != 0,
    ensures
        xorshift(x) != 0,
{
    assert(x != 0 ==> ({
        let a = x ^ (x << 13u64);
        let b = a ^ (a >> 7u64);
        b ^ (b << 17u64)
    }) != 0) by (bit_vector);
}

/// A glyph drawn by chance.
pub open spec fn glyph_of(x: u64) -> u8 {
    (x % 16) as u8
}

// --- Streams ---------------------------------------------------------------

/// One falling stream, as a value.
pub struct Stream {
    pub head: int,
    pub len: int,
    pub period: int,
    pub phase: int,
    pub active: bool,
    pub glyphs: Seq<u8>,
}

/// One falling stream, occupying a fixed column of the cell grid.
#[derive(Debug, Clone)]
pub struct Column {
    /// Cell-row of the leading (brightest) glyph; grows downward each step.
    pub head: i32,
    /// Trail length in cells (tail extends upward from the head).
    pub len: i32,
    /// Advance the head one cell every `period` frames (per-column fall speed).
    pub period: u8,
    pub phase: u8,
    pub active: bool,
    /// Glyph index shown at each cell-row; mutates so the stream shimmers.
    pub glyphs: Vec<u8>,
}

impl View for Column {
    type V = Stream;

    open spec fn view(&self) -> Stream {
        Stream {
            head: self.head as int,
            len: self.len as int,
            period: self.period as int,
            phase: self.phase as int,
            active: self.active,
            glyphs: self.glyphs@,
        }
    }
}

impl Stream {
    /// A stream has a glyph for each row; while it falls, its trail is neither too
    /// short nor too long, and it has not left the grid.
    pub open spec fn wf(self) -> bool {
        &&& self.glyphs.len() == 14
        &&& forall|i: int| 0 <= i < 14 ==> #[trigger] self.glyphs[i] < 16
        &&& self.active ==> {
            &&& 0 <= self.head
            &&& 4 <= self.len < 18
            &&& 1 <= self.period < 4
            &&& 0 <= self.phase < self.period
            &&& self.head - self.len <= 14
        }
    }
}

/// A stream one frame later: it falls one cell each period, and retires once it is
/// fully off the bottom.
pub open spec fn fallen(c: Stream) -> Stream {
    if !c.active {
        c
    } else {
        let steps = c.phase + 1 >= c.period;
        let head = if steps {
            c.head + 1
        } else {
            c.head
        };
        Stream {
            phase: if steps {
                0
            } else {
                c.phase + 1
            },
            head,
            active: head - c.len <= 14,
            ..c
        }
    }
}

/// A stream with a fresh glyph at its head if it has just stepped down, and what
/// chance goes on with.
pub open spec fn led(c: Stream, rng: u64) -> (Stream, u64) {
    if c.phase == 0 && 0 <= c.head < 14 {
        let x = xorshift(rng);
        (Stream { glyphs: c.glyphs.update(c.head, glyph_of(x)), ..c }, x)
    } else {
        (c, rng)
    }
}

/// A stream with an occasional flicker somewhere in it, and what chance goes on
/// with.
pub open spec fn flickered(c: Stream, rng: u64) -> (Stream, u64) {
    let x = xorshift(rng);
    if x % 7 == 0 {
        let g = xorshift(x);
        let r = xorshift(g);
        (Stream { glyphs: c.glyphs.update((r % 14) as int, glyph_of(g)), ..c }, r)
    } else {
        (c, x)
    }
}

/// A stream with its glyphs churned, and what chance goes on with.
pub open spec fn churned(c: Stream, rng: u64) -> (Stream, u64) {
    if !c.active {
        (c, rng)
    } else {
        let (c1, r1) = led(c, rng);
        flickered(c1, r1)
    }
}

/// So many glyphs drawn by chance, and what chance goes on with.
pub open spec fn drawn(rng: u64, n: nat) -> (Seq<u8>, u64)
    decreases n,
{
    if n == 0 {
        (Seq::empty(), rng)
    } else {
        let (s, r) = drawn(rng, (n - 1) as nat);
        let x = xorshift(r);
        (s.push(glyph_of(x)), x)
    }
}

/// A fresh stream, and what chance goes on with.
pub open spec fn spawned(rng: u64) -> (Stream, u64) {
    let a = xorshift(rng);
    let b = xorshift(a);
    let (glyphs, r) = drawn(b, 14);
    (
        Stream {
            head: 0,
            len: 4 + (a % 14) as int,
            period: 1 + (b % 3) as int,
            phase: 0,
            active: true,
            glyphs,
        },
        r,
    )
}

/// The whole animation, as a value.
pub struct Rain {
    pub columns: Seq<Stream>,
    pub rng: u64,
}

/// The rain with its columns from `i` on churned, one after the other.
pub open spec fn churned_from(w: Rain, i: int) -> Rain
    decreases w.columns.len() - i,
{
    if i < 0 || i >= w.columns.len() {
        w
    } else {
        let (c, r) = churned(w.columns[i], w.rng);
        churned_from(Rain { columns: w.columns.update(i, c), rng: r }, i + 1)
    }
}

/// The rain after one attempt to spawn a stream: gated, and in a free column only,
/// so the rain thins and thickens rather than filling every column at once.
pub open spec fn seeded(w: Rain) -> Rain {
    let x = xorshift(w.rng);
    if x % 3 != 0 {
        Rain { rng: x, ..w }
    } else {
        let y = xorshift(x);
        let i = (y as usize % 24) as int;
        if w.columns[i].active {
            Rain { rng: y, ..w }
        } else {
            let (c, r) = spawned(y);
            Rain { columns: w.columns.update(i, c), rng: r }
        }
    }
}

/// The rain one frame later.
pub open spec fn stepped(w: Rain) -> Rain {
    let fall = Rain { columns: w.columns.map_values(|c: Stream| fallen(c)), ..w };
    seeded(seeded(churned_from(fall, 0)))
}

/// The rain: its streams, and the state of chance.
#[derive(Debug, Clone)]
pub struct Matrix {
    pub columns: Vec<Column>,
    /// xorshift64 state.
    pub rng: u64,
}

impl View for Matrix {
    type V = Rain;

    open spec fn view(&self) -> Rain {
        Rain { columns: self.columns@.map_values(|c: Column| c@), rng: self.rng }
    }
}

/// What chance starts from where there is no clock.
pub const DEFAULT_SEED: u64 = 0x9E37_79B9_7F4A_7C15;

impl Matrix {
    /// There is a stream for each column, and chance has not died.
    pub open spec fn wf(self) -> bool {
        &&& self.columns.len() == 24
        &&& self.rng != 0
        &&& forall|i: int| 0 <= i < 24 ==> (#[trigger] self.columns@[i])@.wf()
    }

    /// Before the first drop. Chance starts from the wall clock (nanoseconds) so
    /// each run's rain differs; the exact value doesn't matter, only that it's
    /// non-zero for xorshift.
    pub fn new(clock: Option<u64>) -> (r: Matrix)
        ensures
            r.wf(),
            r.rng == (match clock {
                Some(t) => t,
                None => DEFAULT_SEED,
            }) | 1,
            forall|i: int| 0 <= i < 24 ==> !(#[trigger] r.columns@[i]).active,
    {
        let seed: u64 = match clock {
            Some(t) => t,
            None => DEFAULT_SEED,
        };
        assert(seed | 1 != 0) by (bit_vector);
        let mut columns: Vec<Column> = Vec::new();
        while columns.len() < COLS
            invariant
                columns.len() <= 24,
                forall|i: int|
                    0 <= i < columns.len() ==> !(#[trigger] columns@[i]).active && columns@[i]@.wf(),
            decreases 24 - columns.len(),
        {
            let mut glyphs: Vec<u8> = Vec::new();
            while glyphs.len() < 14
                invariant
                    glyphs.len() <= 14,
                    forall|i: int| 0 <= i < glyphs.len() ==> #[trigger] glyphs@[i] == 0,
                decreases 14 - glyphs.len(),
            {
                glyphs.push(0);
            }
            columns.push(Column { head: 0, len: 0, period: 1, phase: 0, active: false, glyphs });
        }
        Matrix { columns, rng: seed | 1 }
    }
}

/// Draw a number.
fn rand(rng: &mut u64) -> (r: u64)
    requires
        *old(rng) != 0,
    ensures
        *final(rng) == xorshift(*old(rng)),
        r == *final(rng),
        r != 0,
{
    proof {
        xorshift_is_never_zero(*rng);
    }
    let mut x: u64 = *rng;
    x = x ^ (x << 13u64);
    x = x ^ (x >> 7u64);
    x = x ^ (x << 17u64);
    *rng = x;
    x
}

/// A random glyph index.
fn rand_glyph(rng: &mut u64) -> (r: u8)
    requires
        *old(rng) != 0,
    ensures
        *final(rng) == xorshift(*old(rng)),
        *final(rng) != 0,
        r == glyph_of(*final(rng)),
        r < 16,
{
    let x: u64 = rand(rng);
    (x % GLYPH_COUNT) as u8
}

impl Column {
    /// Fall, and retire once fully off the bottom.
    fn fall(&mut self)
        requires
            old(self)@.wf(),
        ensures
            final(self)@ == fallen(old(self)@),
            final(self)@.wf(),
    {
        if self.active {
            self.phase = self.phase + 1;
            if self.phase >= self.period {
                self.phase = 0;
                self.head = self.head + 1;
            }
            if self.head - self.len > ROWS {
                self.active = false;
            }
        }
    }

    /// Churn the glyphs.
    fn churn(&mut self, rng: &mut u64)
        requires
            old(self)@.wf(),
            *old(rng) != 0,
        ensures
            (final(self)@, *final(rng)) == churned(old(self)@, *old(rng)),
            final(self)@.wf(),
            *final(rng) != 0,
    {
        if !self.active {
            return;
        }
        // A fresh glyph enters at the head each time it steps down.
        let ghost c0 = self@;
        if self.phase == 0 && 0 <= self.head && self.head < ROWS {
            let g: u8 = rand_glyph(rng);
            self.glyphs.set(self.head as usize, g);
        }
        assert((self@, *rng) == led(c0, *old(rng)));
        let ghost c1 = self@;
        // And an occasional flicker elsewhere in the stream.
        let x: u64 = rand(rng);
        if x % 7 == 0 {
            let g: u8 = rand_glyph(rng);
            let y: u64 = rand(rng);
            let r: usize = (y % ROWS as u64) as usize;
            self.glyphs.set(r, g);
        }
    }
}

/// So many random glyph indices.
fn rand_glyphs(rng: &mut u64) -> (r: Vec<u8>)
    requires
        *old(rng) != 0,
    ensures
        (r@, *final(rng)) == drawn(*old(rng), 14),
        *final(rng) != 0,
        r.len() == 14,
        forall|i: int| 0 <= i < 14 ==> #[trigger] r@[i] < 16,
{
    let mut glyphs: Vec<u8> = Vec::new();
    let mut i: usize = 0;
    while i < 14
        invariant
            i <= 14,
            glyphs.len() == i,
            (glyphs@, *rng) == drawn(*old(rng), i as nat),
            *rng != 0,
            forall|j: int| 0 <= j < i ==> #[trigger] glyphs@[j] < 16,
        decreases 14 - i,
    {
        let g: u8 = rand_glyph(rng);
        glyphs.push(g);
        i = i + 1;
    }
    glyphs
}

impl Matrix {
    /// One attempt to spawn a stream.
    fn spawn(&mut self)
        requires
            old(self).wf(),
        ensures
            final(self).wf(),
            final(self)@ == seeded(old(self)@),
    {
        let x: u64 = rand(&mut self.rng);
        if x % 3 != 0 {
            assert(self@ =~= seeded(old(self)@));
            return;
        }
        let y: u64 = rand(&mut self.rng);
        let i: usize = y as usize % COLS;
        if self.columns[i].active {
            assert(self@ =~= seeded(old(self)@));
            return;
        }
        let a: u64 = rand(&mut self.rng);
        let len: i32 = 4 + (a % 14) as i32;
        let b: u64 = rand(&mut self.rng);
        let period: u8 = 1 + (b % 3) as u8;
        let glyphs = rand_glyphs(&mut self.rng);
        let c = Column { head: 0, len, period, phase: 0, active: true, glyphs };
        self.columns.set(i, c);
        assert(self@.columns =~= seeded(old(self)@).columns);
    }

    /// Advance the animation one frame: fall existing streams, churn their glyphs,
    /// retire the ones fully off the bottom, and spawn new ones.
    pub fn step(&mut self)
        requires
            old(self).wf(),
        ensures
            final(self).wf(),
            final(self)@ == stepped(old(self)@),
    {
        let ghost w0 = self@;
        let mut i: usize = 0;
        while i < COLS
            invariant
                i <= 24,
                self.wf(),
                self.rng == w0.rng,
                w0.columns.len() == 24,
                forall|j: int| i <= j < 24 ==> (#[trigger] self.columns@[j])@ == w0.columns[j],
                forall|j: int|
                    0 <= j < i ==> (#[trigger] self.columns@[j])@ == fallen(w0.columns[j]),
            decreases 24 - i,
        {
            self.columns[i].fall();
            i = i + 1;
        }
        let ghost w1 = self@;
        assert(w1.columns =~= w0.columns.map_values(|c: Stream| fallen(c)));
        let mut i: usize = 0;
        while i < COLS
            invariant
                i <= 24,
                self.wf(),
                churned_from(self@, i as int) == churned_from(w1, 0),
            decreases 24 - i,
        {
            let ghost before = self@;
            let mut rng: u64 = self.rng;
            self.columns[i].churn(&mut rng);
            self.rng = rng;
            proof {
                let (c, r) = churned(before.columns[i as int], before.rng);
                assert(self@.columns =~= before.columns.update(i as int, c));
            }
            i = i + 1;
        }
        // A couple of spawn attempts per frame.
        self.spawn();
        self.spawn();
    }
}

// --- Drawing ---------------------------------------------------------------

/// How green the glyphs of a trail of `len` glyphs are, by their distance behind the
/// head: `60 + 195 * (1 - d / len)`, cut off behind the point as single precision gives
/// it. What lies behind the trail is zero.
pub open spec fn greens(len: int) -> Seq<u8> {
    if len == 4 {
        seq![255, 206, 157, 108, 0, 0, 0, 0, 0, 0, 0, 0, 0, 0, 0, 0, 0]
    } else if len == 5 {
        seq![255, 216, 177, 138, 99, 0, 0, 0, 0, 0, 0, 0, 0, 0, 0, 0, 0]
    } else if len == 6 {
        seq![255, 222, 189, 157, 124, 92, 0, 0, 0, 0, 0, 0, 0, 0, 0, 0, 0]
    } else if len == 7 {
        seq![255, 227, 199, 171, 143, 115, 87, 0, 0, 0, 0, 0, 0, 0, 0, 0, 0]
    } else if len == 8 {
        seq![255, 230, 206, 181, 157, 133, 108, 84, 0, 0, 0, 0, 0, 0, 0, 0, 0]
    } else if len == 9 {
        seq![255, 233, 211, 189, 168, 146, 124, 103, 81, 0, 0, 0, 0, 0, 0, 0, 0]
    } else if len == 10 {
        seq![255, 235, 216, 196, 177, 157, 138, 118, 99, 79, 0, 0, 0, 0, 0, 0, 0]
    } else if len == 11 {
        seq![255, 237, 219, 201, 184, 166, 148, 130, 113, 95, 77, 0, 0, 0, 0, 0, 0]
    } else if len == 12 {
        seq![255, 238, 222, 206, 189, 173, 157, 141, 124, 108, 92, 76, 0, 0, 0, 0, 0]
    } else if len == 13 {
        seq![255, 240, 225, 210, 195, 180, 165, 150, 135, 120, 105, 90, 75, 0, 0, 0, 0]
    } else if len == 14 {
        seq![255, 241, 227, 213, 199, 185, 171, 157, 143, 129, 115, 101, 87, 73, 0, 0, 0]
    } else if len == 15 {
        seq![255, 242, 229, 216, 203, 189, 177, 164, 151, 138, 124, 112, 99, 86, 73, 0, 0]
    } else if len == 16 {
        seq![255, 242, 230, 218, 206, 194, 181, 169, 157, 145, 133, 120, 108, 96, 84, 72, 0]
    } else {
        seq![255, 243, 232, 220, 209, 197, 186, 174, 163, 151, 140, 128, 117, 105, 94, 82, 71]
    }
}

/// How blue the glyphs of a trail of `len` glyphs are, by their distance behind the
/// head: `30 * (1 - d / len)`, cut off behind the point as single precision gives it.
/// What lies behind the trail is zero.
pub open spec fn blues(len: int) -> Seq<u8> {
    if len == 4 {
        seq![30, 22, 15, 7, 0, 0, 0, 0, 0, 0, 0, 0, 0, 0, 0, 0, 0]
    } else if len == 5 {
        seq![30, 24, 18, 11, 5, 0, 0, 0, 0, 0, 0, 0, 0, 0, 0, 0, 0]
    } else if len == 6 {
        seq![30, 25, 19, 15, 9, 5, 0, 0, 0, 0, 0, 0, 0, 0, 0, 0, 0]
    } else if len == 7 {
        seq![30, 25, 21, 17, 12, 8, 4, 0, 0, 0, 0, 0, 0, 0, 0, 0, 0]
    } else if len == 8 {
        seq![30, 26, 22, 18, 15, 11, 7, 3, 0, 0, 0, 0, 0, 0, 0, 0, 0]
    } else if len == 9 {
        seq![30, 26, 23, 19, 16, 13, 9, 6, 3, 0, 0, 0, 0, 0, 0, 0, 0]
    } else if len == 10 {
        seq![30, 27, 24, 21, 18, 15, 11, 9, 5, 3, 0, 0, 0, 0, 0, 0, 0]
    } else if len == 11 {
        seq![30, 27, 24, 21, 19, 16, 13, 10, 8, 5, 2, 0, 0, 0, 0, 0, 0]
    } else if len == 12 {
        seq![30, 27, 25, 22, 19, 17, 15, 12, 9, 7, 5, 2, 0, 0, 0, 0, 0]
    } else if len == 13 {
        seq![30, 27, 25, 23, 20, 18, 16, 13, 11, 9, 6, 4, 2, 0, 0, 0, 0]
    } else if len == 14 {
        seq![30, 27, 25, 23, 21, 19, 17, 15, 12, 10, 8, 6, 4, 2, 0, 0, 0]
    } else if len == 15 {
        seq![30, 28, 26, 24, 22, 19, 18, 15, 13, 11, 9, 7, 5, 3, 1, 0, 0]
    } else if len == 16 {
        seq![30, 28, 26, 24, 22, 20, 18, 16, 15, 13, 11, 9, 7, 5, 3, 1, 0]
    } else {
        seq![30, 28, 26, 24, 22, 21, 19, 17, 15, 14, 12, 10, 8, 7, 5, 3, 1]
    }
}

/// How green the glyphs of a trail are.
fn green_row(len: i32) -> (r: [u8; 17])
    requires
        4 <= len < 18,
    ensures
        r@ == greens(len as int),
{
    let row: [u8; 17] = match len {
        4 => [255, 206, 157, 108, 0, 0, 0, 0, 0, 0, 0, 0, 0, 0, 0, 0, 0],
        5 => [255, 216, 177, 138, 99, 0, 0, 0, 0, 0, 0, 0, 0, 0, 0, 0, 0],
        6 => [255, 222, 189, 157, 124, 92, 0, 0, 0, 0, 0, 0, 0, 0, 0, 0, 0],
        7 => [255, 227, 199, 171, 143, 115, 87, 0, 0, 0, 0, 0, 0, 0, 0, 0, 0],
        8 => [255, 230, 206, 181, 157, 133, 108, 84, 0, 0, 0, 0, 0, 0, 0, 0, 0],
        9 => [255, 233, 211, 189, 168, 146, 124, 103, 81, 0, 0, 0, 0, 0, 0, 0, 0],
        10 => [255, 235, 216, 196, 177, 157, 138, 118, 99, 79, 0, 0, 0, 0, 0, 0, 0],
        11 => [255, 237, 219, 201, 184, 166, 148, 130, 113, 95, 77, 0, 0, 0, 0, 0, 0],
        12 => [255, 238, 222, 206, 189, 173, 157, 141, 124, 108, 92, 76, 0, 0, 0, 0, 0],
        13 => [255, 240, 225, 210, 195, 180, 165, 150, 135, 120, 105, 90, 75, 0, 0, 0, 0],
        14 => [255, 241, 227, 213, 199, 185, 171, 157, 143, 129, 115, 101, 87, 73, 0, 0, 0],
        15 => [255, 242, 229, 216, 203, 189, 177, 164, 151, 138, 124, 112, 99, 86, 73, 0, 0],
        16 => [255, 242, 230, 218, 206, 194, 181, 169, 157, 145, 133, 120, 108, 96, 84, 72, 0],
        _ => [255, 243, 232, 220, 209, 197, 186, 174, 163, 151, 140, 128, 117, 105, 94, 82, 71],
    };
    assert(row@ =~= greens(len as int));
    row
}

/// How blue the glyphs of a trail are.
fn blue_row(len: i32) -> (r: [u8; 17])
    requires
        4 <= len < 18,
    ensures
        r@ == blues(len as int),
{
    let row: [u8; 17] = match len {
        4 => [30, 22, 15, 7, 0, 0, 0, 0, 0, 0, 0, 0, 0, 0, 0, 0, 0],
        5 => [30, 24, 18, 11, 5, 0, 0, 0, 0, 0, 0, 0, 0, 0, 0, 0, 0],
        6 => [30, 25, 19, 15, 9, 5, 0, 0, 0, 0, 0, 0, 0, 0, 0, 0, 0],
        7 => [30, 25, 21, 17, 12, 8, 4, 0, 0, 0, 0, 0, 0, 0, 0, 0, 0],
        8 => [30, 26, 22, 18, 15, 11, 7, 3, 0, 0, 0, 0, 0, 0, 0, 0, 0],
        9 => [30, 26, 23, 19, 16, 13, 9, 6, 3, 0, 0, 0, 0, 0, 0, 0, 0],
        10 => [30, 27, 24, 21, 18, 15, 11, 9, 5, 3, 0, 0, 0, 0, 0, 0, 0],
        11 => [30, 27, 24, 21, 19, 16, 13, 10, 8, 5, 2, 0, 0, 0, 0, 0, 0],
        12 => [30, 27, 25, 22, 19, 17, 15, 12, 9, 7, 5, 2, 0, 0, 0, 0, 0],
        13 => [30, 27, 25, 23, 20, 18, 16, 13, 11, 9, 6, 4, 2, 0, 0, 0, 0],
        14 => [30, 27, 25, 23, 21, 19, 17, 15, 12, 10, 8, 6, 4, 2, 0, 0, 0],
        15 => [30, 28, 26, 24, 22, 19, 18, 15, 13, 11, 9, 7, 5, 3, 1, 0, 0],
        16 => [30, 28, 26, 24, 22, 20, 18, 16, 15, 13, 11, 9, 7, 5, 3, 1, 0],
        _ => [30, 28, 26, 24, 22, 21, 19, 17, 15, 14, 12, 10, 8, 7, 5, 3, 1],
    };
    assert(row@ =~= blues(len as int));
    row
}

/// The color of a glyph by its distance `d` behind the head of a trail of `len`
/// glyphs: a bright white-green head, fading through green to near-black at the tail.
pub open spec fn fading(d: int, len: int) -> Rgb {
    if d == 0 {
        Rgb { r: 180, g: 255, b: 180 }
    } else {
        Rgb { r: 0, g: greens(len)[d], b: blues(len)[d] }
    }
}

/// The color of a glyph by its distance `d` behind the head of a trail of `len`
/// glyphs.
pub fn cell_color(d: i32, len: i32) -> (r: Rgb)
    requires
        4 <= len < 18,
        0 <= d < len,
    ensures
        r == fading(d as int, len as int),
{
    if d == 0 {
        return Rgb { r: 180, g: 255, b: 180 };
    }
    let green = green_row(len);
    let blue = blue_row(len);
    Rgb { r: 0, g: green[d as usize], b: blue[d as usize] }
}

/// The color of a pixel of the deck.
pub open spec fn rain_pixel(columns: Seq<Stream>, x: int, y: int) -> Rgb {
    let c = columns[x / 15];
    let row = y / 15;
    let d = c.head - row;
    if row < 14 && c.active && 0 <= d < c.len && is_lit(c.glyphs[row] as int, x % 15, y % 15) {
        fading(d, c.len)
    } else {
        render::black()
    }
}

/// The part of the deck that a key shows.
pub open spec fn rain_tile(columns: Seq<Stream>, key: int) -> spec_fn(int, int) -> Rgb {
    |x: int, y: int| rain_pixel(columns, 72 * (key % 5) + x, 72 * (key / 5) + y)
}

impl Matrix {
    /// The color of a pixel of the deck.
    fn pixel(&self, x: u32, y: u32) -> (r: Rgb)
        requires
            self.wf(),
            x < 360,
            y < 216,
        ensures
            r == rain_pixel(self@.columns, x as int, y as int),
    {
        let c = &self.columns[(x / CELL) as usize];
        assert(self@.columns[x as int / 15] == c@);
        let row: i32 = (y / CELL) as i32;
        if c.active && row < ROWS {
            assert(c@.wf());
            assert(c.head <= 32);
            let d: i32 = c.head - row;
            if 0 <= d && d < c.len && lit(c.glyphs[row as usize], x % CELL, y % CELL) {
                return cell_color(d, c.len);
            }
        }
        Rgb { r: 0, g: 0, b: 0 }
    }

    /// Draw the current frame as the 15 per-key tiles.
    pub fn render(&self) -> (r: Vec<Tile>)
        requires
            self.wf(),
        ensures
            r.len() == 15,
            forall|key: int|
                0 <= key < 15 ==> (#[trigger] r@[key]).shows(rain_tile(self@.columns, key)),
    {
        let mut tiles: Vec<Tile> = Vec::new();
        let mut key: u32 = 0;
        while key < 15
            invariant
                self.wf(),
                key <= 15,
                tiles.len() == key,
                forall|k: int|
                    0 <= k < key ==> (#[trigger] tiles@[k]).shows(rain_tile(self@.columns, k)),
            decreases 15 - key,
        {
            let mut pixels: Vec<Rgb> = Vec::new();
            let mut i: u32 = 0;
            while i < 5184
                invariant
                    self.wf(),
                    key < 15,
                    i <= 5184,
                    pixels.len() == i,
                    forall|j: int|
                        0 <= j < i ==> #[trigger] pixels@[j] == rain_tile(
                            self@.columns,
                            key as int,
                        )(j % 72, j / 72),
                decreases 5184 - i,
            {
                let x: u32 = 72 * (key % 5) + i % 72;
                let y: u32 = 72 * (key / 5) + i / 72;
                pixels.push(self.pixel(x, y));
                i = i + 1;
            }
            let tile = Tile { pixels };
            assert forall|x: int, y: int| 0 <= x < 72 && 0 <= y < 72 implies #[trigger] tile.at(x, y)
                == rain_tile(self@.columns, key as int)(x, y) by {
                let j = 72 * y + x;
                assert(j % 72 == x && j / 72 == y);
                assert(tile@[j] == pixels@[j]);
            }
            tiles.push(tile);
            key = key + 1;
        }
        tiles
    }
}

/// Whether no channel outshines green.
pub open spec fn is_green(c: Rgb) -> bool {
    c.r <= c.g && c.b <= c.g
}

/// The fade is green all the way down the trail.
proof fn fade_is_green(d: int, len: int)
    requires
        4 <= len < 18,
        0 <= d < len,
    ensures
        is_green(fading(d, len)),
{
    assert(blues(len).len() == 17 && greens(len).len() == 17);
    assert(forall|i: int| 0 <= i < 17 ==> #[trigger] blues(len)[i] <= greens(len)[i]);
}

/// The rain is green, no stray colors on any key, and black where nothing falls.
pub proof fn rain_is_green(columns: Seq<Stream>, key: int, x: int, y: int)
    requires
        columns.len() == 24,
        forall|i: int| 0 <= i < 24 ==> (#[trigger] columns[i]).wf(),
        0 <= key < 15,
        0 <= x < 72,
        0 <= y < 72,
    ensures
        is_green(rain_tile(columns, key)(x, y)),
        rain_tile(columns, key)(x, y).r <= rain_tile(columns, key)(x, y).g,
        rain_tile(columns, key)(x, y).b <= rain_tile(columns, key)(x, y).g,
        (forall|i: int| 0 <= i < 24 ==> !(#[trigger] columns[i]).active) ==> rain_tile(
            columns,
            key,
        )(x, y) == render::black(),
{
    let dx = 72 * (key % 5) + x;
    let dy = 72 * (key / 5) + y;
    let c = columns[dx / 15];
    assert(c.wf());
    if c.active {
        let d = c.head - dy / 15;
        if 0 <= d < c.len {
            fade_is_green(d, c.len);
        }
    }
}

// --- Laws ------------------------------------------------------------------

/// The glyphs are sixteen, all different, each of seven rows of five dots.
pub proof fn glyphs_are_varied(g: int, h: int)
    requires
        0 <= g < 16,
        0 <= h < 16,
    ensures
        glyph_rows(g).len() == 7,
        forall|i: int| 0 <= i < 7 ==> #[trigger] glyph_rows(g)[i] < 32,
        exists|i: int| 0 <= i < 7 && #[trigger] glyph_rows(g)[i] != 0,
        g != h ==> glyph_rows(g) != glyph_rows(h),
{
    let a = glyph_rows(g);
    let b = glyph_rows(h);
    assert(a[0] != 0 || a[1] != 0 || a[2] != 0);
    if g != h {
        assert(a[0] != b[0] || a[1] != b[1] || a[2] != b[2] || a[3] != b[3]);
    }
}

/// A glyph stands in its cell two pixels from the left and at the top, each dot two
/// by two pixels, the dots of a row being its bits from the highest of five down.
pub proof fn glyphs_are_drawn_by_their_bits(g: int, x: int, y: int)
    requires
        0 <= g < 16,
        0 <= x < 15,
        0 <= y < 15,
    ensures
        is_lit(g, x, y) ==> 2 <= x < 12 && y < 14,
        2 <= x < 12 && y < 14 ==> {
            let row = glyph_rows(g)[y / 2] as int;
            let right = 4 - (x - 2) / 2;
            is_lit(g, x, y) <==> (if right == 0 {
                row
            } else if right == 1 {
                row / 2
            } else if right == 2 {
                row / 4
            } else if right == 3 {
                row / 8
            } else {
                row / 16
            }) % 2 == 1
        },
{
    if 2 <= x < 12 && y < 14 {
        let row: u8 = glyph_rows(g)[y / 2];
        assert((row & 16 != 0) <==> (row / 16) % 2 == 1) by (bit_vector);
        assert((row & 8 != 0) <==> (row / 8) % 2 == 1) by (bit_vector);
        assert((row & 4 != 0) <==> (row / 4) % 2 == 1) by (bit_vector);
        assert((row & 2 != 0) <==> (row / 2) % 2 == 1) by (bit_vector);
        assert((row & 1 != 0) <==> row % 2 == 1) by (bit_vector);
    }
}

/// A stream that falls waits as many frames as its period for each cell, keeps its
/// length, its speed and its glyphs, and is gone once its tail is off the bottom; one
/// that does not fall is left alone.
pub proof fn streams_fall(c: Stream)
    requires
        c.wf(),
    ensures
        !c.active ==> fallen(c) == c,
        c.active ==> {
            let f = fallen(c);
            &&& f.len == c.len && f.period == c.period && f.glyphs == c.glyphs
            &&& f.head * c.period + f.phase == c.head * c.period + c.phase + 1
            &&& 0 <= f.phase < f.period
            &&& f.active <==> f.head - f.len <= 14
        },
        fallen(c).wf(),
{
    if c.active {
        let f = fallen(c);
        assert((c.head + 1) * c.period == c.head * c.period + c.period) by (nonlinear_arith);
    }
}

/// Churning changes nothing but glyphs: that at the head once it has moved, and at
/// most one more; streams that do not fall are left alone.
pub proof fn churning_changes_glyphs_only(c: Stream, rng: u64, i: int, j: int)
    requires
        c.wf(),
        0 <= i < 14,
        0 <= j < 14,
    ensures
        ({
            let n = churned(c, rng).0;
            &&& n.head == c.head && n.len == c.len && n.period == c.period && n.phase == c.phase
                && n.active == c.active
            &&& n.glyphs.len() == 14
            &&& n.glyphs[i] < 16
            &&& !c.active ==> churned(c, rng) == (c, rng)
            &&& n.glyphs[i] != c.glyphs[i] && n.glyphs[j] != c.glyphs[j] && i != c.head && j
                != c.head ==> i == j
            &&& c.phase != 0 && i == c.head && n.glyphs[i] != c.glyphs[i] && n.glyphs[j]
                != c.glyphs[j] ==> i == j
        }),
{
    let x = xorshift(rng);
    let (c1, r1) = led(c, rng);
    let y = xorshift(r1);
    assert(c.glyphs[i] < 16);
    assert(glyph_of(x) < 16);
    assert(glyph_of(xorshift(y)) < 16);
}

proof fn drawn_glyphs(rng: u64, n: nat)
    ensures
        drawn(rng, n).0.len() == n,
        forall|i: int| 0 <= i < n ==> #[trigger] drawn(rng, n).0[i] < 16,
    decreases n,
{
    if n > 0 {
        drawn_glyphs(rng, (n - 1) as nat);
    }
}

/// A fresh stream starts at the top, with a trail of four to seventeen cells, at one
/// of three speeds, and a glyph for each row.
pub proof fn fresh_streams_start_at_the_top(rng: u64)
    ensures
        ({
            let c = spawned(rng).0;
            &&& c.wf()
            &&& c.active && c.head == 0 && c.phase == 0
            &&& c.len == 4 + xorshift(rng) % 14
            &&& c.period == 1 + xorshift(xorshift(rng)) % 3
        }),
{
    drawn_glyphs(xorshift(xorshift(rng)), 14);
}

/// One attempt to spawn gives one stream at most, in a column that is free, one time
/// in three; a stream that falls is never replaced.
pub proof fn spawning_takes_a_free_column(w: Rain, i: int)
    requires
        w.columns.len() == 24,
        0 <= i < 24,
    ensures
        seeded(w).columns.len() == 24,
        w.columns[i].active ==> seeded(w).columns[i] == w.columns[i],
        xorshift(w.rng) % 3 != 0 ==> seeded(w).columns == w.columns,
        xorshift(w.rng) % 3 == 0 ==> {
            let at = (xorshift(xorshift(w.rng)) as usize % 24) as int;
            &&& i != at ==> seeded(w).columns[i] == w.columns[i]
            &&& i == at && !w.columns[i].active ==> seeded(w).columns[i].active
                && seeded(w).columns[i].head == 0
        },
{
}

proof fn churning_keeps_the_streams(w: Rain, from: int, i: int)
    requires
        w.columns.len() == 24,
        0 <= from <= 24,
        0 <= i < 24,
        forall|k: int| 0 <= k < 24 ==> (#[trigger] w.columns[k]).wf(),
    ensures
        ({
            let after = churned_from(w, from);
            let c = w.columns[i];
            let n = after.columns[i];
            &&& after.columns.len() == 24
            &&& n.head == c.head && n.len == c.len && n.period == c.period && n.phase == c.phase
                && n.active == c.active
        }),
    decreases 24 - from,
{
    if from < 24 {
        let (c, r) = churned(w.columns[from], w.rng);
        let n = Rain { columns: w.columns.update(from, c), rng: r };
        assert(w.columns[from].wf());
        churning_changes_glyphs_only(w.columns[from], w.rng, 0, 0);
        assert forall|k: int| 0 <= k < 24 implies (#[trigger] n.columns[k]).wf() by {
            if k == from {
                assert forall|m: int| 0 <= m < 14 implies #[trigger] c.glyphs[m] < 16 by {
                    churning_changes_glyphs_only(w.columns[from], w.rng, m, m);
                }
            } else {
                assert(w.columns[k].wf());
            }
        }
        churning_keeps_the_streams(n, from + 1, i);
    }
}

/// In a frame every stream falls on: one that is still on the deck goes on where it
/// is by then, and no column is left without its stream.
pub proof fn frames_let_streams_fall_on(w: Rain, i: int)
    requires
        w.columns.len() == 24,
        0 <= i < 24,
        forall|k: int| 0 <= k < 24 ==> (#[trigger] w.columns[k]).wf(),
    ensures
        stepped(w).columns.len() == 24,
        fallen(w.columns[i]).active ==> {
            let f = fallen(w.columns[i]);
            let n = stepped(w).columns[i];
            n.active && n.head == f.head && n.phase == f.phase && n.len == f.len && n.period
                == f.period
        },
        !fallen(w.columns[i]).active && stepped(w).columns[i].active ==> stepped(w).columns[i].head
            == 0,
{
    let fall = Rain { columns: w.columns.map_values(|c: Stream| fallen(c)), ..w };
    assert forall|k: int| 0 <= k < 24 implies (#[trigger] fall.columns[k]).wf() by {
        assert(w.columns[k].wf());
        streams_fall(w.columns[k]);
    }
    churning_keeps_the_streams(fall, 0, i);
    let a = churned_from(fall, 0);
    spawning_takes_a_free_column(a, i);
    spawning_takes_a_free_column(seeded(a), i);
}

/// The trail fades: a glyph further behind the head is never greener nor bluer, and
/// none but the head has red in it. Green falls in even steps from 255 towards 60.
pub proof fn trails_fade(len: int, d: int, e: int)
    requires
        4 <= len < 18,
        0 <= d < e < len,
    ensures
        fading(d, len).g > fading(e, len).g,
        fading(e, len).r == 0,
        fading(0, len) == (Rgb { r: 180, g: 255, b: 180 }),
        fading(e, len).g * len <= 60 * len + 195 * (len - e) < (fading(e, len).g + 2) * len,
        fading(e, len).b * len <= 30 * (len - e) < (fading(e, len).b + 2) * len,
{
    let g = greens(len);
    let b = blues(len);
    assert(g.len() == 17 && b.len() == 17);
    assert(g[0] == 255);
    assert(forall|i: int| 0 <= i < 16 && i + 1 < len ==> #[trigger] g[i] > g[i + 1]);
    fade_falls(len, d, e);
    assert(fading(e, len).g == g[e] && fading(e, len).b == b[e]);
    if len == 4 {
        assert(forall|i: int|
            0 <= i < 4 ==> (#[trigger] g[i]) * 4 <= 60 * 4 + 195 * (4
                - i) < (g[i] + 2) * 4);
        assert(forall|i: int|
            0 <= i < 4 ==> (#[trigger] b[i]) * 4 <= 30 * (4 - i) < (b[i] + 2) * 4);
    } else if len == 5 {
        assert(forall|i: int|
            0 <= i < 5 ==> (#[trigger] g[i]) * 5 <= 60 * 5 + 195 * (5
                - i) < (g[i] + 2) * 5);
        assert(forall|i: int|
            0 <= i < 5 ==> (#[trigger] b[i]) * 5 <= 30 * (5 - i) < (b[i] + 2) * 5);
    } else if len == 6 {
        assert(forall|i: int|
            0 <= i < 6 ==> (#[trigger] g[i]) * 6 <= 60 * 6 + 195 * (6
                - i) < (g[i] + 2) * 6);
        assert(forall|i: int|
            0 <= i < 6 ==> (#[trigger] b[i]) * 6 <= 30 * (6 - i) < (b[i] + 2) * 6);
    } else if len == 7 {
        assert(forall|i: int|
            0 <= i < 7 ==> (#[trigger] g[i]) * 7 <= 60 * 7 + 195 * (7
                - i) < (g[i] + 2) * 7);
        assert(forall|i: int|
            0 <= i < 7 ==> (#[trigger] b[i]) * 7 <= 30 * (7 - i) < (b[i] + 2) * 7);
    } else if len == 8 {
        assert(forall|i: int|
            0 <= i < 8 ==> (#[trigger] g[i]) * 8 <= 60 * 8 + 195 * (8
                - i) < (g[i] + 2) * 8);
        assert(forall|i: int|
            0 <= i < 8 ==> (#[trigger] b[i]) * 8 <= 30 * (8 - i) < (b[i] + 2) * 8);
    } else if len == 9 {
        assert(forall|i: int|
            0 <= i < 9 ==> (#[trigger] g[i]) * 9 <= 60 * 9 + 195 * (9
                - i) < (g[i] + 2) * 9);
        assert(forall|i: int|
            0 <= i < 9 ==> (#[trigger] b[i]) * 9 <= 30 * (9 - i) < (b[i] + 2) * 9);
    } else if len == 10 {
        assert(forall|i: int|
            0 <= i < 10 ==> (#[trigger] g[i]) * 10 <= 60 * 10 + 195 * (10
                - i) < (g[i] + 2) * 10);
        assert(forall|i: int|
            0 <= i < 10 ==> (#[trigger] b[i]) * 10 <= 30 * (10 - i) < (b[i] + 2) * 10);
    } else if len == 11 {
        assert(forall|i: int|
            0 <= i < 11 ==> (#[trigger] g[i]) * 11 <= 60 * 11 + 195 * (11
                - i) < (g[i] + 2) * 11);
        assert(forall|i: int|
            0 <= i < 11 ==> (#[trigger] b[i]) * 11 <= 30 * (11 - i) < (b[i] + 2) * 11);
    } else if len == 12 {
        assert(forall|i: int|
            0 <= i < 12 ==> (#[trigger] g[i]) * 12 <= 60 * 12 + 195 * (12
                - i) < (g[i] + 2) * 12);
        assert(forall|i: int|
            0 <= i < 12 ==> (#[trigger] b[i]) * 12 <= 30 * (12 - i) < (b[i] + 2) * 12);
    } else if len == 13 {
        assert(forall|i: int|
            0 <= i < 13 ==> (#[trigger] g[i]) * 13 <= 60 * 13 + 195 * (13
                - i) < (g[i] + 2) * 13);
        assert(forall|i: int|
            0 <= i < 13 ==> (#[trigger] b[i]) * 13 <= 30 * (13 - i) < (b[i] + 2) * 13);
    } else if len == 14 {
        assert(forall|i: int|
            0 <= i < 14 ==> (#[trigger] g[i]) * 14 <= 60 * 14 + 195 * (14
                - i) < (g[i] + 2) * 14);
        assert(forall|i: int|
            0 <= i < 14 ==> (#[trigger] b[i]) * 14 <= 30 * (14 - i) < (b[i] + 2) * 14);
    } else if len == 15 {
        assert(forall|i: int|
            0 <= i < 15 ==> (#[trigger] g[i]) * 15 <= 60 * 15 + 195 * (15
                - i) < (g[i] + 2) * 15);
        assert(forall|i: int|
            0 <= i < 15 ==> (#[trigger] b[i]) * 15 <= 30 * (15 - i) < (b[i] + 2) * 15);
    } else if len == 16 {
        assert(forall|i: int|
            0 <= i < 16 ==> (#[trigger] g[i]) * 16 <= 60 * 16 + 195 * (16
                - i) < (g[i] + 2) * 16);
        assert(forall|i: int|
            0 <= i < 16 ==> (#[trigger] b[i]) * 16 <= 30 * (16 - i) < (b[i] + 2) * 16);
    } else if len == 17 {
        assert(forall|i: int|
            0 <= i < 17 ==> (#[trigger] g[i]) * 17 <= 60 * 17 + 195 * (17
                - i) < (g[i] + 2) * 17);
        assert(forall|i: int|
            0 <= i < 17 ==> (#[trigger] b[i]) * 17 <= 30 * (17 - i) < (b[i] + 2) * 17);
    }
}

proof fn fade_falls(len: int, d: int, e: int)
    requires
        4 <= len < 18,
        0 <= d < e < len,
    ensures
        greens(len)[d] > greens(len)[e],
    decreases e - d,
{
    let g = greens(len);
    assert(g.len() == 17);
    assert(forall|i: int| 0 <= i < 16 && i + 1 < len ==> #[trigger] g[i] > g[i + 1]);
    if d + 1 < e {
        fade_falls(len, d + 1, e);
    }
    assert(g[d] > g[d + 1]);
}

/// The rain is one picture over the whole deck: what stands right of a key's last
/// column is in the first of the next, and what stands below its last row in the
/// first of the key below.
pub proof fn rain_runs_on_over_the_keys(columns: Seq<Stream>, key: int, x: int, y: int)
    requires
        0 <= key < 15,
    ensures
        key % 5 < 4 ==> rain_tile(columns, key)(x + 72, y) == rain_tile(columns, key + 1)(x, y),
        key < 10 ==> rain_tile(columns, key)(x, y + 72) == rain_tile(columns, key + 5)(x, y),
        rain_tile(columns, 0)(x, y) == rain_pixel(columns, x, y),
{
}

/// A pixel is lit by the stream of its column where that reaches its row and the
/// glyph there has a dot; everywhere else the deck is black.
pub proof fn rain_pixels(columns: Seq<Stream>, column: int, row: int, x: int, y: int)
    requires
        0 <= column < 24,
        0 <= row < 14,
        0 <= x < 15,
        0 <= y < 15,
    ensures
        ({
            let c = columns[column];
            rain_pixel(columns, 15 * column + x, 15 * row + y) == (if c.active && c.head - c.len
                < row <= c.head && is_lit(c.glyphs[row] as int, x, y) {
                fading(c.head - row, c.len)
            } else {
                Rgb { r: 0, g: 0, b: 0 }
            })
        }),
{
    assert((15 * column + x) / 15 == column && (15 * column + x) % 15 == x);
    assert((15 * row + y) / 15 == row && (15 * row + y) % 15 == y);
}

/// Each time a stream has moved on, a glyph drawn by chance enters at its head; and
/// one time in seven a glyph drawn by chance comes up in a row drawn by chance.
pub proof fn churning_draws_by_chance(c: Stream, rng: u64, i: int)
    requires
        c.wf(),
        c.active,
        0 <= i < 14,
    ensures
        ({
            let x = xorshift(rng);
            let enters = c.phase == 0 && c.head < 14;
            let y = if enters {
                xorshift(x)
            } else {
                x
            };
            let g = xorshift(y);
            let row = xorshift(g) % 14;
            let (n, r) = churned(c, rng);
            &&& y % 7 == 0 && i == row ==> n.glyphs[i] == g % 16
            &&& !(y % 7 == 0 && i == row) && enters && i == c.head ==> n.glyphs[i] == x % 16
            &&& !(y % 7 == 0 && i == row) && !(enters && i == c.head) ==> n.glyphs[i] == c.glyphs[i]
            &&& r == (if y % 7 == 0 {
                xorshift(g)
            } else {
                y
            })
        }),
{
}

proof fn still_rain_is_not_churned(w: Rain, from: int)
    requires
        0 <= from <= w.columns.len(),
        forall|k: int| 0 <= k < w.columns.len() ==> !(#[trigger] w.columns[k]).active,
    ensures
        churned_from(w, from) == w,
    decreases w.columns.len() - from,
{
    if from < w.columns.len() {
        assert(!w.columns[from].active);
        assert(w.columns.update(from, w.columns[from]) =~= w.columns);
        still_rain_is_not_churned(w, from + 1);
    }
}

/// Two attempts to spawn are made in each frame: while nothing falls, a frame is those
/// two and no more.
pub proof fn frames_spawn_twice(w: Rain)
    requires
        forall|k: int| 0 <= k < w.columns.len() ==> !(#[trigger] w.columns[k]).active,
    ensures
        stepped(w) == seeded(seeded(w)),
{
    let fall = Rain { columns: w.columns.map_values(|c: Stream| fallen(c)), ..w };
    assert forall|k: int| 0 <= k < w.columns.len() implies fall.columns[k] == w.columns[k] by {
        assert(!w.columns[k].active);
    }
    assert(fall.columns =~= w.columns);
    still_rain_is_not_churned(w, 0);
}

/// A spawned stream has its glyphs drawn one after the other, from the top.
pub proof fn glyphs_are_drawn_in_turn(rng: u64, n: nat)
    ensures
        drawn(rng, 0) == (Seq::<u8>::empty(), rng),
        drawn(rng, n + 1).1 == xorshift(drawn(rng, n).1),
        drawn(rng, n + 1).0.drop_last() == drawn(rng, n).0,
        drawn(rng, n + 1).0.last() == drawn(rng, n + 1).1 % 16,
{
    assert(drawn(rng, n + 1).0.drop_last() =~= drawn(rng, n).0);
}

/// The streams are the columns, one for one, each as it is.
pub proof fn streams_are_the_columns(m: Matrix, i: int)
    requires
        0 <= i < m.columns@.len(),
    ensures
        m@.rng == m.rng,
        m@.columns.len() == m.columns@.len(),
        ({
            let c = m.columns@[i];
            let s = m@.columns[i];
            s.head == c.head && s.len == c.len && s.period == c.period && s.phase == c.phase
                && s.active == c.active && s.glyphs == c.glyphs@
        }),
{
}

} // verus!
