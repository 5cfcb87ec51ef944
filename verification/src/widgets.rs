//! Live metric widgets, rendered as hand-drawn graphs.
//!
//! Every metric is read directly from `/proc` and `/sys`. Graphs are drawn as
//! filled area silhouettes: CPU/GPU are coloured by load, RAM a fixed colour, and
//! network is a down/up split.
//!
//! A sample is the height of its column in pixels. GPU is AMD-only (the discrete
//! card is auto-detected by largest VRAM).

use vstd::prelude::*;

use crate::config::WidgetKind;
use crate::render;
use crate::render::{Rgb, Tile};
use crate::text;

verus! {

/// Default per-widget refresh interval when unset, in seconds.
pub const DEFAULT_REFRESH_SECS: u64 = 1;

/// One history sample per horizontal pixel: a smooth 1px-column silhouette.
pub const COLS: usize = 72;

/// Black border (px per side) left around a graph so it doesn't touch the edges.
pub const GRAPH_MARGIN: u32 = 6;

/// The background of a graph.
pub open spec fn backdrop() -> Rgb {
    Rgb { r: 18, g: 18, b: 22 }
}

fn blank_graph() -> (r: Tile)
    ensures
        r.shows(|x: int, y: int| backdrop()),
{
    Tile::from_pixel(Rgb { r: 18, g: 18, b: 22 })
}

// --- Histories -------------------------------------------------------------

/// The larger of two numbers.
pub open spec fn larger(a: int, b: int) -> int {
    if a > b {
        a
    } else {
        b
    }
}

/// A history with one more sample: no higher than `top`, and the oldest makes room
/// for it where there is none left.
pub open spec fn pushed(samples: Seq<u32>, v: u32, top: u32) -> Seq<u32> {
    let kept = if samples.len() == 72 {
        samples.drop_first()
    } else {
        samples
    };
    kept.push(
        if v > top {
            top
        } else {
            v
        },
    )
}

/// A history of samples, all pushed one after the other.
pub open spec fn all_pushed(vs: Seq<u32>, top: u32) -> Seq<u32>
    decreases vs.len(),
{
    if vs.len() == 0 {
        Seq::empty()
    } else {
        pushed(all_pushed(vs.drop_last(), top), vs.last(), top)
    }
}

/// A bounded history of column heights (one per horizontal pixel).
#[derive(Debug, Clone)]
pub struct History {
    pub samples: Vec<u32>,
    /// The greatest height.
    pub top: u32,
}

impl History {
    /// There are no more samples than columns, and none is too high.
    pub open spec fn wf(self) -> bool {
        &&& self.samples.len() <= 72
        &&& forall|i: int| 0 <= i < self.samples.len() ==> #[trigger] self.samples@[i] <= self.top
    }

    /// No samples yet.
    pub fn new(top: u32) -> (r: History)
        ensures
            r.wf(),
            r.top == top,
            r.samples@ == Seq::<u32>::empty(),
    {
        History { samples: Vec::new(), top }
    }

    /// Add a sample.
    pub fn push(&mut self, v: u32)
        requires
            old(self).wf(),
        ensures
            final(self).wf(),
            final(self).top == old(self).top,
            final(self).samples@ == pushed(old(self).samples@, v, old(self).top),
    {
        if self.samples.len() == COLS {
            self.samples.remove(0);
            assert(self.samples@ =~= old(self).samples@.drop_first());
        }
        let v: u32 = if v > self.top {
            self.top
        } else {
            v
        };
        self.samples.push(v);
    }

    /// The height of a column of the graph, 0 where there is no sample: the newest
    /// sample is in the last column.
    pub open spec fn height(self, x: int) -> int {
        let i = x - (72 - self.samples.len());
        if 0 <= i < self.samples.len() {
            self.samples@[i] as int
        } else {
            0
        }
    }

    /// Whether a column of the graph has a sample.
    pub open spec fn has(self, x: int) -> bool {
        72 - self.samples.len() <= x < 72
    }

    /// How high a column and the one before it reach.
    pub open spec fn reach(self, x: int) -> int {
        larger(self.height(x), self.height(x - 1))
    }
}

/// However many samples are pushed, the history holds the last of them, in order,
/// each cut to the greatest height.
pub proof fn history_keeps_the_last(vs: Seq<u32>, top: u32)
    ensures
        ({
            let h = all_pushed(vs, top);
            let n = vs.len();
            &&& h.len() == (if n < 72 {
                n
            } else {
                72
            })
            &&& forall|i: int|
                0 <= i < h.len() ==> #[trigger] h[i] == (if vs[n - h.len() + i] > top {
                    top
                } else {
                    vs[n - h.len() + i]
                })
        }),
    decreases vs.len(),
{
    if vs.len() > 0 {
        history_keeps_the_last(vs.drop_last(), top);
        let before = all_pushed(vs.drop_last(), top);
        let h = all_pushed(vs, top);
        let n = vs.len();
        assert forall|i: int| 0 <= i < h.len() implies #[trigger] h[i] == (if vs[n - h.len() + i]
            > top {
            top
        } else {
            vs[n - h.len() + i]
        }) by {
            if i < h.len() - 1 {
                if before.len() == 72 {
                    assert(h[i] == before[i + 1]);
                } else {
                    assert(h[i] == before[i]);
                }
            }
        }
    }
}

// --- Graphs ----------------------------------------------------------------

/// What an area graph shows: each column is filled from the bottom up, as high as
/// it and the one before it reach, in the color of the row.
pub open spec fn area(h: History, colors: Seq<Rgb>) -> spec_fn(int, int) -> Rgb {
    |x: int, y: int|
        if h.has(x) && y >= 72 - h.reach(x) {
            colors[y]
        } else {
            backdrop()
        }
}

/// The height of a column and that of the one before it, where there is one.
fn column_heights(h: &History, i: usize) -> (r: (u32, Option<u32>))
    requires
        h.wf(),
        i < h.samples.len(),
    ensures
        r.0 == h.samples@[i as int],
        match r.1 {
            Some(p) => i > 0 && p == h.samples@[i - 1],
            None => i == 0,
        },
{
    let before: Option<u32> = if i > 0 {
        Some(h.samples[i - 1])
    } else {
        None
    };
    (h.samples[i], before)
}

/// Draw a filled area silhouette (oldest left, newest right) growing up from the
/// bottom. Each pixel is coloured by its row, so for the load gradient a single
/// column runs green (bottom) → red (top). Columns are joined so the outline is
/// continuous (no gappy bars).
pub fn area_graph(h: &History, colors: &Vec<Rgb>) -> (r: Tile)
    requires
        h.wf(),
        h.top == 72,
        colors.len() == 72,
    ensures
        r.shows(area(*h, colors@)),
{
    let mut tile = blank_graph();
    let n: usize = h.samples.len();
    let mut i: usize = 0;
    while i < n
        invariant
            h.wf(),
            h.top == 72,
            colors.len() == 72,
            n == h.samples.len(),
            i <= n,
            tile.wf(),
            forall|x: int, y: int|
                0 <= x < 72 && 0 <= y < 72 ==> #[trigger] tile.at(x, y) == (if x < 72 - n + i {
                    area(*h, colors@)(x, y)
                } else {
                    backdrop()
                }),
        decreases n - i,
    {
        let x: u32 = (COLS - n + i) as u32;
        let (height, before) = column_heights(h, i);
        let reach: u32 = match before {
            Some(p) => if p > height {
                p
            } else {
                height
            },
            None => height,
        };
        assert(reach == h.reach(x as int));
        let mut y: u32 = 72 - reach;
        while y < 72
            invariant
                h.wf(),
                colors.len() == 72,
                n == h.samples.len(),
                i < n,
                x == 72 - n + i,
                reach == h.reach(x as int),
                reach <= 72,
                72 - reach <= y <= 72,
                tile.wf(),
                forall|a: int, b: int|
                    0 <= a < 72 && 0 <= b < 72 ==> #[trigger] tile.at(a, b) == (if a < x || a == x
                        && b < y {
                        area(*h, colors@)(a, b)
                    } else {
                        backdrop()
                    }),
            decreases 72 - y,
        {
            tile.put_pixel(x, y, colors[y as usize]);
            y = y + 1;
        }
        i = i + 1;
    }
    tile
}

/// The outline of an area graph never breaks: where a column is filled at all, the
/// next one is filled as high.
pub proof fn area_outline_is_continuous(h: History, x: int, y: int)
    requires
        h.wf(),
        h.has(x),
        x + 1 < 72,
        y >= 72 - h.height(x),
    ensures
        h.has(x + 1),
        y >= 72 - h.reach(x),
        y >= 72 - h.reach(x + 1),
{
}

/// Download: pastel cyan-blue (grows up).
pub open spec fn net_down() -> Rgb {
    Rgb { r: 105, g: 200, b: 240 }
}

/// Upload: pastel magenta-purple (grows down).
pub open spec fn net_up() -> Rgb {
    Rgb { r: 205, g: 135, b: 230 }
}

/// The line between them.
pub open spec fn net_divider() -> Rgb {
    Rgb { r: 90, g: 90, b: 104 }
}

/// Whether a pixel belongs to a silhouette that grows up from the divider.
pub open spec fn grows_up(h: History, x: int, y: int) -> bool {
    h.has(x) && 36 - h.reach(x) <= y < 36
}

/// Whether a pixel belongs to a silhouette that grows down from the divider. The
/// joint to the column before it takes one row more.
pub open spec fn grows_down(h: History, x: int, y: int) -> bool {
    h.has(x) && 36 < y < 36 + h.reach(x) + (if h.has(x - 1) {
        1int
    } else {
        0int
    })
}

/// What a network graph shows.
pub open spec fn split(down: History, up: History) -> spec_fn(int, int) -> Rgb {
    |x: int, y: int|
        if y == 36 {
            net_divider()
        } else if grows_up(down, x, y) {
            net_down()
        } else if grows_down(up, x, y) {
            net_up()
        } else {
            backdrop()
        }
}

/// Fill a connected silhouette anchored at the divider, growing up (`grow_up`) or
/// down. Each column is filled to the divider; adjacent column edges are joined
/// vertically so the outline never breaks into separate vertical lines. What it
/// does to the divider's own row is left open: the divider is drawn over it.
fn silhouette(tile: &mut Tile, h: &History, color: Rgb, grow_up: bool)
    requires
        old(tile).wf(),
        h.wf(),
        h.top == 36,
    ensures
        final(tile).wf(),
        forall|x: int, y: int|
            0 <= x < 72 && 0 <= y < 72 && y != 36 ==> #[trigger] final(tile).at(x, y) == (if grow_up
                && grows_up(*h, x, y) || !grow_up && grows_down(*h, x, y) {
                color
            } else {
                old(tile).at(x, y)
            }),
{
    let n: usize = h.samples.len();
    let mut i: usize = 0;
    while i < n
        invariant
            h.wf(),
            h.top == 36,
            n == h.samples.len(),
            i <= n,
            tile.wf(),
            forall|x: int, y: int|
                0 <= x < 72 && 0 <= y < 72 && y != 36 ==> #[trigger] tile.at(x, y) == (if x < 72 - n
                    + i && (grow_up && grows_up(*h, x, y) || !grow_up && grows_down(*h, x, y)) {
                    color
                } else {
                    old(tile).at(x, y)
                }),
        decreases n - i,
    {
        let x: i32 = (COLS - n + i) as i32;
        let (height, before) = column_heights(h, i);
        // Column fill between the free edge and the divider.
        if grow_up {
            render::fill_rect(tile, x, 36 - height as i32, 1, height, color);
        } else {
            render::fill_rect(tile, x, 36, 1, height, color);
        }
        // Join this edge to the previous column's edge (continuous outline).
        if let Some(p) = before {
            let (low, high) = if p < height {
                (p, height)
            } else {
                (height, p)
            };
            if grow_up {
                render::fill_rect(tile, x, 36 - high as i32, 1, high - low + 1, color);
            } else {
                render::fill_rect(tile, x, 36 + low as i32, 1, high - low + 1, color);
            }
        }
        i = i + 1;
    }
}

// --- Numbers in text -------------------------------------------------------

/// The words that are numbers, in order.
pub open spec fn numbers(words: Seq<Seq<char>>) -> Seq<u64>
    decreases words.len(),
{
    if words.len() == 0 {
        Seq::empty()
    } else {
        let before = numbers(words.drop_last());
        match text::read_unsigned(words.last(), u64::MAX as nat) {
            Some(n) => before.push(n as u64),
            None => before,
        }
    }
}

/// The words that are numbers, in order.
fn read_numbers(words: &Vec<Vec<char>>) -> (r: Vec<u64>)
    ensures
        r@ == numbers(text::chars_views(words@)),
{
    let ghost all = text::chars_views(words@);
    let mut out: Vec<u64> = Vec::new();
    let mut i: usize = 0;
    assert(all.take(0) =~= Seq::<Seq<char>>::empty());
    while i < words.len()
        invariant
            all == text::chars_views(words@),
            i <= words.len(),
            out@ == numbers(all.take(i as int)),
        decreases words.len() - i,
    {
        assert(all.take(i + 1).drop_last() =~= all.take(i as int));
        assert(all.take(i + 1).last() == words@[i as int]@);
        if let Some(n) = text::parse_unsigned(&words[i], u64::MAX) {
            out.push(n);
        }
        i = i + 1;
    }
    assert(all.take(all.len() as int) =~= all);
    out
}

/// The sum of numbers.
pub open spec fn sum(vals: Seq<u64>) -> int
    decreases vals.len(),
{
    if vals.len() == 0 {
        0
    } else {
        sum(vals.drop_last()) + vals.last()
    }
}

proof fn sum_grows(vals: Seq<u64>, i: int)
    requires
        0 <= i <= vals.len(),
    ensures
        0 <= sum(vals.take(i)) <= sum(vals),
    decreases vals.len(),
{
    if i == vals.len() {
        assert(vals.take(i) =~= vals);
        if i > 0 {
            sum_grows(vals.drop_last(), i - 1);
        }
    } else {
        sum_grows(vals.drop_last(), i);
        assert(vals.drop_last().take(i) =~= vals.take(i));
    }
}

/// The sum of numbers, where it fits.
fn checked_sum(vals: &Vec<u64>) -> (r: Option<u64>)
    ensures
        match r {
            Some(n) => n == sum(vals@),
            None => sum(vals@) > u64::MAX,
        },
{
    let mut n: u64 = 0;
    let mut i: usize = 0;
    assert(vals@.take(0) =~= Seq::<u64>::empty());
    while i < vals.len()
        invariant
            i <= vals.len(),
            n == sum(vals@.take(i as int)),
        decreases vals.len() - i,
    {
        assert(vals@.take(i + 1).drop_last() =~= vals@.take(i as int));
        proof {
            sum_grows(vals@, i + 1);
        }
        match n.checked_add(vals[i]) {
            Some(m) => {
                n = m;
            },
            None => return None,
        }
        i = i + 1;
    }
    assert(vals@.take(vals@.len() as int) =~= vals@);
    Some(n)
}

// --- CPU -------------------------------------------------------------------

/// The fields of the aggregate `cpu` line, which is the first.
pub open spec fn cpu_fields(content: Seq<char>) -> Option<Seq<u64>> {
    let lines = text::lines_of(content);
    if lines.len() == 0 {
        None
    } else {
        let words = text::words(lines[0]);
        if words.len() > 0 && words[0] == "cpu"@ && numbers(words.drop_first()).len() >= 5 {
            Some(numbers(words.drop_first()))
        } else {
            None
        }
    }
}

/// Parse the aggregate `cpu` line of `/proc/stat` into (total, idle) jiffies; idle
/// counts waiting for I/O too. There are none where the line does not begin so,
/// has too few fields, or sums up to more than fits.
pub fn read_proc_stat(content: &str) -> (r: Option<(u64, u64)>)
    ensures
        match r {
            Some((total, idle)) => cpu_fields(content@) matches Some(v) && total == sum(v) && idle
                == v[3] + v[4],
            None => match cpu_fields(content@) {
                Some(v) => sum(v) > u64::MAX,
                None => true,
            },
        },
{
    let lines = text::lines(&text::chars(content));
    assert(text::chars_views(lines@).len() == lines@.len());
    if lines.len() == 0 {
        return None;
    }
    assert(text::chars_views(lines@)[0] == lines@[0]@);
    let mut words = text::split_words(&lines[0]);
    let ghost all = text::chars_views(words@);
    assert(all.len() == words@.len());
    if words.len() == 0 {
        return None;
    }
    assert(all[0] == words@[0]@);
    if !text::same(&words[0], "cpu") {
        return None;
    }
    words.remove(0);
    assert(text::chars_views(words@) =~= all.drop_first());
    let vals = read_numbers(&words);
    if vals.len() < 5 {
        return None;
    }
    match checked_sum(&vals) {
        Some(total) => {
            proof {
                idle_below_sum(vals@);
            }
            Some((total, vals[3] + vals[4]))
        },
        None => None,
    }
}

proof fn idle_below_sum(v: Seq<u64>)
    requires
        v.len() >= 5,
    ensures
        v[3] + v[4] <= sum(v),
{
    sum_grows(v, 5);
    let a = v.take(5);
    let b = a.drop_last();
    assert(b =~= v.take(4));
    assert(a.last() == v[4] && b.last() == v[3]);
    sum_grows(b.drop_last(), 0);
    assert(b.drop_last().take(0) =~= Seq::<u64>::empty());
    assert(sum(a) == sum(b) + v[4]);
    assert(sum(b) == sum(b.drop_last()) + v[3]);
}

/// What the processors did since the previous sample, in jiffies.
#[derive(Debug, Clone, Copy, PartialEq, Eq, Structural)]
pub struct CpuDelta {
    pub total: u64,
    pub idle: u64,
}

#[derive(Debug, Clone)]
pub struct CpuSampler {
    pub prev_total: u64,
    pub prev_idle: u64,
    pub history: History,
}

impl CpuSampler {
    /// The history fits the graph.
    pub open spec fn wf(self) -> bool {
        self.history.wf() && self.history.top == 72
    }

    pub fn new() -> (r: CpuSampler)
        ensures
            r.wf(),
            r.prev_total == 0,
            r.prev_idle == 0,
            r.history.samples@ == Seq::<u32>::empty(),
    {
        CpuSampler { prev_total: 0, prev_idle: 0, history: History::new(72) }
    }

    /// What changed since the previous sample. A reading that went backwards, or
    /// none at all, changes nothing.
    pub fn sample(&mut self, reading: Option<(u64, u64)>) -> (r: Option<CpuDelta>)
        ensures
            final(self).history == old(self).history,
            match reading {
                Some((total, idle)) if total >= old(self).prev_total && idle >= old(
                    self,
                ).prev_idle => {
                    &&& r == Some(
                        CpuDelta {
                            total: (total - old(self).prev_total) as u64,
                            idle: (idle - old(self).prev_idle) as u64,
                        },
                    )
                    &&& final(self).prev_total == total
                    &&& final(self).prev_idle == idle
                },
                _ => {
                    &&& r is None
                    &&& final(self).prev_total == old(self).prev_total
                    &&& final(self).prev_idle == old(self).prev_idle
                },
            },
    {
        let (total, idle) = match reading {
            Some(t) => t,
            None => return None,
        };
        let dt: u64 = match total.checked_sub(self.prev_total) {
            Some(d) => d,
            None => return None,
        };
        let di: u64 = match idle.checked_sub(self.prev_idle) {
            Some(d) => d,
            None => return None,
        };
        self.prev_total = total;
        self.prev_idle = idle;
        Some(CpuDelta { total: dt, idle: di })
    }
}

// --- RAM -------------------------------------------------------------------

/// What is read of `/proc/meminfo`: the words behind the last `MemTotal:` and the
/// last `MemAvailable:`.
pub struct Mem {
    pub total: Option<Seq<char>>,
    pub available: Option<Seq<char>>,
}

/// What is read of the lines, or nothing where one of those that count has no word
/// behind it.
pub open spec fn mem_of(lines: Seq<Seq<char>>) -> Option<Mem>
    decreases lines.len(),
{
    if lines.len() == 0 {
        Some(Mem { total: None, available: None })
    } else {
        match mem_of(lines.drop_last()) {
            None => None,
            Some(m) => {
                let line = lines.last();
                if text::begins(line, "MemTotal:"@) {
                    let words = text::words(line.skip("MemTotal:"@.len() as int));
                    if words.len() == 0 {
                        None
                    } else {
                        Some(Mem { total: Some(words[0]), ..m })
                    }
                } else if text::begins(line, "MemAvailable:"@) {
                    let words = text::words(line.skip("MemAvailable:"@.len() as int));
                    if words.len() == 0 {
                        None
                    } else {
                        Some(Mem { available: Some(words[0]), ..m })
                    }
                } else {
                    Some(m)
                }
            },
        }
    }
}

/// Once a line gives nothing, all of it gives nothing.
proof fn mem_stays_none(lines: Seq<Seq<char>>, i: int)
    requires
        0 <= i <= lines.len(),
        mem_of(lines.take(i)) is None,
    ensures
        mem_of(lines) is None,
    decreases lines.len() - i,
{
    if i == lines.len() {
        assert(lines.take(i) =~= lines);
    } else {
        assert(lines.take(i + 1).drop_last() =~= lines.take(i));
        mem_stays_none(lines, i + 1);
    }
}

/// The numbers of `/proc/meminfo` that the used fraction is made of, as they are
/// written.
#[derive(Debug, Clone)]
pub struct MemInfo {
    pub total: Option<String>,
    pub available: Option<String>,
}

/// The first word of a text.
fn first_word(v: &Vec<char>) -> (r: Option<String>)
    ensures
        match r {
            Some(w) => text::words(v@).len() > 0 && w@ == text::words(v@)[0],
            None => text::words(v@).len() == 0,
        },
{
    let words = text::split_words(v);
    assert(text::chars_views(words@).len() == words@.len());
    if words.len() == 0 {
        None
    } else {
        assert(text::chars_views(words@)[0] == words@[0]@);
        Some(text::string(&words[0]))
    }
}

/// Find the numbers of `/proc/meminfo` that the used fraction is made of.
pub fn read_meminfo(content: &str) -> (r: Option<MemInfo>)
    ensures
        match r {
            Some(m) => mem_of(text::lines_of(content@)) == Some(
                Mem {
                    total: match m.total {
                        Some(t) => Some(t@),
                        None => None,
                    },
                    available: match m.available {
                        Some(t) => Some(t@),
                        None => None,
                    },
                },
            ),
            None => mem_of(text::lines_of(content@)) is None,
        },
{
    let lines = text::lines(&text::chars(content));
    let ghost all = text::chars_views(lines@);
    let mut total: Option<String> = None;
    let mut available: Option<String> = None;
    let mut i: usize = 0;
    assert(all.take(0) =~= Seq::<Seq<char>>::empty());
    while i < lines.len()
        invariant
            all == text::chars_views(lines@),
            all == text::lines_of(content@),
            i <= lines.len(),
            mem_of(all.take(i as int)) == Some(
                Mem {
                    total: match total {
                        Some(t) => Some(t@),
                        None => None,
                    },
                    available: match available {
                        Some(t) => Some(t@),
                        None => None,
                    },
                },
            ),
        decreases lines.len() - i,
    {
        proof {
            assert(all.take(i + 1).drop_last() =~= all.take(i as int));
            assert(all.take(i + 1).last() == lines@[i as int]@);
            if mem_of(all.take(i + 1)) is None {
                mem_stays_none(all, i + 1);
            }
        }
        if let Some(rest) = text::strip_prefix(&lines[i], "MemTotal:") {
            total = first_word(&rest);
            if total.is_none() {
                return None;
            }
        } else if let Some(rest) = text::strip_prefix(&lines[i], "MemAvailable:") {
            available = first_word(&rest);
            if available.is_none() {
                return None;
            }
        }
        i = i + 1;
    }
    assert(all.take(all.len() as int) =~= all);
    Some(MemInfo { total, available })
}

// --- Network ---------------------------------------------------------------

/// The (received, sent) bytes that a line of `/proc/net/dev` gives for an
/// interface.
pub open spec fn line_bytes(line: Seq<char>, iface: Seq<char>) -> Option<(u64, u64)> {
    let t = text::trimmed(line);
    let rest = t.skip(iface.len() as int);
    if text::begins(t, iface) && text::begins(rest, ":"@) {
        let vals = numbers(text::words(rest.skip(":"@.len() as int)));
        if vals.len() >= 9 {
            Some((vals[0], vals[8]))
        } else {
            None
        }
    } else {
        None
    }
}

/// The bytes of an interface, from the first line that gives them.
pub open spec fn net_bytes(lines: Seq<Seq<char>>, iface: Seq<char>) -> Option<(u64, u64)>
    decreases lines.len(),
{
    if lines.len() == 0 {
        None
    } else {
        match line_bytes(lines[0], iface) {
            Some(b) => Some(b),
            None => net_bytes(lines.drop_first(), iface),
        }
    }
}

/// Read (rx_bytes, tx_bytes) for an interface from `/proc/net/dev`.
pub fn read_net_bytes(content: &str, iface: &str) -> (r: Option<(u64, u64)>)
    ensures
        r == net_bytes(text::lines_of(content@), iface@),
{
    let lines = text::lines(&text::chars(content));
    let ghost all = text::chars_views(lines@);
    let mut i: usize = 0;
    assert(all.skip(0) =~= all);
    while i < lines.len()
        invariant
            all == text::chars_views(lines@),
            all == text::lines_of(content@),
            i <= lines.len(),
            net_bytes(all.skip(i as int), iface@) == net_bytes(all, iface@),
        decreases lines.len() - i,
    {
        assert(all.skip(i as int)[0] == lines@[i as int]@);
        assert(all.skip(i as int).drop_first() =~= all.skip(i + 1));
        let line = text::trim(&lines[i]);
        if let Some(rest) = text::strip_prefix(&line, iface) {
            if let Some(rest) = text::strip_prefix(&rest, ":") {
                let words = text::split_words(&rest);
                let vals = read_numbers(&words);
                // Fields: rx_bytes(0) ... tx_bytes(8).
                if vals.len() >= 9 {
                    return Some((vals[0], vals[8]));
                }
            }
        }
        i = i + 1;
    }
    None
}

/// The interface of the first route to anywhere; nothing where a line before it
/// has fewer than two words.
pub open spec fn route_of(lines: Seq<Seq<char>>) -> Option<Seq<char>>
    decreases lines.len(),
{
    if lines.len() == 0 {
        None
    } else {
        let words = text::words(lines[0]);
        if words.len() < 2 {
            None
        } else if words[1] == "00000000"@ {
            Some(words[0])
        } else {
            route_of(lines.drop_first())
        }
    }
}

/// The interface of the default route, from `/proc/net/route` (destination
/// 00000000, below the heading). Used when no interface is configured.
pub fn default_route_iface(content: &str) -> (r: Option<String>)
    ensures
        match r {
            Some(i) => route_of(text::lines_of(content@).skip(1)) == Some(i@),
            None => text::lines_of(content@).len() == 0 || route_of(
                text::lines_of(content@).skip(1),
            ) is None,
        },
{
    let lines = text::lines(&text::chars(content));
    let ghost all = text::chars_views(lines@);
    assert(all.len() == lines@.len());
    if lines.len() == 0 {
        return None;
    }
    let mut i: usize = 1;
    while i < lines.len()
        invariant
            all == text::chars_views(lines@),
            all == text::lines_of(content@),
            1 <= i <= lines.len(),
            route_of(all.skip(i as int)) == route_of(all.skip(1)),
        decreases lines.len() - i,
    {
        assert(all.skip(i as int)[0] == lines@[i as int]@);
        assert(all.skip(i as int).drop_first() =~= all.skip(i + 1));
        let words = text::split_words(&lines[i]);
        let ghost w = text::chars_views(words@);
        assert(w.len() == words@.len());
        if words.len() < 2 {
            return None;
        }
        assert(w[0] == words@[0]@ && w[1] == words@[1]@);
        if text::same(&words[1], "00000000") {
            return Some(text::string(&words[0]));
        }
        i = i + 1;
    }
    None
}

/// An interface's negotiated link speed in Mbit/s, from the content of its `speed`
/// file. `None` when unknown: Wi-Fi and virtual interfaces report `-1`, which
/// selects the relative fallback scale.
pub fn link_speed_mbit(raw: &str) -> (r: Option<i64>)
    ensures
        match r {
            Some(n) => n > 0 && text::read_signed(text::trimmed(raw@)) == Some(n as int),
            None => match text::read_signed(text::trimmed(raw@)) {
                Some(n) => n <= 0,
                None => true,
            },
        },
{
    match text::parse_signed(&text::trim(&text::chars(raw))) {
        Some(n) => if n > 0 {
            Some(n)
        } else {
            None
        },
        None => None,
    }
}

/// A reading of an interface's counters, and when (nanoseconds).
#[derive(Debug, Clone, Copy, PartialEq, Eq, Structural)]
pub struct NetReading {
    pub rx: u64,
    pub tx: u64,
    pub at_ns: u64,
}

/// What went through an interface since the previous reading.
#[derive(Debug, Clone, Copy, PartialEq, Eq, Structural)]
pub struct NetDelta {
    pub rx: u64,
    pub tx: u64,
    pub elapsed_ns: u64,
}

/// How far one number is above another.
pub open spec fn above(a: u64, b: u64) -> u64 {
    if a > b {
        (a - b) as u64
    } else {
        0
    }
}

#[derive(Debug, Clone)]
pub struct NetSampler {
    /// The configured interface.
    pub iface: Option<String>,
    pub prev: Option<NetReading>,
    pub down: History,
    pub up: History,
    /// Whether there is an interface to graph.
    pub linked: bool,
    /// Whether the link speed was asked for.
    pub ceiling_checked: bool,
}

impl NetSampler {
    /// The histories fit the halves of the graph.
    pub open spec fn wf(self) -> bool {
        self.down.wf() && self.down.top == 36 && self.up.wf() && self.up.top == 36
    }

    pub fn new(iface: Option<String>) -> (r: NetSampler)
        ensures
            r.wf(),
            r.iface == iface,
            r.prev is None,
            !r.linked,
            !r.ceiling_checked,
            r.down.samples@ == Seq::<u32>::empty(),
            r.up.samples@ == Seq::<u32>::empty(),
    {
        NetSampler {
            iface,
            prev: None,
            down: History::new(36),
            up: History::new(36),
            linked: false,
            ceiling_checked: false,
        }
    }

    /// The interface to graph: the configured one, else that of the default route.
    /// Asked for each time, so a cable plugged in after start works.
    pub fn interface(&mut self, default_route: Option<String>) -> (r: Option<String>)
        ensures
            match old(self).iface {
                Some(i) => r is Some && r->0@ == i@,
                None => r == default_route,
            },
            *final(self) == (NetSampler { linked: r is Some, ..*old(self) }),
    {
        let chosen = match &self.iface {
            Some(i) => Some(i.as_str().to_string()),
            None => default_route,
        };
        self.linked = chosen.is_some();
        chosen
    }

    /// Whether the link speed has to be asked for now: once, when the interface is
    /// known.
    pub fn check_ceiling(&mut self) -> (r: bool)
        ensures
            r == (old(self).linked && !old(self).ceiling_checked),
            *final(self) == (NetSampler {
                ceiling_checked: old(self).ceiling_checked || old(self).linked,
                ..*old(self)
            }),
    {
        let first = self.linked && !self.ceiling_checked;
        if self.linked {
            self.ceiling_checked = true;
        }
        first
    }

    /// What went through since the previous reading; nothing is known after the
    /// first. Counters that went backwards count as no traffic.
    pub fn sample(&mut self, reading: Option<(u64, u64)>, now_ns: u64) -> (r: Option<NetDelta>)
        ensures
            match reading {
                None => r is None && *final(self) == *old(self),
                Some((rx, tx)) => {
                    &&& *final(self) == (NetSampler {
                        prev: Some(NetReading { rx, tx, at_ns: now_ns }),
                        ..*old(self)
                    })
                    &&& r == (match old(self).prev {
                        None => None,
                        Some(p) => Some(
                            NetDelta {
                                rx: above(rx, p.rx),
                                tx: above(tx, p.tx),
                                elapsed_ns: above(now_ns, p.at_ns),
                            },
                        ),
                    })
                },
            },
    {
        let (rx, tx) = match reading {
            Some(t) => t,
            None => return None,
        };
        let delta = match self.prev {
            None => None,
            Some(p) => Some(
                NetDelta {
                    rx: rx.saturating_sub(p.rx),
                    tx: tx.saturating_sub(p.tx),
                    elapsed_ns: now_ns.saturating_sub(p.at_ns),
                },
            ),
        };
        self.prev = Some(NetReading { rx, tx, at_ns: now_ns });
        delta
    }

    /// Add a sample of each signal.
    pub fn record(&mut self, down: u32, up: u32)
        requires
            old(self).wf(),
        ensures
            final(self).wf(),
            final(self).down.samples@ == pushed(old(self).down.samples@, down, 36),
            final(self).up.samples@ == pushed(old(self).up.samples@, up, 36),
            final(self).iface == old(self).iface,
            final(self).prev == old(self).prev,
            final(self).linked == old(self).linked,
            final(self).ceiling_checked == old(self).ceiling_checked,
    {
        self.down.push(down);
        self.up.push(up);
    }

    /// What the graph shows: both signals grow out from the centre divider, where
    /// there is an interface to graph.
    pub open spec fn graph(self) -> spec_fn(int, int) -> Rgb {
        if self.linked {
            split(self.down, self.up)
        } else {
            |x: int, y: int| backdrop()
        }
    }

    /// Both signals grow out from the centre divider: download upward, upload
    /// downward.
    pub fn draw(&self) -> (r: Tile)
        requires
            self.wf(),
        ensures
            r.shows(self.graph()),
    {
        let mut tile = blank_graph();
        if self.linked {
            silhouette(&mut tile, &self.down, Rgb { r: 105, g: 200, b: 240 }, true);
            silhouette(&mut tile, &self.up, Rgb { r: 205, g: 135, b: 230 }, false);
            render::fill_rect(&mut tile, 0, 36, 72, 1, Rgb { r: 90, g: 90, b: 104 });
        }
        tile
    }
}

// --- GPU (AMD) -------------------------------------------------------------

/// A card as `/sys/class/drm` shows it.
#[derive(Debug, Clone)]
pub struct Card {
    /// The name of its directory.
    pub name: String,
    /// The content of its `vendor` file.
    pub vendor: Option<String>,
    /// Whether it tells how busy it is.
    pub has_busy: bool,
    /// The content of its `mem_info_vram_total` file.
    pub vram: Option<String>,
}

/// The number in the content of a file.
pub open spec fn file_number(content: Option<String>) -> Option<nat> {
    match content {
        Some(c) => text::read_unsigned(text::trimmed(c@), u64::MAX as nat),
        None => None,
    }
}

/// The number in the content of a file.
pub fn read_u64(content: &Option<String>) -> (r: Option<u64>)
    ensures
        match r {
            Some(n) => file_number(*content) == Some(n as nat),
            None => file_number(*content) is None,
        },
{
    match content {
        Some(c) => text::parse_unsigned(&text::trim(&text::chars(c.as_str())), u64::MAX),
        None => None,
    }
}

/// Whether a directory is that of a card (`card0`, `card1`, …), not of a connector
/// (`card0-DP-1`).
pub open spec fn is_card(name: Seq<char>) -> bool {
    text::begins(name, "card"@) && text::all_digits(name.skip("card"@.len() as int))
}

/// Whether a card can be graphed: AMD, and it tells how busy it is.
pub open spec fn is_usable(c: Card) -> bool {
    &&& is_card(c.name@)
    &&& c.vendor is Some
    &&& text::trimmed(c.vendor->0@) == "0x1002"@
    &&& c.has_busy
}

/// The memory of a card, 0 where it tells none.
pub open spec fn vram_of(c: Card) -> nat {
    match file_number(c.vram) {
        Some(n) => n,
        None => 0,
    }
}

/// Whether a card can be graphed.
fn usable(c: &Card) -> (r: bool)
    ensures
        r == is_usable(*c),
{
    let rest = match text::strip_prefix(&text::chars(c.name.as_str()), "card") {
        Some(rest) => rest,
        None => return false,
    };
    let mut i: usize = 0;
    while i < rest.len()
        invariant
            rest@ == c.name@.skip("card"@.len() as int),
            i <= rest.len(),
            forall|j: int| 0 <= j < i ==> text::is_digit(rest@[j]),
        decreases rest.len() - i,
    {
        if !text::digit(rest[i]) {
            assert(!text::is_digit(rest@[i as int]));
            return false;
        }
        i = i + 1;
    }
    match &c.vendor {
        Some(v) => text::same(&text::trim(&text::chars(v.as_str())), "0x1002") && c.has_busy,
        None => false,
    }
}

/// Auto-detect the **discrete** AMD GPU: among the cards that are AMD (vendor
/// 0x1002) and tell how busy they are, pick the one with the largest VRAM (the
/// dGPU vs. the iGPU), the first where several have as much.
pub fn detect_amd_gpu(cards: &Vec<Card>) -> (r: Option<usize>)
    ensures
        match r {
            Some(b) => {
                &&& b < cards.len()
                &&& is_usable(cards@[b as int])
                &&& forall|i: int|
                    0 <= i < cards.len() && is_usable(#[trigger] cards@[i]) ==> vram_of(cards@[i])
                        <= vram_of(cards@[b as int]) && (i < b ==> vram_of(cards@[i]) < vram_of(
                        cards@[b as int],
                    ))
            },
            None => forall|i: int| 0 <= i < cards.len() ==> !is_usable(#[trigger] cards@[i]),
        },
{
    let mut best: Option<(u64, usize)> = None;
    let mut i: usize = 0;
    while i < cards.len()
        invariant
            i <= cards.len(),
            match best {
                Some((size, b)) => {
                    &&& b < i
                    &&& is_usable(cards@[b as int])
                    &&& size == vram_of(cards@[b as int])
                    &&& forall|j: int|
                        0 <= j < i && is_usable(#[trigger] cards@[j]) ==> vram_of(cards@[j]) <= size
                            && (j < b ==> vram_of(cards@[j]) < size)
                },
                None => forall|j: int| 0 <= j < i ==> !is_usable(#[trigger] cards@[j]),
            },
        decreases cards.len() - i,
    {
        if usable(&cards[i]) {
            let size: u64 = match read_u64(&cards[i].vram) {
                Some(n) => n,
                None => 0,
            };
            assert(size == vram_of(cards@[i as int]));
            let better = match best {
                Some((s, _)) => size > s,
                None => true,
            };
            if better {
                best = Some((size, i));
            }
        }
        i = i + 1;
    }
    match best {
        Some((_, b)) => Some(b),
        None => None,
    }
}

/// The height of a column for a busy percentage: proportional to it, to the nearest
/// pixel.
pub fn busy_height(percent: u64) -> (r: u32)
    ensures
        r == (if percent >= 100 {
            72
        } else {
            (72 * percent + 50) / 100
        }),
{
    if percent >= 100 {
        72
    } else {
        ((72 * percent + 50) / 100) as u32
    }
}

// --- Widgets ---------------------------------------------------------------

/// What a widget samples.
#[derive(Debug, Clone)]
pub enum Sampler {
    Cpu(CpuSampler),
    Ram(History),
    Network(NetSampler),
    /// With the histories of the card in use.
    Gpu(History),
}

impl Sampler {
    /// The histories fit the graph.
    pub open spec fn wf(self) -> bool {
        match self {
            Sampler::Cpu(s) => s.wf(),
            Sampler::Ram(h) => h.wf() && h.top == 72,
            Sampler::Network(s) => s.wf(),
            Sampler::Gpu(h) => h.wf() && h.top == 72,
        }
    }

    /// A sampler for a kind of widget.
    pub fn new(kind: WidgetKind, interface: Option<String>) -> (r: Sampler)
        ensures
            r.wf(),
            is_of_kind(r, kind, text::opt(interface)),
            is_fresh(r),
            match kind {
                WidgetKind::Cpu => r is Cpu,
                WidgetKind::Ram => r is Ram,
                WidgetKind::Network => r is Network && r->Network_0.iface == interface,
                WidgetKind::Gpu => r is Gpu,
            },
    {
        match kind {
            WidgetKind::Cpu => Sampler::Cpu(CpuSampler::new()),
            WidgetKind::Ram => Sampler::Ram(History::new(72)),
            WidgetKind::Network => Sampler::Network(NetSampler::new(interface)),
            WidgetKind::Gpu => Sampler::Gpu(History::new(72)),
        }
    }

    /// What the graph shows. RAM keeps a fixed colour (it's a level, not a load to
    /// alarm on); the load colors are given by row.
    pub open spec fn graph(self, load: Seq<Rgb>) -> spec_fn(int, int) -> Rgb {
        match self {
            Sampler::Cpu(s) => area(s.history, load),
            Sampler::Ram(h) => area(h, Seq::new(72, |y: int| Rgb { r: 120, g: 165, b: 235 })),
            Sampler::Network(s) => s.graph(),
            Sampler::Gpu(h) => area(h, load),
        }
    }

    /// Draw the graph.
    pub fn draw(&self, load: &Vec<Rgb>) -> (r: Tile)
        requires
            self.wf(),
            load.len() == 72,
        ensures
            r.shows(self.graph(load@)),
    {
        match self {
            Sampler::Cpu(s) => area_graph(&s.history, load),
            Sampler::Ram(h) => {
                let mut colors: Vec<Rgb> = Vec::new();
                while colors.len() < 72
                    invariant
                        colors.len() <= 72,
                        forall|i: int|
                            0 <= i < colors.len() ==> #[trigger] colors@[i] == (Rgb {
                                r: 120,
                                g: 165,
                                b: 235,
                            }),
                    decreases 72 - colors.len(),
                {
                    colors.push(Rgb { r: 120, g: 165, b: 235 });
                }
                assert(colors@ =~= Seq::new(72, |y: int| Rgb { r: 120, g: 165, b: 235 }));
                area_graph(h, &colors)
            },
            Sampler::Network(s) => s.draw(),
            Sampler::Gpu(h) => area_graph(h, load),
        }
    }
}

/// A widget instance bound to one key: its sampler, refresh cadence, the last
/// rendered tile, and a generation counter the runtime watches for repaints.
#[derive(Debug, Clone)]
pub struct Widget {
    pub sampler: Sampler,
    /// In seconds.
    pub interval: u64,
    /// When it was rendered last, in milliseconds.
    pub last_render: u64,
    pub generation: u64,
    pub tile: Tile,
}

/// Whether a tile shows a graph inside its margin.
pub open spec fn shows_graph(tile: Tile, graph: spec_fn(int, int) -> Rgb) -> bool {
    exists|t: Tile| t.shows(graph) && #[trigger] render::is_inset(t, GRAPH_MARGIN as int, tile)
}

/// A generation later.
pub open spec fn next_generation(g: u64) -> u64 {
    if g == u64::MAX {
        0
    } else {
        (g + 1) as u64
    }
}

/// Whether a sampler is one for a kind of widget.
pub open spec fn is_of_kind(s: Sampler, kind: WidgetKind, interface: Option<Seq<char>>) -> bool {
    match kind {
        WidgetKind::Cpu => s is Cpu,
        WidgetKind::Ram => s is Ram,
        WidgetKind::Network => s matches Sampler::Network(n) && text::opt(n.iface) == interface,
        WidgetKind::Gpu => s is Gpu,
    }
}

/// Whether a sampler has seen nothing yet.
pub open spec fn is_fresh(s: Sampler) -> bool {
    match s {
        Sampler::Cpu(c) => c.prev_total == 0 && c.prev_idle == 0 && c.history.samples.len() == 0,
        Sampler::Ram(h) => h.samples.len() == 0,
        Sampler::Network(n) => n.prev is None && !n.linked && !n.ceiling_checked
            && n.down.samples.len() == 0 && n.up.samples.len() == 0,
        Sampler::Gpu(h) => h.samples.len() == 0,
    }
}

impl Widget {
    /// The sampler fits its graph, and the tile is one.
    pub open spec fn wf(self) -> bool {
        self.sampler.wf() && self.tile.wf()
    }

    /// Whether the refresh interval has elapsed since it was rendered.
    pub open spec fn is_due(self, now_ms: u64) -> bool {
        above(now_ms, self.last_render) as int / 1000 >= self.interval
    }

    /// Whether it was rendered at a time, so many times by then.
    pub open spec fn is_rendered(self, now_ms: u64, generation: u64, load: Seq<Rgb>) -> bool {
        &&& self.last_render == now_ms
        &&& self.generation == generation
        &&& shows_graph(self.tile, self.sampler.graph(load))
    }

    /// A widget, rendered right away: `sampler` has taken its first sample, so the first
    /// paint shows real data.
    pub fn new(sampler: Sampler, refresh_secs: Option<u64>, now_ms: u64, load: &Vec<Rgb>) -> (r:
        Widget)
        requires
            sampler.wf(),
            load.len() == 72,
        ensures
            r.wf(),
            r.sampler == sampler,
            r.interval == (match refresh_secs {
                Some(s) => s,
                None => DEFAULT_REFRESH_SECS,
            }),
            r.is_rendered(now_ms, 1, load@),
    {
        let mut widget = Widget {
            sampler,
            interval: match refresh_secs {
                Some(s) => s,
                None => DEFAULT_REFRESH_SECS,
            },
            last_render: now_ms,
            generation: 0,
            tile: render::blank_tile(),
        };
        widget.render(now_ms, load);
        widget
    }

    /// Render what the sampler has.
    fn render(&mut self, now_ms: u64, load: &Vec<Rgb>)
        requires
            old(self).wf(),
            load.len() == 72,
        ensures
            final(self).wf(),
            final(self).sampler == old(self).sampler,
            final(self).interval == old(self).interval,
            final(self).is_rendered(now_ms, next_generation(old(self).generation), load@),
    {
        self.last_render = now_ms;
        let graph = self.sampler.draw(load);
        self.tile = render::inset(&graph, GRAPH_MARGIN);
        self.generation = self.generation.wrapping_add(1);
    }

    /// The current render generation (changes when the tile is re-rendered).
    pub fn generation(&self) -> (r: u64)
        ensures
            r == self.generation,
    {
        self.generation
    }

    /// A copy of the latest rendered tile.
    pub fn tile(&self) -> (r: Tile)
        ensures
            r@ == self.tile@,
    {
        self.tile.copy()
    }

    /// Whether it has to be sampled and rendered.
    pub fn due(&self, now_ms: u64) -> (r: bool)
        ensures
            r == self.is_due(now_ms),
    {
        now_ms.saturating_sub(self.last_render) / 1000 >= self.interval
    }

    /// Re-render if the refresh interval has elapsed; `load` holds the load color
    /// of each row. Returns true if the tile changed (so the runtime knows to
    /// repaint).
    pub fn maybe_tick(&mut self, now_ms: u64, load: &Vec<Rgb>) -> (r: bool)
        requires
            old(self).wf(),
            load.len() == 72,
        ensures
            r == old(self).is_due(now_ms),
            final(self).wf(),
            if r {
                &&& final(self).sampler == old(self).sampler
                &&& final(self).interval == old(self).interval
                &&& final(self).is_rendered(now_ms, next_generation(old(self).generation), load@)
                &&& final(self).generation != old(self).generation
            } else {
                *final(self) == *old(self)
            },
    {
        if !self.due(now_ms) {
            return false;
        }
        self.render(now_ms, load);
        true
    }
}

// --- Laws ------------------------------------------------------------------

/// The sampler of a widget is the one named like its kind, and so no sampler is
/// of two kinds. A network sampler is for the interface that was asked for.
pub proof fn samplers_are_named_like_their_kind(
    s: Sampler,
    kind: WidgetKind,
    other: WidgetKind,
    interface: Option<Seq<char>>,
    another: Option<Seq<char>>,
)
    requires
        is_of_kind(s, kind, interface),
    ensures
        s is Cpu <==> kind is Cpu,
        s is Ram <==> kind is Ram,
        s is Network <==> kind is Network,
        s is Gpu <==> kind is Gpu,
        is_of_kind(s, other, another) ==> other == kind,
        kind is Network ==> match s->Network_0.iface {
            Some(i) => interface == Some(i@),
            None => interface is None,
        },
{
}

/// Load is drawn in the colors of the rows, for the graphics card as for the
/// processor; memory is drawn in its one color whatever the load colors are.
pub proof fn only_memory_has_one_color(
    h: History,
    cpu: CpuSampler,
    load: Seq<Rgb>,
    x: int,
    y: int,
)
    requires
        h.wf(),
        h.top == 72,
        cpu.history == h,
        load.len() == 72,
        72 - h.samples.len() <= x < 72,
        0 <= y < 72,
        y >= 72 - h.samples@[x - (72 - h.samples.len())],
    ensures
        Sampler::Gpu(h).graph(load)(x, y) == load[y],
        Sampler::Cpu(cpu).graph(load)(x, y) == load[y],
        Sampler::Ram(h).graph(load)(x, y) == (Rgb { r: 120, g: 165, b: 235 }),
{
}

/// An area graph pixel by pixel: the newest sample stands in the last column, and
/// a column is filled from the bottom as high as its own sample or the one before
/// it. Everything else is background.
pub proof fn area_pixels(h: History, colors: Seq<Rgb>, x: int, y: int)
    requires
        h.wf(),
        0 <= x < 72,
        0 <= y < 72,
    ensures
        ({
            let i = x - (72 - h.samples.len());
            area(h, colors)(x, y) == (if i >= 0 && (y >= 72 - h.samples@[i] || i > 0 && y >= 72
                - h.samples@[i - 1]) {
                colors[y]
            } else {
                Rgb { r: 18, g: 18, b: 22 }
            })
        }),
{
}

/// A network graph pixel by pixel: the divider in the middle row, the download as
/// high above it as the sample of the column or of the one before, the upload as
/// far below it. Without an interface there is background only.
pub proof fn network_pixels(n: NetSampler, x: int, y: int)
    requires
        n.wf(),
        0 <= x < 72,
        0 <= y < 72,
    ensures
        ({
            let i = x - (72 - n.down.samples.len());
            let j = x - (72 - n.up.samples.len());
            let d = n.down.samples@;
            let u = n.up.samples@;
            let background = Rgb { r: 18, g: 18, b: 22 };
            n.graph()(x, y) == (if !n.linked {
                background
            } else if y == 36 {
                Rgb { r: 90, g: 90, b: 104 }
            } else if y < 36 {
                if i >= 0 && (36 - y <= d[i] || i > 0 && 36 - y <= d[i - 1]) {
                    Rgb { r: 105, g: 200, b: 240 }
                } else {
                    background
                }
            } else {
                if j == 0 && y - 36 < u[0] || j > 0 && (y - 36 <= u[j] || y - 36 <= u[j - 1]) {
                    Rgb { r: 205, g: 135, b: 230 }
                } else {
                    background
                }
            })
        }),
{
}

/// A sample goes in last, cut to the greatest height, and the others keep their
/// order: all of them, or all but the oldest where the history is full.
pub proof fn samples_go_in_last(samples: Seq<u32>, v: u32, top: u32)
    requires
        samples.len() <= 72,
    ensures
        pushed(samples, v, top).last() == (if v <= top {
            v
        } else {
            top
        }),
        samples.len() < 72 ==> pushed(samples, v, top).drop_last() == samples,
        samples.len() == 72 ==> pushed(samples, v, top).drop_last() == samples.skip(1),
{
    let p = pushed(samples, v, top);
    if samples.len() < 72 {
        assert(p.drop_last() =~= samples);
    } else {
        assert(p.drop_last() =~= samples.skip(1));
    }
}

/// Numbers are read word by word and summed up one by one; a word that is none is
/// passed over.
pub proof fn numbers_go_word_by_word(
    a: Seq<Seq<char>>,
    b: Seq<Seq<char>>,
    n: u64,
    w: Seq<char>,
    x: Seq<u64>,
    y: Seq<u64>,
)
    ensures
        numbers(a + b) == numbers(a) + numbers(b),
        numbers(seq![text::decimal(n as nat)]) == seq![n],
        text::read_unsigned(w, u64::MAX as nat) is None ==> numbers(seq![w]) == Seq::<u64>::empty(),
        sum(x + y) == sum(x) + sum(y),
        sum(seq![n]) == n,
        sum(Seq::empty()) == 0,
    decreases b.len() + y.len(),
{
    reveal_with_fuel(numbers, 2);
    reveal_with_fuel(sum, 2);
    let one = seq![text::decimal(n as nat)];
    assert(one.drop_last() =~= Seq::<Seq<char>>::empty());
    text::written_numbers_are_read(n as nat, u64::MAX as nat, 'a', w);
    assert(numbers(one) =~= seq![n]);
    assert(seq![w].drop_last() =~= Seq::<Seq<char>>::empty());
    assert(seq![n].drop_last() =~= Seq::<u64>::empty());
    if b.len() == 0 {
        assert(a + b =~= a);
        assert(numbers(a) + numbers(b) =~= numbers(a));
    } else {
        numbers_go_word_by_word(a, b.drop_last(), n, w, Seq::empty(), Seq::empty());
        assert((a + b).drop_last() =~= a + b.drop_last());
        assert(numbers(a + b) =~= numbers(a) + numbers(b));
    }
    if y.len() == 0 {
        assert(x + y =~= x);
    } else {
        numbers_go_word_by_word(Seq::empty(), Seq::empty(), n, w, x, y.drop_last());
        assert((x + y).drop_last() =~= x + y.drop_last());
    }
}

/// The processor times are the numbers behind `cpu` on the first line, five of
/// them at least; no other line matters.
pub proof fn cpu_times_are_on_the_first_line(line: Seq<char>, rest: Seq<char>)
    requires
        line.len() > 0,
        line.last() != '\r',
        !line.contains('\n'),
    ensures
        cpu_fields(line.push('\n') + rest) == cpu_fields(line),
        ({
            let words = text::words(line);
            &&& words.len() > 0 && words[0] == "cpu"@ && numbers(words.skip(1)).len() >= 5
                ==> cpu_fields(line) == Some(numbers(words.skip(1)))
            &&& !(words.len() > 0 && words[0] == "cpu"@ && numbers(words.skip(1)).len() >= 5)
                ==> cpu_fields(line) is None
        }),
        cpu_fields(Seq::empty()) is None,
{
    text::lines_of_a_text(line, rest);
    text::lines_of_a_text(Seq::empty(), rest);
    assert((seq![line] + text::lines_of(rest))[0] == line);
    let words = text::words(line);
    if words.len() > 0 {
        assert(words.drop_first() =~= words.skip(1));
    }
}

/// A `MemTotal:` line sets the total and a `MemAvailable:` line what is available,
/// to the word behind the name; every other line changes nothing, and such a line
/// without a word spoils the reading.
pub proof fn memory_lines(lines: Seq<Seq<char>>, rest: Seq<char>, other: Seq<char>)
    requires
        !text::begins(other, "MemTotal:"@),
        !text::begins(other, "MemAvailable:"@),
    ensures
        mem_of(Seq::empty()) == Some(Mem { total: None, available: None }),
        mem_of(lines.push(other)) == mem_of(lines),
        ({
            let words = text::words(rest);
            let total = mem_of(lines.push("MemTotal:"@ + rest));
            let available = mem_of(lines.push("MemAvailable:"@ + rest));
            match mem_of(lines) {
                Some(m) if words.len() > 0 => {
                    &&& total == Some(Mem { total: Some(words[0]), available: m.available })
                    &&& available == Some(Mem { total: m.total, available: Some(words[0]) })
                },
                _ => total is None && available is None,
            }
        }),
{
    reveal_strlit("MemTotal:");
    reveal_strlit("MemAvailable:");
    let t = "MemTotal:"@ + rest;
    let a = "MemAvailable:"@ + rest;
    assert(lines.push(other).drop_last() =~= lines);
    assert(lines.push(t).drop_last() =~= lines);
    assert(lines.push(a).drop_last() =~= lines);
    text::parts_make_the_text(rest, "MemTotal:"@, rest);
    text::parts_make_the_text(rest, "MemAvailable:"@, rest);
    assert(t.skip("MemTotal:"@.len() as int) =~= rest);
    assert(a.skip("MemAvailable:"@.len() as int) =~= rest);
    assert(!text::begins(a, "MemTotal:"@)) by {
        assert(a[3] == 'A');
        assert("MemTotal:"@[3] == 'T');
        if text::begins(a, "MemTotal:"@) {
            assert(a.take(9)[3] == a[3]);
        }
    }
}

/// The traffic of an interface stands on the line that begins with its name and a
/// colon: the first number is what was received, the ninth what was sent. A line
/// of another interface gives nothing.
pub proof fn traffic_lines(line: Seq<char>, iface: Seq<char>, rest: Seq<char>, lines: Seq<Seq<char>>)
    ensures
        text::trimmed(line) == iface.push(':') + rest ==> {
            let vals = numbers(text::words(rest));
            &&& vals.len() >= 9 ==> net_bytes(seq![line] + lines, iface) == Some((vals[0], vals[8]))
            &&& vals.len() < 9 ==> net_bytes(seq![line] + lines, iface) == net_bytes(lines, iface)
        },
        !text::begins(text::trimmed(line), iface.push(':')) ==> net_bytes(
            seq![line] + lines,
            iface,
        ) == net_bytes(lines, iface),
        net_bytes(Seq::empty(), iface) is None,
{
    reveal_strlit(":");
    let t = text::trimmed(line);
    let all = seq![line] + lines;
    assert(all[0] == line);
    assert(all.drop_first() =~= lines);
    assert(":"@ =~= seq![':']);
    if t == iface.push(':') + rest {
        assert(t =~= iface + (":"@ + rest));
        text::parts_make_the_text(rest, iface, ":"@ + rest);
        assert(t.skip(iface.len() as int) =~= ":"@ + rest);
        text::parts_make_the_text(rest, ":"@, rest);
        assert((":"@ + rest).skip(":"@.len() as int) =~= rest);
    }
    if line_bytes(line, iface) is Some {
        let r = t.skip(iface.len() as int);
        text::parts_make_the_text(t, iface, rest);
        text::parts_make_the_text(r, ":"@, rest);
        assert(t =~= iface.push(':') + r.skip(":"@.len() as int));
        text::parts_make_the_text(t, iface.push(':'), r.skip(":"@.len() as int));
    }
}

/// The default route is the first whose destination is all zeros; it is that of
/// the interface in front. A line of fewer than two words ends the search.
pub proof fn default_route_is_the_first(line: Seq<char>, lines: Seq<Seq<char>>)
    ensures
        ({
            let words = text::words(line);
            let all = seq![line] + lines;
            &&& words.len() >= 2 && words[1] == "00000000"@ ==> route_of(all) == Some(words[0])
            &&& words.len() >= 2 && words[1] != "00000000"@ ==> route_of(all) == route_of(lines)
            &&& words.len() < 2 ==> route_of(all) is None
            &&& route_of(Seq::empty()) is None
        }),
{
    let all = seq![line] + lines;
    assert(all[0] == line);
    assert(all.drop_first() =~= lines);
}

/// What a counter grew by is how far it is above what it was; one that fell back
/// did not grow.
pub proof fn growth(a: u64, b: u64)
    ensures
        a >= b ==> above(a, b) + b == a,
        a < b ==> above(a, b) == 0,
{
}

/// A card that can be graphed is one of AMD's that tells how busy it is, in a
/// directory `card` and a number.
pub proof fn usable_cards(c: Card, digits: Seq<char>)
    requires
        c.name@ == "card"@ + digits,
    ensures
        is_usable(c) <==> {
            &&& forall|i: int| 0 <= i < digits.len() ==> '0' <= #[trigger] digits[i] <= '9'
            &&& c.vendor is Some && text::trimmed(c.vendor->0@) == "0x1002"@
            &&& c.has_busy
        },
{
    text::parts_make_the_text(digits, "card"@, digits);
    assert(c.name@.skip("card"@.len() as int) =~= digits);
}

/// The number of a file is read with blanks around it; a card without a readable
/// one counts as having no memory.
pub proof fn file_numbers(c: Card, n: u64, content: String)
    ensures
        text::trimmed(content@) == text::decimal(n as nat) ==> file_number(Some(content)) == Some(
            n as nat,
        ),
        file_number(None) is None,
        c.vram == Some(content) && text::trimmed(content@) == text::decimal(n as nat) ==> vram_of(c)
            == n,
        c.vram is None ==> vram_of(c) == 0,
{
    text::written_numbers_are_read(n as nat, u64::MAX as nat, 'a', content@);
}

/// A widget is due once as many seconds as its interval have gone by, and not a
/// millisecond before; each rendering is told apart from the one before it.
pub proof fn due_after_the_interval(w: Widget, now_ms: u64, g: u64)
    ensures
        w.interval > 0 ==> (w.is_due(now_ms) <==> now_ms >= w.last_render + 1000 * w.interval),
        w.interval == 0 ==> w.is_due(now_ms),
        next_generation(g) != g,
        g < u64::MAX ==> next_generation(g) == g + 1,
{
}

/// A sampler that has seen nothing has no samples to show: its graph is all
/// background.
pub proof fn fresh_samplers_show_nothing(s: Sampler, load: Seq<Rgb>, x: int, y: int)
    requires
        s.wf(),
        is_fresh(s),
        0 <= x < 72,
        0 <= y < 72,
    ensures
        s.graph(load)(x, y) == (Rgb { r: 18, g: 18, b: 22 }),
{
}

/// A widget's graph leaves a black border of six pixels around it, and a graph of one
/// color keeps that color inside.
pub proof fn graphs_have_a_black_border(
    tile: Tile,
    graph: spec_fn(int, int) -> Rgb,
    c: Rgb,
    x: int,
    y: int,
)
    requires
        shows_graph(tile, graph),
        0 <= x < 72,
        0 <= y < 72,
    ensures
        x < 6 || x >= 66 || y < 6 || y >= 66 ==> tile.at(x, y) == (Rgb { r: 0, g: 0, b: 0 }),
        (forall|a: int, b: int| 0 <= a < 72 && 0 <= b < 72 ==> #[trigger] graph(a, b) == c) && 6 <= x
            < 66 && 6 <= y < 66 ==> tile.at(x, y) == c,
{
    let t = choose|t: Tile|
        t.shows(graph) && #[trigger] render::is_inset(t, GRAPH_MARGIN as int, tile);
    if x < 6 || x >= 66 || y < 6 || y >= 66 {
        render::inset_keeps_its_border(t, 6, tile, x, y);
    } else if forall|a: int, b: int| 0 <= a < 72 && 0 <= b < 72 ==> #[trigger] graph(a, b) == c {
        assert forall|k: int| 0 <= k < render::TILE_PIXELS implies #[trigger] t@[k] == c by {
            let a = k % 72;
            let b = k / 72;
            assert(72 * b + a == k);
            assert(t.at(a, b) == graph(a, b));
        }
        render::plain_tile_keeps_its_color(t, 6, tile, c, x, y);
    }
}

/// A widget that was rendered shows the graph of its sampler, from then on.
pub proof fn renderings_are_counted(w: Widget, now_ms: u64, generation: u64, load: Seq<Rgb>)
    requires
        w.is_rendered(now_ms, generation, load),
    ensures
        w.last_render == now_ms,
        w.generation == generation,
        shows_graph(w.tile, w.sampler.graph(load)),
        w.interval > 0 ==> !w.is_due(now_ms),
{
}

} // verus!
