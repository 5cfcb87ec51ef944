//! Configuration: the schema, and the rules that a configuration obeys.
//!
//! The configuration is read once at startup. Keys are addressed by grid
//! coordinate `rRcC` (rows 1..=3 top-to-bottom, columns 1..=5 left-to-right;
//! `r1c1` = top-left). Unconfigured keys are blank.
//!
//! The configuration is trust-sensitive: it can launch applications and
//! synthesize keystrokes. Treat it like an executable dotfile.

use vstd::prelude::*;

use crate::path;
use crate::text;

verus! {

/// Default idle-blank timeout in seconds (five minutes).
pub const DEFAULT_IDLE_TIMEOUT_SECS: u64 = 300;

/// Rows of the Stream Deck MK.2 grid.
pub const GRID_ROWS: u8 = 3;

/// Columns of the Stream Deck MK.2 grid.
pub const GRID_COLS: u8 = 5;

/// Keys of the grid.
pub const KEY_COUNT: usize = 15;

/// Top-level configuration.
#[derive(Debug, Clone)]
pub struct Config {
    /// Blank the whole deck after this many seconds of no input. `0` disables
    /// blanking entirely.
    pub idle_timeout_secs: u64,
    /// Awake brightness percent (0-100).
    pub brightness: u8,
    /// Dim to `dim_brightness` after this many seconds of no input. `0` disables
    /// dimming.
    pub dim_timeout_secs: u64,
    /// Brightness percent (0-100) when dimmed.
    pub dim_brightness: u8,
    /// Idle screensaver kind.
    pub screensaver: Screensaver,
    /// Show the screensaver after this many seconds of no input. `0` disables it.
    /// The idle hierarchy is dim < screensaver < blank: whichever crossed
    /// threshold is deepest wins, so the screensaver never runs once blanked.
    pub screensaver_timeout_secs: u64,
    /// Override for the failure-feedback icon.
    pub error_icon: Option<String>,
    /// OBS connection. Absent: OBS integration disabled.
    pub obs: Option<ObsConfig>,
    /// Key map, in the order of the coordinate names: a single flat page of keys.
    pub key: Vec<KeyEntry>,
}

/// One entry of the key map.
#[derive(Debug, Clone)]
pub struct KeyEntry {
    /// The `rRcC` grid coordinate.
    pub coord: String,
    pub key: KeyConfig,
}

/// The idle timeout where none is configured.
pub fn default_idle_timeout() -> (r: u64)
    ensures
        r == 300,
{
    DEFAULT_IDLE_TIMEOUT_SECS
}

/// The awake brightness where none is configured.
pub fn default_brightness() -> (r: u8)
    ensures
        r == 100,
{
    100
}

/// The dimmed brightness where none is configured.
pub fn default_dim_brightness() -> (r: u8)
    ensures
        r == 30,
{
    30
}

/// A timeout in seconds, where zero stands for none.
pub open spec fn timeout(secs: u64) -> Option<u64> {
    if secs == 0 {
        None
    } else {
        Some(secs)
    }
}

/// A brightness percent, clamped to 0-100.
pub open spec fn percent(level: u8) -> u8 {
    if level > 100 {
        100
    } else {
        level
    }
}

impl Config {
    /// The idle seconds before the screensaver.
    pub open spec fn screensaver_after(self) -> Option<u64> {
        match self.screensaver {
            Screensaver::Off => None,
            Screensaver::Matrix => timeout(self.screensaver_timeout_secs),
        }
    }

    /// Idle seconds before blanking (`None` if disabled).
    pub fn idle_timeout(&self) -> (r: Option<u64>)
        ensures
            r == timeout(self.idle_timeout_secs),
    {
        match self.idle_timeout_secs {
            0 => None,
            n => Some(n),
        }
    }

    /// Idle seconds before dimming (`None` if disabled).
    pub fn dim_timeout(&self) -> (r: Option<u64>)
        ensures
            r == timeout(self.dim_timeout_secs),
    {
        match self.dim_timeout_secs {
            0 => None,
            n => Some(n),
        }
    }

    /// Awake brightness, clamped to 0-100.
    pub fn brightness(&self) -> (r: u8)
        ensures
            r == percent(self.brightness),
    {
        if self.brightness > 100 {
            100
        } else {
            self.brightness
        }
    }

    /// Dimmed brightness, clamped to 0-100.
    pub fn dim_brightness(&self) -> (r: u8)
        ensures
            r == percent(self.dim_brightness),
    {
        if self.dim_brightness > 100 {
            100
        } else {
            self.dim_brightness
        }
    }

    /// Idle seconds before the screensaver (`None` if no kind or timeout set).
    pub fn screensaver_timeout(&self) -> (r: Option<u64>)
        ensures
            r == self.screensaver_after(),
    {
        match (self.screensaver, self.screensaver_timeout_secs) {
            (Screensaver::Off, _) | (_, 0) => None,
            (_, n) => Some(n),
        }
    }
}

/// Idle screensaver kind, shown between the dim and blank stages.
#[derive(Debug, Clone, Copy, PartialEq, Eq, Structural, Default)]
pub enum Screensaver {
    /// No screensaver: the deck dims straight to blank.
    #[default]
    Off,
    /// "Matrix"-style green digital rain across the whole deck.
    Matrix,
}

/// OBS obs-websocket v5 connection settings.
#[derive(Debug, Clone)]
pub struct ObsConfig {
    pub host: String,
    pub port: u16,
    /// Plaintext password from the file. Never logged.
    pub password: Option<String>,
    /// Poll OBS capture liveness so record keys can show `icon_not_capturing`.
    pub show_capture_status: bool,
    /// Shown on any stopped record key while `show_capture_status` is on and
    /// OBS's screen/window capture is blind (0x0). Falls back to `icon_stopped`.
    pub icon_not_capturing: Option<String>,
}

/// The OBS host where none is configured.
pub fn default_obs_host() -> (r: String)
    ensures
        r@ == "localhost"@,
{
    "localhost".to_string()
}

/// The OBS port where none is configured.
pub fn default_obs_port() -> (r: u16)
    ensures
        r == 4455,
{
    4455
}

/// One configured key: its action and the per-action options.
///
/// State-driven keys (mute toggles, OBS record/replay) carry per-state icons; a
/// key that omits one falls back to a blank tile for that state.
#[derive(Debug, Clone)]
pub enum KeyConfig {
    /// Launch a `.desktop` application, or raise it if already running.
    LaunchApp {
        /// `.desktop` id or application name (e.g. `firefox`).
        app: String,
        icon: Option<String>,
        /// Override the window class used to find a running instance to raise.
        window_class: Option<String>,
    },
    /// Keyboard macro: an ordered sequence of chords and literal text.
    Macro { steps: Vec<MacroStep>, icon: Option<String> },
    /// Toggle microphone mute.
    MicMute { icon_muted: Option<String>, icon_unmuted: Option<String> },
    /// Toggle system output mute.
    SystemMute { icon_muted: Option<String>, icon_unmuted: Option<String> },
    /// OBS: start recording.
    ObsRecordStart { icons: RecordIcons },
    /// OBS: stop recording.
    ObsRecordStop { icons: RecordIcons },
    /// OBS: pause/resume recording.
    ObsRecordPause { icons: RecordIcons },
    /// OBS: toggle recording (start if stopped, stop if recording).
    ObsRecordToggle { icons: RecordIcons },
    /// OBS: enable (start) the replay buffer.
    ObsReplayStart { icons: ReplayIcons },
    /// OBS: disable (stop) the replay buffer.
    ObsReplayStop { icons: ReplayIcons },
    /// OBS: toggle the replay buffer.
    ObsReplayToggle { icons: ReplayIcons },
    /// OBS: save the replay buffer.
    ObsReplaySave { icons: ReplayIcons },
    /// A live, timer-rendered metric widget.
    Widget {
        widget: WidgetKind,
        /// Re-render interval in seconds.
        refresh_secs: Option<u64>,
        /// Network only: interface to graph.
        interface: Option<String>,
    },
    /// Toggle the deck's backlight off ("sleep") / on. Unlike the idle blank, it
    /// stays off regardless of the idle timeout until a Sleep key is pressed again;
    /// while off, other presses are ignored.
    Sleep { icon: Option<String> },
}

/// A single macro step: either a chord (modifier+key) or literal text.
#[derive(Debug, Clone)]
pub enum MacroStep {
    /// e.g. `"ctrl+shift+t"`, `"Return"`, `"alt+F4"`.
    Chord { chord: String },
    /// Literal characters to type, e.g. `"chicken"`.
    Text { text: String },
}

/// Recording state icons (three states + disconnected fallback).
#[derive(Debug, Clone, Default)]
pub struct RecordIcons {
    pub icon_stopped: Option<String>,
    pub icon_recording: Option<String>,
    pub icon_paused: Option<String>,
    /// Shown while OBS is disconnected. Falls back to `icon_stopped`.
    pub icon_disconnected: Option<String>,
}

/// Replay-buffer state icons (armed / disarmed + disconnected fallback).
#[derive(Debug, Clone, Default)]
pub struct ReplayIcons {
    /// Buffer running/armed.
    pub icon_armed: Option<String>,
    /// Buffer stopped/disarmed.
    pub icon_disarmed: Option<String>,
    pub icon_disconnected: Option<String>,
}

#[derive(Debug, Clone, Copy, PartialEq, Eq, Structural)]
pub enum WidgetKind {
    Cpu,
    Ram,
    Network,
    Gpu,
}

/// A key's `rRcC` coordinate.
#[derive(Debug, Clone, Copy, PartialEq, Eq, PartialOrd, Ord, Structural)]
pub struct KeyCoord {
    pub row: u8,
    pub col: u8,
}

/// Why a text is not a key coordinate.
#[derive(Debug, Clone, Copy, PartialEq, Eq, Structural)]
pub enum CoordError {
    /// It does not start with `r`.
    NoRow,
    /// No `c` follows.
    NoColumn,
    /// What stands between `r` and `c` is not a number that fits a byte.
    BadRow,
    /// What stands behind `c` is not a number that fits a byte.
    BadColumn,
    /// Row and column are not on the grid.
    OffGrid,
}

/// The coordinate that a text writes, or what is wrong with it.
pub open spec fn read_coord(s: Seq<char>) -> Result<KeyCoord, CoordError> {
    if s.len() == 0 || s[0] != 'r' {
        Err(CoordError::NoRow)
    } else {
        match text::split_once_at(s.drop_first(), 'c') {
            None => Err(CoordError::NoColumn),
            Some((row, col)) => match (text::read_unsigned(row, 255), text::read_unsigned(col, 255)) {
                (None, _) => Err(CoordError::BadRow),
                (Some(_), None) => Err(CoordError::BadColumn),
                (Some(row), Some(col)) => {
                    let k = KeyCoord { row: row as u8, col: col as u8 };
                    if k.on_grid() {
                        Ok(k)
                    } else {
                        Err(CoordError::OffGrid)
                    }
                },
            },
        }
    }
}

impl KeyCoord {
    /// Whether the coordinate is on the grid.
    pub open spec fn on_grid(self) -> bool {
        1 <= self.row <= GRID_ROWS && 1 <= self.col <= GRID_COLS
    }

    /// The flat index: row-major, 0-based, five keys to a row.
    pub open spec fn flat(self) -> int {
        (self.row - 1) * 5 + (self.col - 1)
    }

    /// Flat index into the device's button array (row-major, 0-based).
    pub fn index(self) -> (r: usize)
        requires
            self.row >= 1,
            self.col >= 1,
        ensures
            r == self.flat(),
            self.on_grid() ==> r < KEY_COUNT,
    {
        (self.row - 1) as usize * 5 + (self.col - 1) as usize
    }

    /// Parse an `rRcC` coordinate string, validating it is on the grid.
    pub fn parse(s: &str) -> (r: Result<Self, CoordError>)
        ensures
            r == read_coord(s@),
    {
        let s = text::chars(s);
        if s.len() == 0 || s[0] != 'r' {
            return Err(CoordError::NoRow);
        }
        let rest = text::part(&s, 1, s.len());
        assert(rest@ =~= s@.drop_first());
        let (row_text, col_text) = match text::split_once(&rest, 'c') {
            Some(parts) => parts,
            None => return Err(CoordError::NoColumn),
        };
        let row: u8 = match text::parse_unsigned(&row_text, 255) {
            Some(n) => n as u8,
            None => return Err(CoordError::BadRow),
        };
        let col: u8 = match text::parse_unsigned(&col_text, 255) {
            Some(n) => n as u8,
            None => return Err(CoordError::BadColumn),
        };
        if row < 1 || row > GRID_ROWS || col < 1 || col > GRID_COLS {
            return Err(CoordError::OffGrid);
        }
        Ok(KeyCoord { row, col })
    }
}

/// Two coordinates on the grid with one index are the same coordinate, and every
/// key index has a coordinate.
pub proof fn index_is_one_to_one(a: KeyCoord, b: KeyCoord, i: int)
    ensures
        a.on_grid() && b.on_grid() && a.flat() == b.flat() ==> a == b,
        a.on_grid() ==> 0 <= a.flat() < KEY_COUNT,
        0 <= i < KEY_COUNT ==> {
            let k = KeyCoord { row: (i / 5 + 1) as u8, col: (i % 5 + 1) as u8 };
            k.on_grid() && k.flat() == i
        },
{
}

/// Default config path: `sd_rust/config.toml` in the user's config directory.
pub fn default_config_path(config_dir: Option<&str>) -> (r: Option<String>)
    ensures
        match (config_dir, r) {
            (Some(d), Some(p)) => p@ == path::joined(path::joined(d@, "sd_rust"@), "config.toml"@),
            (None, None) => true,
            _ => false,
        },
{
    match config_dir {
        Some(d) => Some(path::join(path::join(d, "sd_rust").as_str(), "config.toml")),
        None => None,
    }
}

/// What is wrong with a key map. `entry` is the position of the entry at fault.
#[derive(Debug, Clone, Copy, PartialEq, Eq, Structural)]
pub enum KeyMapError {
    /// The entry's name is not a coordinate.
    Coordinate { entry: usize, error: CoordError },
    /// An earlier entry is mapped to the same key.
    Duplicate { entry: usize, index: usize },
}

/// Whether the name of entry `j` is a coordinate of key `index`.
pub open spec fn maps_to(entries: Seq<KeyEntry>, j: int, index: int) -> bool {
    read_coord(entries[j].coord@) matches Ok(k) && k.flat() == index
}

/// What is wrong with entry `i`, the entries before it taken as good.
pub open spec fn entry_fault(entries: Seq<KeyEntry>, i: int) -> Option<KeyMapError> {
    match read_coord(entries[i].coord@) {
        Err(error) => Some(KeyMapError::Coordinate { entry: i as usize, error }),
        Ok(k) => if exists|j: int| 0 <= j < i && maps_to(entries, j, k.flat()) {
            Some(KeyMapError::Duplicate { entry: i as usize, index: k.flat() as usize })
        } else {
            None
        },
    }
}

/// Whether every entry names a key of the grid and no two name the same.
pub open spec fn valid_keys(entries: Seq<KeyEntry>) -> bool {
    forall|i: int| 0 <= i < entries.len() ==> #[trigger] entry_fault(entries, i) is None
}

/// Validate a configuration: every coordinate is on the grid, and no key is
/// mapped twice. The first entry at fault decides the error.
pub fn load_config(config: Config) -> (r: Result<Config, KeyMapError>)
    ensures
        match r {
            Ok(c) => c == config && valid_keys(config.key@),
            Err(e) => exists|i: int|
                #![trigger entry_fault(config.key@, i)]
                0 <= i < config.key.len() && entry_fault(config.key@, i) == Some(e) && forall|j: int|
                    0 <= j < i ==> #[trigger] entry_fault(config.key@, j) is None,
        },
{
    let mut seen: Vec<bool> = Vec::new();
    let mut k: usize = 0;
    while k < KEY_COUNT
        invariant
            k <= KEY_COUNT,
            seen.len() == k,
            forall|x: int| 0 <= x < k ==> !seen@[x],
        decreases KEY_COUNT - k,
    {
        seen.push(false);
        k = k + 1;
    }
    let ghost entries = config.key@;
    let mut i: usize = 0;
    while i < config.key.len()
        invariant
            entries == config.key@,
            i <= config.key.len(),
            seen.len() == KEY_COUNT,
            forall|j: int| 0 <= j < i ==> #[trigger] entry_fault(entries, j) is None,
            forall|x: int|
                0 <= x < KEY_COUNT ==> (#[trigger] seen@[x] <==> exists|j: int|
                    0 <= j < i && maps_to(entries, j, x)),
        decreases config.key.len() - i,
    {
        match KeyCoord::parse(config.key[i].coord.as_str()) {
            Err(error) => {
                let e = KeyMapError::Coordinate { entry: i, error };
                assert(entry_fault(entries, i as int) == Some(e));
                return Err(e);
            },
            Ok(coord) => {
                let index: usize = coord.index();
                if seen[index] {
                    let e = KeyMapError::Duplicate { entry: i, index };
                    assert(entry_fault(entries, i as int) == Some(e));
                    return Err(e);
                }
                assert(entry_fault(entries, i as int) is None);
                let ghost before = seen@;
                seen.set(index, true);
                assert forall|x: int| 0 <= x < KEY_COUNT implies (#[trigger] seen@[x] <==> exists|j: int|
                    0 <= j < i + 1 && maps_to(entries, j, x)) by {
                    if x == index {
                        assert(maps_to(entries, i as int, x));
                    } else {
                        assert(seen@[x] == before[x]);
                    }
                }
            },
        }
        i = i + 1;
    }
    Ok(config)
}

/// In a valid key map the names are pairwise distinct.
pub proof fn valid_keys_are_distinct(entries: Seq<KeyEntry>, i: int, j: int)
    requires
        valid_keys(entries),
        0 <= i < j < entries.len(),
    ensures
        entries[i].coord@ != entries[j].coord@,
{
    assert(entry_fault(entries, i) is None);
    assert(entry_fault(entries, j) is None);
    if entries[i].coord@ == entries[j].coord@ {
        assert(maps_to(entries, i, read_coord(entries[j].coord@)->Ok_0.flat()));
    }
}

/// A password, where it is not empty.
pub open spec fn set_password(p: Option<String>) -> Option<Seq<char>> {
    match p {
        Some(s) => if s@.len() > 0 {
            Some(s@)
        } else {
            None
        },
        None => None,
    }
}

/// Resolve the effective OBS password: `env`, the value of the environment
/// variable, wins over the file value. Empty values are treated as unset.
pub fn resolve_obs_password(cfg: &ObsConfig, env: Option<String>) -> (r: Option<String>)
    ensures
        (match r {
            Some(p) => Some(p@),
            None => None,
        }) == (if set_password(env) is Some {
            set_password(env)
        } else {
            set_password(cfg.password)
        }),
{
    if let Some(s) = env {
        if !s.as_str().is_empty() {
            return Some(s);
        }
    }
    match &cfg.password {
        Some(s) => if s.as_str().is_empty() {
            None
        } else {
            Some(s.clone())
        },
        None => None,
    }
}

/// Whether to warn that a plaintext OBS password in the file is exposed: the
/// file has one, and its `mode` lets group or others read it. A password supplied
/// only by the environment does not count.
pub fn obs_password_world_readable(config: &Config, mode: u32) -> (r: bool)
    ensures
        r == (config.obs matches Some(o) && set_password(o.password) is Some && mode & 0o044 != 0),
{
    match &config.obs {
        Some(o) => match &o.password {
            Some(p) => !p.as_str().is_empty() && mode & 0o044 != 0,
            None => false,
        },
        None => false,
    }
}

// --- Laws ------------------------------------------------------------------

/// A timeout of zero is none, and any other is as many seconds; a brightness is as
/// it is given up to one hundred, and one hundred above. The screensaver takes a
/// kind and a timeout.
pub proof fn settings_count_as_given(config: Config, secs: u64, level: u8)
    ensures
        timeout(0) is None,
        secs > 0 ==> timeout(secs) == Some(secs),
        level <= 100 ==> percent(level) == level,
        level > 100 ==> percent(level) == 100,
        config.screensaver == Screensaver::Off ==> config.screensaver_after() is None,
        config.screensaver_timeout_secs == 0 ==> config.screensaver_after() is None,
        config.screensaver == Screensaver::Matrix && config.screensaver_timeout_secs > 0
            ==> config.screensaver_after() == Some(config.screensaver_timeout_secs),
{
}

/// A coordinate is read from its row and its column exactly where both are on the
/// grid of three rows and five columns; numbers past a byte, and numbers off the
/// grid, are told apart, the row first.
pub proof fn coordinates_are_read(row: nat, col: nat)
    ensures
        ({
            let read = read_coord(
                seq!['r'] + text::decimal(row) + seq!['c'] + text::decimal(col),
            );
            &&& row > 255 ==> read == Err::<KeyCoord, CoordError>(CoordError::BadRow)
            &&& row <= 255 && col > 255 ==> read == Err::<KeyCoord, CoordError>(
                CoordError::BadColumn,
            )
            &&& row <= 255 && col <= 255 && 1 <= row <= 3 && 1 <= col <= 5 ==> read == Ok::<
                KeyCoord,
                CoordError,
            >(KeyCoord { row: row as u8, col: col as u8 })
            &&& row <= 255 && col <= 255 && !(1 <= row <= 3 && 1 <= col <= 5) ==> read == Err::<
                KeyCoord,
                CoordError,
            >(CoordError::OffGrid)
        }),
{
    let r = text::decimal(row);
    let c = text::decimal(col);
    let s = seq!['r'] + r + seq!['c'] + c;
    text::decimal_reads_back(row);
    text::decimal_reads_back(col);
    text::written_numbers_are_read(row, 255, 'a', s);
    text::written_numbers_are_read(col, 255, 'a', s);
    assert(s.drop_first() =~= r.push('c') + c);
    assert forall|i: int| 0 <= i < r.len() implies r[i] != 'c' by {
        assert(text::is_digit(r[i]));
    }
    text::first_separator_splits(r, 'c', c);
}

/// What does not begin with the letter of the row has none; without the letter of
/// the column behind it there is no column. A row, and then a column, has to be a
/// number.
pub proof fn malformed_coordinates(s: Seq<char>, row: Seq<char>, col: Seq<char>)
    requires
        !row.contains('c'),
    ensures
        s.len() == 0 || s[0] != 'r' ==> read_coord(s) == Err::<KeyCoord, CoordError>(
            CoordError::NoRow,
        ),
        read_coord(seq!['r'] + row) == Err::<KeyCoord, CoordError>(CoordError::NoColumn),
        text::read_unsigned(row, 255) is None ==> read_coord(seq!['r'] + row.push('c') + col)
            == Err::<KeyCoord, CoordError>(CoordError::BadRow),
        text::read_unsigned(row, 255) is Some && text::read_unsigned(col, 255) is None
            ==> read_coord(seq!['r'] + row.push('c') + col) == Err::<KeyCoord, CoordError>(
            CoordError::BadColumn,
        ),
{
    let a = seq!['r'] + row;
    assert(a.drop_first() =~= row);
    let b = seq!['r'] + row.push('c') + col;
    assert(b.drop_first() =~= row.push('c') + col);
    text::first_separator_splits(row, 'c', col);
}

/// The keys are counted row by row, five to a row.
pub proof fn keys_are_counted_by_rows(k: KeyCoord)
    requires
        k.on_grid(),
    ensures
        k.row == 1 && k.col == 1 ==> k.flat() == 0,
        k.col < 5 ==> k.flat() + 1 == (KeyCoord { row: k.row, col: (k.col + 1) as u8 }).flat(),
        k.row < 3 && k.col == 5 ==> k.flat() + 1 == (KeyCoord { row: (k.row + 1) as u8, col: 1 })
            .flat(),
        k.row == 3 && k.col == 5 ==> k.flat() == 14,
{
}

/// A key map is valid exactly where every name is a coordinate and no two are of one
/// key; an entry that is not at fault by its name is at fault where an earlier one
/// has its key.
pub proof fn key_maps_are_valid_without_clashes(entries: Seq<KeyEntry>)
    ensures
        valid_keys(entries) <==> {
            &&& forall|i: int|
                0 <= i < entries.len() ==> read_coord((#[trigger] entries[i]).coord@) is Ok
            &&& forall|i: int, j: int|
                0 <= i < j < entries.len() ==> read_coord((#[trigger] entries[i]).coord@)->Ok_0
                    .flat() != read_coord((#[trigger] entries[j]).coord@)->Ok_0.flat()
        },
{
    if valid_keys(entries) {
        assert forall|i: int| 0 <= i < entries.len() implies read_coord(
            (#[trigger] entries[i]).coord@,
        ) is Ok by {
            assert(entry_fault(entries, i) is None);
        }
        assert forall|i: int, j: int| 0 <= i < j < entries.len() implies read_coord(
            (#[trigger] entries[i]).coord@,
        )->Ok_0.flat() != read_coord((#[trigger] entries[j]).coord@)->Ok_0.flat() by {
            assert(entry_fault(entries, i) is None);
            assert(entry_fault(entries, j) is None);
            if read_coord(entries[i].coord@)->Ok_0.flat() == read_coord(
                entries[j].coord@,
            )->Ok_0.flat() {
                assert(maps_to(entries, i, read_coord(entries[j].coord@)->Ok_0.flat()));
            }
        }
    }
    if (forall|i: int| 0 <= i < entries.len() ==> read_coord((#[trigger] entries[i]).coord@) is Ok)
        && (forall|i: int, j: int|
        0 <= i < j < entries.len() ==> read_coord((#[trigger] entries[i]).coord@)->Ok_0.flat()
            != read_coord((#[trigger] entries[j]).coord@)->Ok_0.flat()) {
        assert forall|i: int| 0 <= i < entries.len() implies #[trigger] entry_fault(
            entries,
            i,
        ) is None by {
            assert(read_coord(entries[i].coord@) is Ok);
            assert forall|j: int| 0 <= j < i implies !maps_to(
                entries,
                j,
                read_coord(entries[i].coord@)->Ok_0.flat(),
            ) by {
                assert(entries[j].coord@ == entries[j].coord@);
            }
        }
    }
}

/// An entry at fault is named by its place, with what is wrong with its name or with
/// the key that it clashes on.
pub proof fn faults_name_their_entry(entries: Seq<KeyEntry>, i: int, j: int)
    requires
        0 <= j < i < entries.len(),
        entries.len() <= usize::MAX,
    ensures
        match read_coord(entries[i].coord@) {
            Err(error) => entry_fault(entries, i) == Some(
                KeyMapError::Coordinate { entry: i as usize, error },
            ),
            Ok(k) => read_coord(entries[j].coord@) matches Ok(l) && l.flat() == k.flat()
                ==> entry_fault(entries, i) == Some(
                KeyMapError::Duplicate { entry: i as usize, index: k.flat() as usize },
            ),
        },
{
    if let Ok(k) = read_coord(entries[i].coord@) {
        if read_coord(entries[j].coord@) matches Ok(l) && l.flat() == k.flat() {
            assert(maps_to(entries, j, k.flat()));
        }
    }
}

/// A password counts as set where it holds something.
pub proof fn empty_passwords_are_unset(p: String)
    ensures
        p@.len() > 0 ==> set_password(Some(p)) == Some(p@),
        p@.len() == 0 ==> set_password(Some(p)) is None,
        set_password(None) is None,
{
}

} // verus!
