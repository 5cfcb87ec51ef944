//! The daemon runtime: the per-key model + live state, and what each turn of the
//! main loop decides.
//!
//! A single synchronous main loop drives the Stream Deck. Here stands what it
//! decides: which presses act, when the backlight dims, blanks and wakes, what
//! each key shows and which keys have to be uploaded again, and what an event from
//! OBS or the audio server changes. Times are milliseconds on one clock.
//!
//! Rendering: each turn a cheap [`Visual`] descriptor is computed per key and only
//! keys whose descriptor changed are uploaded again.

use vstd::prelude::*;

use crate::audio::Target;
use crate::config::{Config, KeyConfig, KeyCoord, KeyEntry, RecordIcons, ReplayIcons, KEY_COUNT};
use crate::config;
use crate::keys;
use crate::keys::Playback;
use crate::obs;
use crate::obs::{ActionStage, ObsAction, ObsCommand, ObsEvent, PlainRequest};
use crate::osd;
use crate::osd::Popup;
use crate::render::{Rgb, Tile};
use crate::state::{LiveState, RecordState, ReplayState};
use crate::text;
use crate::widgets::{Sampler, Widget};
use crate::widgets;

verus! {

/// How long each poll for presses blocks, in milliseconds; also the loop tick.
pub const INPUT_POLL_MS: u64 = 100;

/// How often to re-read mute state, in milliseconds. Kept short so a mute toggled
/// elsewhere reflects on the deck quickly.
pub const AUDIO_POLL_INTERVAL_MS: u64 = 250;

/// How long an error icon flashes on a key after a failed action, in milliseconds.
pub const ERROR_FLASH_MS: u64 = 800;

/// Backlight state driven by idle timeouts: full while active, dimmed after the
/// dim timeout, showing the screensaver after its own, fully off (blanked) after
/// the idle timeout.
#[derive(Debug, Clone, Copy, PartialEq, Eq, Structural)]
pub enum Display {
    Full,
    Dimmed,
    Screensaver,
    Blanked,
}

/// A cheap, comparable descriptor of what a key currently shows. Two equal
/// descriptors render identically, so the repaint pass can skip unchanged keys.
#[derive(Debug, Clone, Copy, PartialEq, Eq)]
pub enum Visual {
    /// A static image that never changes once painted (icon from file/theme).
    Static,
    /// A mute toggle key; `None` = state not yet known.
    Mute(Option<bool>),
    /// An OBS recording key.
    Record(RecordState),
    /// A stopped OBS recording key while OBS captures nothing.
    NotCapturing,
    /// An OBS replay-buffer key.
    Replay(ReplayState),
    /// A widget, identified by its render generation (bumped each refresh).
    Widget(u64),
    /// A transient failure-feedback flash, overriding the normal image.
    Error,
}

/// Whether two descriptors are the same.
fn same_visual(a: Visual, b: Visual) -> (r: bool)
    ensures
        r == (a == b),
{
    match (a, b) {
        (Visual::Static, Visual::Static) => true,
        (Visual::Mute(x), Visual::Mute(y)) => match (x, y) {
            (Some(x), Some(y)) => x == y,
            (None, None) => true,
            _ => false,
        },
        (Visual::Record(x), Visual::Record(y)) => x == y,
        (Visual::NotCapturing, Visual::NotCapturing) => true,
        (Visual::Replay(x), Visual::Replay(y)) => x == y,
        (Visual::Widget(x), Visual::Widget(y)) => x == y,
        (Visual::Error, Visual::Error) => true,
        _ => false,
    }
}

// --- The key map -----------------------------------------------------------

/// The position that a coordinate's name means on the grid.
pub open spec fn index_of(coord: Seq<char>) -> Option<int> {
    match config::read_coord(coord) {
        Ok(c) => Some(c.flat()),
        Err(_) => None,
    }
}

/// What the entries put on a key: the last that names it.
pub open spec fn mapped(entries: Seq<KeyEntry>, i: int) -> Option<KeyConfig>
    decreases entries.len(),
{
    if entries.len() == 0 {
        None
    } else if index_of(entries.last().coord@) == Some(i) {
        Some(entries.last().key)
    } else {
        mapped(entries.drop_last(), i)
    }
}

/// The keys of the deck, by position. An entry whose name is no coordinate is
/// passed over.
pub fn build_key_map(entries: Vec<KeyEntry>) -> (r: Vec<Option<KeyConfig>>)
    ensures
        r.len() == KEY_COUNT,
        forall|i: int| 0 <= i < KEY_COUNT ==> #[trigger] r@[i] == mapped(entries@, i),
{
    let ghost all = entries@;
    let mut entries = entries;
    let mut map: Vec<Option<KeyConfig>> = Vec::new();
    while map.len() < KEY_COUNT
        invariant
            map.len() <= KEY_COUNT,
            forall|i: int| 0 <= i < map.len() ==> (#[trigger] map@[i]) is None,
        decreases KEY_COUNT - map.len(),
    {
        map.push(None);
    }
    while entries.len() > 0
        invariant
            map.len() == KEY_COUNT,
            forall|i: int|
                0 <= i < KEY_COUNT ==> (match #[trigger] map@[i] {
                    Some(k) => mapped(all, i) == Some(k),
                    None => mapped(all, i) == mapped(entries@, i),
                }),
        decreases entries.len(),
    {
        let ghost before = entries@;
        match entries.pop() {
            Some(entry) => {
                assert(entries@ =~= before.drop_last());
                assert(before.last() == entry);
                if let Ok(coord) = KeyCoord::parse(entry.coord.as_str()) {
                    let index: usize = coord.index();
                    assert(index_of(entry.coord@) == Some(index as int));
                    if map[index].is_none() {
                        map.set(index, Some(entry.key));
                    }
                }
            },
            None => {},
        }
    }
    map
}

/// The name of the coordinate of a position.
pub open spec fn coord_of(index: int) -> Seq<char> {
    "r"@ + text::decimal((index / 5 + 1) as nat) + "c"@ + text::decimal((index % 5 + 1) as nat)
}

/// The name of the coordinate of a position.
pub fn index_to_coord(index: usize) -> (r: String)
    ensures
        r@ == coord_of(index as int),
{
    let row: u64 = index as u64 / 5 + 1;
    let col: u64 = index as u64 % 5 + 1;
    let mut out = text::chars("r");
    let digits = text::write_decimal(row);
    text::append_chars(&mut out, &digits);
    text::append(&mut out, "c");
    let digits = text::write_decimal(col);
    text::append_chars(&mut out, &digits);
    text::string(&out)
}

/// The name of a position on the grid means that position.
pub proof fn coord_reads_back(index: int)
    requires
        0 <= index < KEY_COUNT,
    ensures
        index_of(coord_of(index)) == Some(index),
{
    let row = (index / 5 + 1) as nat;
    let col = (index % 5 + 1) as nat;
    let s = coord_of(index);
    reveal_strlit("r");
    reveal_strlit("c");
    text::decimal_reads_back(row);
    text::decimal_reads_back(col);
    let r = text::decimal(row);
    let c = text::decimal(col);
    let rest = s.drop_first();
    assert(rest =~= r + seq!['c'] + c);
    assert forall|j: int| 0 <= j < r.len() implies rest[j] != 'c' by {
        assert(text::is_digit(r[j]));
    }
    text::split_once_first(rest, 'c', r.len() as int);
    assert(rest.take(r.len() as int) =~= r);
    assert(rest.skip(r.len() as int + 1) =~= c);
    assert(text::is_digit(r[0]) && text::is_digit(c[0]));
}

/// The name of a key's action.
pub open spec fn action_word(key: KeyConfig) -> Seq<char> {
    match key {
        KeyConfig::LaunchApp { .. } => "launch_app"@,
        KeyConfig::Macro { .. } => "macro"@,
        KeyConfig::MicMute { .. } => "mic_mute"@,
        KeyConfig::SystemMute { .. } => "system_mute"@,
        KeyConfig::ObsRecordStart { .. } => "obs_record_start"@,
        KeyConfig::ObsRecordStop { .. } => "obs_record_stop"@,
        KeyConfig::ObsRecordPause { .. } => "obs_record_pause"@,
        KeyConfig::ObsRecordToggle { .. } => "obs_record_toggle"@,
        KeyConfig::ObsReplayStart { .. } => "obs_replay_start"@,
        KeyConfig::ObsReplayStop { .. } => "obs_replay_stop"@,
        KeyConfig::ObsReplayToggle { .. } => "obs_replay_toggle"@,
        KeyConfig::ObsReplaySave { .. } => "obs_replay_save"@,
        KeyConfig::Widget { .. } => "widget"@,
        KeyConfig::Sleep { .. } => "sleep"@,
    }
}

/// The name of a key's action.
pub fn action_name(key: &KeyConfig) -> (r: &'static str)
    ensures
        r@ == action_word(*key),
{
    match key {
        KeyConfig::LaunchApp { .. } => "launch_app",
        KeyConfig::Macro { .. } => "macro",
        KeyConfig::MicMute { .. } => "mic_mute",
        KeyConfig::SystemMute { .. } => "system_mute",
        KeyConfig::ObsRecordStart { .. } => "obs_record_start",
        KeyConfig::ObsRecordStop { .. } => "obs_record_stop",
        KeyConfig::ObsRecordPause { .. } => "obs_record_pause",
        KeyConfig::ObsRecordToggle { .. } => "obs_record_toggle",
        KeyConfig::ObsReplayStart { .. } => "obs_replay_start",
        KeyConfig::ObsReplayStop { .. } => "obs_replay_stop",
        KeyConfig::ObsReplayToggle { .. } => "obs_replay_toggle",
        KeyConfig::ObsReplaySave { .. } => "obs_replay_save",
        KeyConfig::Widget { .. } => "widget",
        KeyConfig::Sleep { .. } => "sleep",
    }
}

// --- Icons -----------------------------------------------------------------

/// The mute icon for a state; unknown until the first poll, which is blank.
pub open spec fn mute_icon_of(
    muted: Option<bool>,
    icon_muted: Option<String>,
    icon_unmuted: Option<String>,
) -> Option<Seq<char>> {
    match muted {
        Some(true) => text::opt(icon_muted),
        Some(false) => text::opt(icon_unmuted),
        None => None,
    }
}

/// Pick the mute icon for a state (muted/unmuted/unknown).
pub fn mute_icon(
    muted: Option<bool>,
    icon_muted: &Option<String>,
    icon_unmuted: &Option<String>,
) -> (r: Option<String>)
    ensures
        text::opt(r) == mute_icon_of(muted, *icon_muted, *icon_unmuted),
{
    match muted {
        Some(true) => text::copy_opt(icon_muted),
        Some(false) => text::copy_opt(icon_unmuted),
        None => None,
    }
}

/// One optional text, or another where there is none.
pub open spec fn or_else(a: Option<Seq<char>>, b: Option<Seq<char>>) -> Option<Seq<char>> {
    match a {
        Some(t) => Some(t),
        None => b,
    }
}

/// One optional text, or another where there is none.
fn first_of(a: &Option<String>, b: &Option<String>) -> (r: Option<String>)
    ensures
        text::opt(r) == or_else(text::opt(*a), text::opt(*b)),
{
    match a {
        Some(_) => text::copy_opt(a),
        None => text::copy_opt(b),
    }
}

/// The recording icon for a state, falling back disconnected→stopped.
pub open spec fn record_icon_of(state: RecordState, icons: RecordIcons) -> Option<Seq<char>> {
    match state {
        RecordState::Recording => text::opt(icons.icon_recording),
        RecordState::Paused => text::opt(icons.icon_paused),
        RecordState::Stopped => text::opt(icons.icon_stopped),
        RecordState::Disconnected => or_else(
            text::opt(icons.icon_disconnected),
            text::opt(icons.icon_stopped),
        ),
    }
}

/// Pick the recording icon for a state, falling back disconnected→stopped.
pub fn record_icon(state: RecordState, icons: &RecordIcons) -> (r: Option<String>)
    ensures
        text::opt(r) == record_icon_of(state, *icons),
{
    match state {
        RecordState::Recording => text::copy_opt(&icons.icon_recording),
        RecordState::Paused => text::copy_opt(&icons.icon_paused),
        RecordState::Stopped => text::copy_opt(&icons.icon_stopped),
        RecordState::Disconnected => first_of(&icons.icon_disconnected, &icons.icon_stopped),
    }
}

/// The replay icon for a state, falling back disconnected→disarmed.
pub open spec fn replay_icon_of(state: ReplayState, icons: ReplayIcons) -> Option<Seq<char>> {
    match state {
        ReplayState::Armed => text::opt(icons.icon_armed),
        ReplayState::Disarmed => text::opt(icons.icon_disarmed),
        ReplayState::Disconnected => or_else(
            text::opt(icons.icon_disconnected),
            text::opt(icons.icon_disarmed),
        ),
    }
}

/// Pick the replay icon for a state, falling back disconnected→disarmed.
pub fn replay_icon(state: ReplayState, icons: &ReplayIcons) -> (r: Option<String>)
    ensures
        text::opt(r) == replay_icon_of(state, *icons),
{
    match state {
        ReplayState::Armed => text::copy_opt(&icons.icon_armed),
        ReplayState::Disarmed => text::copy_opt(&icons.icon_disarmed),
        ReplayState::Disconnected => first_of(&icons.icon_disconnected, &icons.icon_disarmed),
    }
}

// --- The runtime -----------------------------------------------------------

#[derive(Debug, Clone)]
pub struct Runtime {
    pub keys: Vec<Option<KeyConfig>>,
    /// Whether there is a virtual keyboard to play macros on.
    pub has_keyboard: bool,
    pub state: LiveState,
    /// Whether OBS captures anything, where that is known.
    pub capture_live: Option<bool>,
    /// Last-painted descriptor per key (`None` = never painted / force repaint).
    pub last_visual: Vec<Option<Visual>>,
    pub prev_state: Vec<bool>,
    pub last_audio_poll: u64,
    /// Whether any configured key needs mic / system mute state at all (skip the
    /// polls entirely otherwise).
    pub needs_mic: bool,
    pub needs_system: bool,
    /// Whether OBS is configured.
    pub has_obs: bool,
    pub obs_connected: bool,
    /// Whether record keys show that OBS captures nothing.
    pub show_capture_status: bool,
    pub icon_not_capturing: Option<String>,
    /// Live metric widgets, by their key index.
    pub widgets: Vec<Option<Widget>>,
    /// Idle dim/screensaver/blank settings (seconds) + current backlight state.
    pub brightness: u8,
    pub dim_brightness: u8,
    pub dim_timeout: Option<u64>,
    pub screensaver_timeout: Option<u64>,
    pub idle_timeout: Option<u64>,
    pub last_input: u64,
    pub display: Display,
    /// Manual "sleep" (via a Sleep key): the backlight stays off regardless of the
    /// idle timers until a Sleep key is pressed again.
    pub slept: bool,
    /// Per-key error-flash expiry; `Some(t)` shows the error icon until `t`.
    pub error_until: Vec<Option<u64>>,
    /// The failure-feedback tile (config override or bundled default).
    pub error_tile: Tile,
}

/// Whether a sampler is the one that a key asks for; a key that is no widget asks for
/// none.
pub open spec fn is_sampler_of(key: Option<KeyConfig>, s: Option<Sampler>) -> bool {
    match key {
        Some(KeyConfig::Widget { widget, interface, .. }) => s matches Some(s) && s.wf()
            && widgets::is_of_kind(s, widget, text::opt(interface)),
        _ => s is None,
    }
}

/// The sampler that a key asks for.
fn sampler_of(key: &KeyConfig) -> (r: Option<Sampler>)
    ensures
        is_sampler_of(Some(*key), r),
        r is Some ==> widgets::is_fresh(r->0),
{
    match key {
        KeyConfig::Widget { widget, interface, .. } => {
            let interface = text::copy_opt(interface);
            Some(Sampler::new(*widget, interface))
        },
        _ => None,
    }
}

/// The samplers of the deck's widgets, by key, each before its first sample.
pub fn samplers(entries: &Vec<KeyEntry>) -> (r: Vec<Option<Sampler>>)
    ensures
        r.len() == KEY_COUNT,
        forall|i: int| 0 <= i < KEY_COUNT ==> is_sampler_of(mapped(entries@, i), #[trigger] r@[i]),
        forall|i: int|
            0 <= i < KEY_COUNT && (#[trigger] r@[i]) is Some ==> widgets::is_fresh(r@[i]->0),
{
    let mut out: Vec<Option<Sampler>> = Vec::new();
    while out.len() < KEY_COUNT
        invariant
            out.len() <= KEY_COUNT,
            forall|i: int| 0 <= i < out.len() ==> (#[trigger] out@[i]) is None,
        decreases KEY_COUNT - out.len(),
    {
        out.push(None);
    }
    let mut k: usize = 0;
    while k < entries.len()
        invariant
            k <= entries.len(),
            out.len() == KEY_COUNT,
            forall|i: int|
                0 <= i < KEY_COUNT ==> is_sampler_of(
                    mapped(entries@.take(k as int), i),
                    #[trigger] out@[i],
                ),
            forall|i: int|
                0 <= i < KEY_COUNT && (#[trigger] out@[i]) is Some ==> widgets::is_fresh(
                    out@[i]->0,
                ),
        decreases entries.len() - k,
    {
        let ghost before = out@;
        assert(entries@.take(k + 1).drop_last() =~= entries@.take(k as int));
        assert(entries@.take(k + 1).last() == entries@[k as int]);
        if let Ok(coord) = KeyCoord::parse(entries[k].coord.as_str()) {
            let index: usize = coord.index();
            assert(index_of(entries@[k as int].coord@) == Some(index as int));
            out.set(index, sampler_of(&entries[k].key));
        }
        assert forall|i: int| 0 <= i < KEY_COUNT implies is_sampler_of(
            mapped(entries@.take(k + 1), i),
            #[trigger] out@[i],
        ) by {
            assert(is_sampler_of(mapped(entries@.take(k as int), i), before[i]));
        }
        k = k + 1;
    }
    assert(entries@.take(k as int) =~= entries@);
    out
}

/// Whether a widget is the one that a key asks for, of its sampler, rendered once.
pub open spec fn is_widget_of(
    key: Option<KeyConfig>,
    sampler: Option<Sampler>,
    w: Option<Widget>,
    now: u64,
    load: Seq<Rgb>,
) -> bool {
    match key {
        Some(KeyConfig::Widget { refresh_secs, .. }) => {
            &&& w is Some
            &&& w->0.wf()
            &&& Some(w->0.sampler) == sampler
            &&& w->0.interval == (match refresh_secs {
                Some(s) => s,
                None => widgets::DEFAULT_REFRESH_SECS,
            })
            &&& w->0.is_rendered(now, 1, load)
        },
        _ => w is None,
    }
}

/// The widget that a key asks for.
fn widget_of(key: &Option<KeyConfig>, sampler: Option<Sampler>, now: u64, load: &Vec<Rgb>) -> (r:
    Option<Widget>)
    requires
        is_sampler_of(*key, sampler),
        load.len() == 72,
    ensures
        is_widget_of(*key, sampler, r, now, load@),
{
    match key {
        Some(KeyConfig::Widget { refresh_secs, .. }) => match sampler {
            Some(s) => Some(Widget::new(s, *refresh_secs, now, load)),
            None => None,
        },
        _ => None,
    }
}

/// Whether any key toggles the mute of a target.
pub open spec fn needs(keys: Seq<Option<KeyConfig>>, target: Target) -> bool {
    exists|i: int|
        0 <= i < keys.len() && match #[trigger] keys[i] {
            Some(KeyConfig::MicMute { .. }) => target == Target::Source,
            Some(KeyConfig::SystemMute { .. }) => target == Target::Sink,
            _ => false,
        }
}

/// Whether any key toggles the mute of a target.
fn any_needs(keys: &Vec<Option<KeyConfig>>, target: Target) -> (r: bool)
    ensures
        r == needs(keys@, target),
{
    let mut i: usize = 0;
    while i < keys.len()
        invariant
            i <= keys.len(),
            forall|j: int|
                0 <= j < i ==> !(match #[trigger] keys@[j] {
                    Some(KeyConfig::MicMute { .. }) => target == Target::Source,
                    Some(KeyConfig::SystemMute { .. }) => target == Target::Sink,
                    _ => false,
                }),
        decreases keys.len() - i,
    {
        let hit = match &keys[i] {
            Some(KeyConfig::MicMute { .. }) => target == Target::Source,
            Some(KeyConfig::SystemMute { .. }) => target == Target::Sink,
            _ => false,
        };
        if hit {
            assert(match keys@[i as int] {
                Some(KeyConfig::MicMute { .. }) => target == Target::Source,
                Some(KeyConfig::SystemMute { .. }) => target == Target::Sink,
                _ => false,
            });
            return true;
        }
        i = i + 1;
    }
    false
}

impl Runtime {
    /// There is one of everything for each key, and a widget for exactly the
    /// widget keys.
    pub open spec fn wf(self) -> bool {
        &&& self.keys.len() == KEY_COUNT
        &&& self.last_visual.len() == KEY_COUNT
        &&& self.prev_state.len() == KEY_COUNT
        &&& self.widgets.len() == KEY_COUNT
        &&& self.error_until.len() == KEY_COUNT
        &&& self.error_tile.wf()
        &&& self.brightness <= 100
        &&& self.dim_brightness <= 100
        &&& forall|i: int|
            0 <= i < KEY_COUNT ==> ((#[trigger] self.widgets@[i]) is Some <==> (
            self.keys@[i] is Some && self.keys@[i]->0 is Widget))
        &&& forall|i: int|
            0 <= i < KEY_COUNT && (#[trigger] self.widgets@[i]) is Some
                ==> self.widgets@[i]->0.wf()
    }
}

/// The runtime at startup: nothing painted, nothing pressed, nothing known yet, and
/// each widget rendered from its first sample, with `load` as the load color of each
/// row.
pub fn run(
    config: Config,
    now: u64,
    has_keyboard: bool,
    error_tile: Tile,
    samplers: Vec<Option<Sampler>>,
    load: &Vec<Rgb>,
) -> (r: Runtime)
    requires
        error_tile.wf(),
        load.len() == 72,
        samplers.len() == KEY_COUNT,
        forall|i: int|
            0 <= i < KEY_COUNT ==> is_sampler_of(mapped(config.key@, i), #[trigger] samplers@[i]),
    ensures
        r.wf(),
        forall|i: int| 0 <= i < KEY_COUNT ==> #[trigger] r.keys@[i] == mapped(config.key@, i),
        forall|i: int|
            0 <= i < KEY_COUNT ==> is_widget_of(
                #[trigger] r.keys@[i],
                samplers@[i],
                r.widgets@[i],
                now,
                load@,
            ),
        forall|i: int| 0 <= i < KEY_COUNT ==> (#[trigger] r.last_visual@[i]) is None,
        forall|i: int| 0 <= i < KEY_COUNT ==> !(#[trigger] r.prev_state@[i]),
        forall|i: int| 0 <= i < KEY_COUNT ==> (#[trigger] r.error_until@[i]) is None,
        r.has_keyboard == has_keyboard,
        r.state == (LiveState {
            mic_muted: None,
            system_muted: None,
            record: RecordState::Disconnected,
            replay: ReplayState::Disconnected,
        }),
        r.capture_live is None,
        r.last_audio_poll == now,
        r.needs_mic == needs(r.keys@, Target::Source),
        r.needs_system == needs(r.keys@, Target::Sink),
        r.has_obs == (config.obs is Some),
        !r.obs_connected,
        r.show_capture_status == (config.obs is Some && config.obs->0.show_capture_status),
        r.icon_not_capturing == (match config.obs {
            Some(o) => o.icon_not_capturing,
            None => None,
        }),
        r.brightness == config::percent(config.brightness),
        r.dim_brightness == config::percent(config.dim_brightness),
        r.dim_timeout == config::timeout(config.dim_timeout_secs),
        r.screensaver_timeout == config.screensaver_after(),
        r.idle_timeout == config::timeout(config.idle_timeout_secs),
        r.last_input == now,
        r.display == Display::Full,
        !r.slept,
        r.error_tile == error_tile,
{
    let brightness: u8 = config.brightness();
    let dim_brightness: u8 = config.dim_brightness();
    let dim_timeout = config.dim_timeout();
    let screensaver_timeout = config.screensaver_timeout();
    let idle_timeout = config.idle_timeout();
    let keys = build_key_map(config.key);
    let needs_mic = any_needs(&keys, Target::Source);
    let needs_system = any_needs(&keys, Target::Sink);
    let (has_obs, show_capture_status, icon_not_capturing) = match config.obs {
        Some(o) => (true, o.show_capture_status, o.icon_not_capturing),
        None => (false, false, None),
    };
    let mut widgets: Vec<Option<Widget>> = Vec::new();
    let mut last_visual: Vec<Option<Visual>> = Vec::new();
    let mut prev_state: Vec<bool> = Vec::new();
    let mut error_until: Vec<Option<u64>> = Vec::new();
    let ghost all = samplers@;
    let mut samplers = samplers;
    let mut i: usize = 0;
    while i < KEY_COUNT
        invariant
            keys.len() == KEY_COUNT,
            load.len() == 72,
            samplers@ == all.skip(i as int),
            all.len() == KEY_COUNT,
            forall|j: int| 0 <= j < KEY_COUNT ==> is_sampler_of(keys@[j], #[trigger] all[j]),
            i <= KEY_COUNT,
            widgets.len() == i,
            last_visual.len() == i,
            prev_state.len() == i,
            error_until.len() == i,
            forall|j: int|
                0 <= j < i ==> is_widget_of(keys@[j], all[j], #[trigger] widgets@[j], now, load@),
            forall|j: int| 0 <= j < i ==> (#[trigger] last_visual@[j]) is None,
            forall|j: int| 0 <= j < i ==> !(#[trigger] prev_state@[j]),
            forall|j: int| 0 <= j < i ==> (#[trigger] error_until@[j]) is None,
        decreases KEY_COUNT - i,
    {
        let sampler = samplers.remove(0);
        assert(sampler == all[i as int]);
        assert(samplers@ =~= all.skip(i + 1));
        widgets.push(widget_of(&keys[i], sampler, now, load));
        last_visual.push(None);
        prev_state.push(false);
        error_until.push(None);
        i = i + 1;
    }
    let rt = Runtime {
        keys,
        has_keyboard,
        state: LiveState::default(),
        capture_live: None,
        last_visual,
        prev_state,
        last_audio_poll: now,
        needs_mic,
        needs_system,
        has_obs,
        obs_connected: false,
        show_capture_status,
        icon_not_capturing,
        widgets,
        brightness,
        dim_brightness,
        dim_timeout,
        screensaver_timeout,
        idle_timeout,
        last_input: now,
        display: Display::Full,
        slept: false,
        error_until,
        error_tile,
    };
    assert forall|i: int| 0 <= i < KEY_COUNT implies is_widget_of(
        #[trigger] rt.keys@[i],
        all[i],
        rt.widgets@[i],
        now,
        load@,
    ) by {
        assert(is_widget_of(keys@[i], all[i], widgets@[i], now, load@));
    }
    rt
}

// --- The backlight ---------------------------------------------------------

/// Whether a timeout has passed.
pub open spec fn passed(timeout: Option<u64>, idle_ms: u64) -> bool {
    match timeout {
        Some(secs) => idle_ms / 1000 >= secs,
        None => false,
    }
}

/// Whether a timeout has passed.
fn has_passed(timeout: Option<u64>, idle_ms: u64) -> (r: bool)
    ensures
        r == passed(timeout, idle_ms),
{
    match timeout {
        Some(secs) => idle_ms / 1000 >= secs,
        None => false,
    }
}

/// How deep a backlight state is in the idle hierarchy.
pub open spec fn depth(d: Display) -> int {
    match d {
        Display::Full => 0,
        Display::Dimmed => 1,
        Display::Screensaver => 2,
        Display::Blanked => 3,
    }
}

/// What a turn of the main loop does about presses: the backlight state to set, and
/// the keys whose actions run.
#[derive(Debug, Clone)]
pub struct TurnPlan {
    pub display: Option<Display>,
    pub run: Vec<usize>,
}

/// What is painted in a turn of the main loop.
#[derive(Debug, Clone, Copy, PartialEq, Eq, Structural)]
pub enum Painting {
    /// While fully blanked the panel is dark and frozen.
    Nothing,
    /// The keys that changed.
    Keys,
    /// A frame of the screensaver.
    Rain,
}

impl Runtime {
    /// How long there was no input.
    pub open spec fn idle_ms(self, now: u64) -> u64 {
        widgets::above(now, self.last_input)
    }

    /// The backlight state implied by how long we've been idle: of the thresholds
    /// that were crossed, the deepest wins.
    pub open spec fn idle_state(self, now: u64) -> Display {
        if passed(self.idle_timeout, self.idle_ms(now)) {
            Display::Blanked
        } else if passed(self.screensaver_timeout, self.idle_ms(now)) {
            Display::Screensaver
        } else if passed(self.dim_timeout, self.idle_ms(now)) {
            Display::Dimmed
        } else {
            Display::Full
        }
    }

    /// The backlight state implied by how long we've been idle.
    pub fn idle_display(&self, now: u64) -> (r: Display)
        ensures
            r == self.idle_state(now),
    {
        let idle: u64 = now.saturating_sub(self.last_input);
        if has_passed(self.idle_timeout, idle) {
            return Display::Blanked;
        }
        if has_passed(self.screensaver_timeout, idle) {
            return Display::Screensaver;
        }
        if has_passed(self.dim_timeout, idle) {
            return Display::Dimmed;
        }
        Display::Full
    }

    /// Whether the key at `index` is a Sleep-toggle key.
    pub open spec fn sleeps(self, index: int) -> bool {
        0 <= index < self.keys.len() && self.keys@[index] is Some && self.keys@[index]->0 is Sleep
    }

    /// Whether the key at `index` is a Sleep-toggle key.
    pub fn is_sleep_key(&self, index: usize) -> (r: bool)
        ensures
            r == self.sleeps(index as int),
    {
        if index >= self.keys.len() {
            return false;
        }
        match &self.keys[index] {
            Some(KeyConfig::Sleep { .. }) => true,
            _ => false,
        }
    }

    /// Whether one of the pressed keys is a Sleep-toggle key.
    pub open spec fn sleep_pressed(self, pressed: Seq<usize>) -> bool {
        exists|i: int| 0 <= i < pressed.len() && self.sleeps(#[trigger] pressed[i] as int)
    }

    /// Whether one of the pressed keys is a Sleep-toggle key.
    fn any_sleep_key(&self, pressed: &Vec<usize>) -> (r: bool)
        ensures
            r == self.sleep_pressed(pressed@),
    {
        let mut i: usize = 0;
        while i < pressed.len()
            invariant
                i <= pressed.len(),
                forall|j: int| 0 <= j < i ==> !self.sleeps(#[trigger] pressed@[j] as int),
            decreases pressed.len() - i,
        {
            if self.is_sleep_key(pressed[i]) {
                assert(self.sleeps(pressed@[i as int] as int));
                return true;
            }
            i = i + 1;
        }
        false
    }

    /// What a turn does about presses.
    ///
    /// Off by manual sleep: only a Sleep key wakes the deck, other presses are
    /// ignored. Off by idle blank: any press wakes it. A press that wakes the deck is
    /// consumed, it doesn't trigger its action. Sleep key while awake: blank the deck
    /// until a Sleep key wakes it. Any other press acts, at full brightness. Without
    /// a press the idle timers count, but not while slept.
    pub open spec fn is_planned(
        self,
        pressed: Seq<usize>,
        now: u64,
        after: Runtime,
        plan: TurnPlan,
    ) -> bool {
        &&& after == (Runtime {
            last_input: if pressed.len() > 0 {
                now
            } else {
                self.last_input
            },
            slept: if pressed.len() == 0 {
                self.slept
            } else if self.display == Display::Blanked {
                self.slept && !self.sleep_pressed(pressed)
            } else {
                self.slept || self.sleep_pressed(pressed)
            },
            ..self
        })
        &&& plan.display == (if pressed.len() == 0 {
            if !self.slept && self.idle_state(now) != self.display {
                Some(self.idle_state(now))
            } else {
                None
            }
        } else if self.display == Display::Blanked {
            if self.slept && !self.sleep_pressed(pressed) {
                None
            } else {
                Some(Display::Full)
            }
        } else if self.sleep_pressed(pressed) {
            Some(Display::Blanked)
        } else {
            Some(Display::Full)
        })
        &&& plan.run@ =~= (if self.display == Display::Blanked || self.sleep_pressed(pressed) {
            Seq::empty()
        } else {
            pressed
        })
    }

    /// What a turn does about presses.
    pub fn on_presses(&mut self, pressed: Vec<usize>, now: u64) -> (r: TurnPlan)
        requires
            old(self).wf(),
        ensures
            final(self).wf(),
            old(self).is_planned(pressed@, now, *final(self), r),
    {
        if pressed.len() == 0 {
            if !self.slept {
                let desired = self.idle_display(now);
                if desired != self.display {
                    return TurnPlan { display: Some(desired), run: Vec::new() };
                }
            }
            return TurnPlan { display: None, run: Vec::new() };
        }
        self.last_input = now;
        let sleep_key = self.any_sleep_key(&pressed);
        if self.display == Display::Blanked {
            if self.slept && !sleep_key {
                return TurnPlan { display: None, run: Vec::new() };
            }
            self.slept = false;
            return TurnPlan { display: Some(Display::Full), run: Vec::new() };
        }
        if sleep_key {
            self.slept = true;
            return TurnPlan { display: Some(Display::Blanked), run: Vec::new() };
        }
        TurnPlan { display: Some(Display::Full), run: pressed }
    }

    /// The brightness of a backlight state. The screensaver shows at awake level.
    pub open spec fn level(self, d: Display) -> u8 {
        match d {
            Display::Full | Display::Screensaver => self.brightness,
            Display::Dimmed => self.dim_brightness,
            Display::Blanked => 0,
        }
    }

    /// The brightness to set for a backlight state, unless it is the current one.
    pub fn brightness_for(&self, d: Display) -> (r: Option<u8>)
        ensures
            r == (if self.display == d {
                None
            } else {
                Some(self.level(d))
            }),
    {
        if self.display == d {
            return None;
        }
        Some(
            match d {
                Display::Full | Display::Screensaver => self.brightness,
                Display::Dimmed => self.dim_brightness,
                Display::Blanked => 0,
            },
        )
    }

    /// Whether every key is painted again on the next pass.
    pub open spec fn all_stale(self) -> bool {
        forall|i: int| 0 <= i < self.last_visual.len() ==> (#[trigger] self.last_visual@[i]) is None
    }

    /// Force every key to repaint on the next pass (used after reconnect/resume).
    pub fn force_full_repaint(&mut self)
        requires
            old(self).wf(),
        ensures
            final(self).wf(),
            final(self).all_stale(),
            *final(self) == (Runtime { last_visual: final(self).last_visual, ..*old(self) }),
    {
        let mut cleared: Vec<Option<Visual>> = Vec::new();
        while cleared.len() < KEY_COUNT
            invariant
                cleared.len() <= KEY_COUNT,
                forall|i: int| 0 <= i < cleared.len() ==> (#[trigger] cleared@[i]) is None,
            decreases KEY_COUNT - cleared.len(),
        {
            cleared.push(None);
        }
        self.last_visual = cleared;
    }

    /// What a backlight state that was set changes. Leaving the blank or the
    /// screensaver forces a full repaint, so that whatever changed meanwhile is
    /// shown.
    pub open spec fn is_shown_at(self, d: Display, after: Runtime) -> bool {
        &&& after == (Runtime { display: d, last_visual: after.last_visual, ..self })
        &&& if (self.display == Display::Blanked || self.display == Display::Screensaver) && d
            != self.display {
            after.all_stale()
        } else {
            after.last_visual == self.last_visual
        }
    }

    /// A backlight state was set, and the brightness with it.
    pub fn display_set(&mut self, d: Display)
        requires
            old(self).wf(),
        ensures
            final(self).wf(),
            old(self).is_shown_at(d, *final(self)),
    {
        let hid_keys = self.display == Display::Blanked || self.display == Display::Screensaver;
        let changed = self.display != d;
        self.display = d;
        if hid_keys && changed {
            self.force_full_repaint();
        }
    }

    /// What a resume or reconnect changes, and the brightness to set: if the deck is
    /// manually slept, it stays off (only a Sleep key wakes it); otherwise it wakes to full brightness and
    /// repaints everything.
    pub open spec fn is_restored(self, now: u64, after: Runtime, level: u8) -> bool {
        if self.slept {
            level == 0 && after == (Runtime { display: Display::Blanked, ..self })
        } else {
            &&& level == self.brightness
            &&& after == (Runtime {
                display: Display::Full,
                last_input: now,
                last_visual: after.last_visual,
                ..self
            })
            &&& after.all_stale()
        }
    }

    /// Restore the backlight after a resume or reconnect; the result is the
    /// brightness to set.
    pub fn restore_display(&mut self, now: u64) -> (r: u8)
        requires
            old(self).wf(),
        ensures
            final(self).wf(),
            old(self).is_restored(now, *final(self), r),
    {
        if self.slept {
            self.display = Display::Blanked;
            0
        } else {
            self.display = Display::Full;
            self.last_input = now;
            self.force_full_repaint();
            self.brightness
        }
    }

    /// What opening the deck again changes, and the brightness to set: no key counts
    /// as down, and the backlight is restored.
    pub open spec fn is_reconnected(self, now: u64, after: Runtime, level: u8) -> bool {
        &&& forall|i: int| 0 <= i < KEY_COUNT ==> !(#[trigger] after.prev_state@[i])
        &&& (Runtime { prev_state: after.prev_state, ..self }).is_restored(now, after, level)
    }

    /// The deck was opened again after a failed read; the result is the brightness to
    /// set.
    pub fn on_reconnect(&mut self, now: u64) -> (r: u8)
        requires
            old(self).wf(),
        ensures
            final(self).wf(),
            old(self).is_reconnected(now, *final(self), r),
    {
        let mut released: Vec<bool> = Vec::new();
        while released.len() < KEY_COUNT
            invariant
                released.len() <= KEY_COUNT,
                forall|i: int| 0 <= i < released.len() ==> !(#[trigger] released@[i]),
            decreases KEY_COUNT - released.len(),
        {
            released.push(false);
        }
        self.prev_state = released;
        self.restore_display(now)
    }

    /// What is painted this turn.
    pub open spec fn paints(self) -> Painting {
        match self.display {
            Display::Blanked => Painting::Nothing,
            Display::Screensaver => Painting::Rain,
            Display::Full | Display::Dimmed => Painting::Keys,
        }
    }

    /// What is painted this turn.
    pub fn painting(&self) -> (r: Painting)
        ensures
            r == self.paints(),
    {
        match self.display {
            Display::Blanked => Painting::Nothing,
            Display::Screensaver => Painting::Rain,
            Display::Full | Display::Dimmed => Painting::Keys,
        }
    }
}

/// The longer the deck is idle, the deeper its backlight state; once it is to be
/// blanked, the screensaver never runs.
pub proof fn idling_only_deepens(rt: Runtime, earlier: u64, later: u64)
    requires
        earlier <= later,
    ensures
        depth(rt.idle_state(earlier)) <= depth(rt.idle_state(later)),
        passed(rt.idle_timeout, rt.idle_ms(later)) ==> rt.idle_state(later) == Display::Blanked,
{
    assert(rt.idle_ms(earlier) / 1000 <= rt.idle_ms(later) / 1000);
}

// --- Failure feedback ------------------------------------------------------

/// The flashes once one was started on a key.
pub open spec fn flashed(until: Seq<Option<u64>>, index: int, now: u64) -> Seq<Option<u64>> {
    if index < KEY_COUNT {
        until.update(
            index,
            Some(
                if now + ERROR_FLASH_MS > u64::MAX {
                    u64::MAX
                } else {
                    (now + ERROR_FLASH_MS) as u64
                },
            ),
        )
    } else {
        until
    }
}

impl Runtime {
    /// Whether a key shows the failure feedback.
    pub open spec fn flashing(self, index: int, now: u64) -> bool {
        match self.error_until@[index] {
            Some(t) => now < t,
            None => false,
        }
    }

    /// Whether exactly the flashes whose duration elapsed are gone.
    pub open spec fn is_expired(self, now: u64, after: Runtime) -> bool {
        &&& after == (Runtime { error_until: after.error_until, ..self })
        &&& after.error_until.len() == self.error_until.len()
        &&& forall|i: int|
            0 <= i < KEY_COUNT ==> #[trigger] after.error_until@[i] == (if self.flashing(i, now) {
                self.error_until@[i]
            } else {
                None
            })
    }

    /// Clear error flashes whose duration elapsed so the key reverts.
    pub fn expire_flashes(&mut self, now: u64)
        requires
            old(self).wf(),
        ensures
            final(self).wf(),
            old(self).is_expired(now, *final(self)),
    {
        let mut i: usize = 0;
        while i < KEY_COUNT
            invariant
                i <= KEY_COUNT,
                old(self).wf(),
                self.wf(),
                *self == (Runtime { error_until: self.error_until, ..*old(self) }),
                forall|j: int|
                    0 <= j < KEY_COUNT ==> #[trigger] self.error_until@[j] == (if j >= i || old(
                        self,
                    ).flashing(j, now) {
                        old(self).error_until@[j]
                    } else {
                        None
                    }),
            decreases KEY_COUNT - i,
        {
            if let Some(t) = self.error_until[i] {
                if now >= t {
                    self.error_until.set(i, None);
                }
            }
            i = i + 1;
        }
    }

    /// Whether a failure-feedback flash was started on a key, and nothing else.
    pub open spec fn is_flashed(self, index: int, now: u64, after: Runtime) -> bool {
        &&& after == (Runtime { error_until: after.error_until, ..self })
        &&& after.error_until@ == flashed(self.error_until@, index, now)
    }

    /// Start a failure-feedback flash on a key.
    pub fn flash_error(&mut self, index: usize, now: u64)
        requires
            old(self).wf(),
        ensures
            final(self).wf(),
            old(self).is_flashed(index as int, now, *final(self)),
    {
        if index < KEY_COUNT {
            self.error_until.set(index, Some(now.saturating_add(ERROR_FLASH_MS)));
        }
    }

    // --- Events ----------------------------------------------------------------

    /// What an OBS event changes.
    pub open spec fn is_told(self, event: ObsEvent, now: u64, after: Runtime) -> bool {
        match event {
            ObsEvent::Connected => after == (Runtime { obs_connected: true, ..self }),
            ObsEvent::Disconnected => after == (Runtime {
                obs_connected: false,
                capture_live: None,
                state: LiveState {
                    record: RecordState::Disconnected,
                    replay: ReplayState::Disconnected,
                    ..self.state
                },
                ..self
            }),
            ObsEvent::Record(s) => after == (Runtime {
                state: LiveState { record: s, ..self.state },
                ..self
            }),
            ObsEvent::Replay(s) => after == (Runtime {
                state: LiveState { replay: s, ..self.state },
                ..self
            }),
            ObsEvent::CaptureLive(live) => after == (Runtime { capture_live: Some(live), ..self }),
            ObsEvent::ActionFailed { key, .. } => self.is_flashed(key as int, now, after),
        }
    }

    /// Apply an OBS event to live state.
    pub fn on_obs_event(&mut self, event: ObsEvent, now: u64)
        requires
            old(self).wf(),
        ensures
            final(self).wf(),
            old(self).is_told(event, now, *final(self)),
    {
        match event {
            ObsEvent::Connected => {
                self.obs_connected = true;
            },
            ObsEvent::Disconnected => {
                self.obs_connected = false;
                self.capture_live = None;
                self.state.record = RecordState::Disconnected;
                self.state.replay = ReplayState::Disconnected;
            },
            ObsEvent::Record(s) => {
                self.state.record = s;
            },
            ObsEvent::Replay(s) => {
                self.state.replay = s;
            },
            ObsEvent::CaptureLive(live) => {
                self.capture_live = Some(live);
            },
            ObsEvent::ActionFailed { key, .. } => {
                self.flash_error(key, now);
            },
        }
    }

    /// Whether mute state has to be read again.
    pub open spec fn is_audio_due(self, now: u64) -> bool {
        widgets::above(now, self.last_audio_poll) >= AUDIO_POLL_INTERVAL_MS
    }

    /// Whether mute state has to be read again.
    pub fn audio_due(&self, now: u64) -> (r: bool)
        ensures
            r == self.is_audio_due(now),
    {
        now.saturating_sub(self.last_audio_poll) >= AUDIO_POLL_INTERVAL_MS
    }

    /// The targets whose mute state is used.
    pub open spec fn targets(self) -> Seq<Target> {
        (if self.needs_mic {
            seq![Target::Source]
        } else {
            Seq::empty()
        }) + (if self.needs_system {
            seq![Target::Sink]
        } else {
            Seq::empty()
        })
    }

    /// Re-read mute state: the targets that are actually used.
    pub fn refresh_audio(&mut self, now: u64) -> (r: Vec<Target>)
        requires
            old(self).wf(),
        ensures
            final(self).wf(),
            *final(self) == (Runtime { last_audio_poll: now, ..*old(self) }),
            r@ == old(self).targets(),
    {
        self.last_audio_poll = now;
        let mut targets: Vec<Target> = Vec::new();
        if self.needs_mic {
            targets.push(Target::Source);
        }
        if self.needs_system {
            targets.push(Target::Sink);
        }
        targets
    }

    /// The runtime once a poll of a target's mute state came back. A poll that failed
    /// changes nothing.
    pub open spec fn polled(self, target: Target, muted: Option<bool>) -> Runtime {
        match muted {
            None => self,
            Some(m) => Runtime {
                state: match target {
                    Target::Source => LiveState { mic_muted: Some(m), ..self.state },
                    Target::Sink => LiveState { system_muted: Some(m), ..self.state },
                },
                ..self
            },
        }
    }

    /// A poll of a target's mute state came back.
    pub fn audio_polled(&mut self, target: Target, muted: Option<bool>)
        requires
            old(self).wf(),
        ensures
            final(self).wf(),
            *final(self) == old(self).polled(target, muted),
    {
        if let Some(m) = muted {
            match target {
                Target::Source => {
                    self.state.mic_muted = Some(m);
                },
                Target::Sink => {
                    self.state.system_muted = Some(m);
                },
            }
        }
    }

    /// A target's mute was toggled, and its state read again so the key reflects it
    /// now; where it could be read, the result is the popup to show.
    pub fn mute_toggled(&mut self, target: Target, muted: Option<bool>) -> (r: Option<Popup>)
        requires
            old(self).wf(),
        ensures
            final(self).wf(),
            *final(self) == (Runtime {
                state: match target {
                    Target::Source => LiveState { mic_muted: muted, ..old(self).state },
                    Target::Sink => LiveState { system_muted: muted, ..old(self).state },
                },
                ..*old(self)
            }),
            match muted {
                None => r is None,
                Some(m) => r is Some && match target {
                    Target::Source => osd::is_mute_status(
                        r->0,
                        "Microphone"@,
                        m,
                        "microphone-sensitivity-muted"@,
                        "microphone-sensitivity-high"@,
                    ),
                    Target::Sink => osd::is_mute_status(
                        r->0,
                        "Output"@,
                        m,
                        "audio-volume-muted"@,
                        "audio-volume-high"@,
                    ),
                },
            },
    {
        match target {
            Target::Source => {
                self.state.mic_muted = muted;
            },
            Target::Sink => {
                self.state.system_muted = muted;
            },
        }
        match muted {
            None => None,
            Some(m) => Some(
                match target {
                    Target::Source => osd::show_mic_mute(m),
                    Target::Sink => osd::show_system_mute(m),
                },
            ),
        }
    }
}

// --- Presses ---------------------------------------------------------------

/// What a press asks for.
#[derive(Debug, Clone)]
pub enum Action {
    /// Launch an application, or raise its window.
    Launch { app: String, window_class: Option<String> },
    /// Play a macro.
    Play(Playback),
    /// Toggle a target's mute.
    ToggleMute(Target),
    /// Send a command to OBS.
    Send(ObsCommand),
    Nothing,
}

/// Why a press cannot act.
#[derive(Debug, Clone, Copy, PartialEq, Eq, Structural)]
pub enum DispatchError {
    /// Keyboard macros are disabled (/dev/uinput not accessible).
    NoKeyboard,
    /// OBS is not configured.
    ObsNotConfigured,
    /// OBS is not connected.
    ObsNotConnected,
}

/// The OBS action of a key, where it has one.
pub open spec fn obs_action(key: KeyConfig) -> Option<ObsAction> {
    match key {
        KeyConfig::ObsRecordStart { .. } => Some(ObsAction::RecordStart),
        KeyConfig::ObsRecordStop { .. } => Some(ObsAction::RecordStop),
        KeyConfig::ObsRecordPause { .. } => Some(ObsAction::RecordTogglePause),
        KeyConfig::ObsRecordToggle { .. } => Some(ObsAction::RecordToggle),
        KeyConfig::ObsReplayStart { .. } => Some(ObsAction::ReplayStart),
        KeyConfig::ObsReplayStop { .. } => Some(ObsAction::ReplayStop),
        KeyConfig::ObsReplayToggle { .. } => Some(ObsAction::ReplayToggle),
        KeyConfig::ObsReplaySave { .. } => Some(ObsAction::ReplaySave),
        _ => None,
    }
}

impl Runtime {
    /// What sending a command to OBS comes to.
    pub open spec fn sent(self, key: usize, action: ObsAction) -> Result<Action, DispatchError> {
        if !self.has_obs {
            Err(DispatchError::ObsNotConfigured)
        } else if !self.obs_connected {
            Err(DispatchError::ObsNotConnected)
        } else {
            Ok(Action::Send(ObsCommand { action, key }))
        }
    }

    /// Queue an OBS command, failing fast if OBS isn't configured or currently
    /// connected. Later failures come back as an event.
    pub fn send_obs(&self, key: usize, action: ObsAction) -> (r: Result<Action, DispatchError>)
        ensures
            r == self.sent(key, action),
    {
        if !self.has_obs {
            return Err(DispatchError::ObsNotConfigured);
        }
        if !self.obs_connected {
            return Err(DispatchError::ObsNotConnected);
        }
        Ok(Action::Send(ObsCommand { action, key }))
    }

    /// Whether a result is what a press of a key comes to.
    pub open spec fn is_dispatch(self, index: usize, r: Result<Action, DispatchError>) -> bool {
        match self.keys@[index as int] {
            None => r == Ok::<Action, DispatchError>(Action::Nothing),
            Some(KeyConfig::LaunchApp { app, window_class, .. }) => {
                r matches Ok(Action::Launch { app: a, window_class: w }) && a@ == app@ && text::opt(w)
                    == text::opt(window_class)
            },
            Some(KeyConfig::Macro { steps, .. }) => if self.has_keyboard {
                r matches Ok(Action::Play(p)) && keys::acts(p.actions@) == keys::macro_acts(steps@)
                    && match p.error {
                    Some(e) => keys::macro_fault(steps@) == Some(e@),
                    None => keys::macro_fault(steps@) is None,
                }
            } else {
                r == Err::<Action, DispatchError>(DispatchError::NoKeyboard)
            },
            Some(KeyConfig::MicMute { .. }) => r == Ok::<Action, DispatchError>(
                Action::ToggleMute(Target::Source),
            ),
            Some(KeyConfig::SystemMute { .. }) => r == Ok::<Action, DispatchError>(
                Action::ToggleMute(Target::Sink),
            ),
            Some(key) => match obs_action(key) {
                Some(action) => r == self.sent(index, action),
                None => r == Ok::<Action, DispatchError>(Action::Nothing),
            },
        }
    }

    /// What a key's action is, or why it cannot be performed. Widget keys aren't
    /// pressable; Sleep keys are seen to before.
    pub fn dispatch(&self, index: usize) -> (r: Result<Action, DispatchError>)
        requires
            self.wf(),
            index < KEY_COUNT,
        ensures
            self.is_dispatch(index, r),
    {
        let key = match &self.keys[index] {
            Some(key) => key,
            None => return Ok(Action::Nothing),
        };
        match key {
            KeyConfig::LaunchApp { app, window_class, .. } => Ok(
                Action::Launch {
                    app: app.as_str().to_string(),
                    window_class: text::copy_opt(window_class),
                },
            ),
            KeyConfig::Macro { steps, .. } => if self.has_keyboard {
                Ok(Action::Play(keys::play(steps)))
            } else {
                Err(DispatchError::NoKeyboard)
            },
            KeyConfig::MicMute { .. } => Ok(Action::ToggleMute(Target::Source)),
            KeyConfig::SystemMute { .. } => Ok(Action::ToggleMute(Target::Sink)),
            KeyConfig::ObsRecordStart { .. } => self.send_obs(index, ObsAction::RecordStart),
            KeyConfig::ObsRecordStop { .. } => self.send_obs(index, ObsAction::RecordStop),
            KeyConfig::ObsRecordPause { .. } => self.send_obs(index, ObsAction::RecordTogglePause),
            KeyConfig::ObsRecordToggle { .. } => self.send_obs(index, ObsAction::RecordToggle),
            KeyConfig::ObsReplayStart { .. } => self.send_obs(index, ObsAction::ReplayStart),
            KeyConfig::ObsReplayStop { .. } => self.send_obs(index, ObsAction::ReplayStop),
            KeyConfig::ObsReplayToggle { .. } => self.send_obs(index, ObsAction::ReplayToggle),
            KeyConfig::ObsReplaySave { .. } => self.send_obs(index, ObsAction::ReplaySave),
            KeyConfig::Widget { .. } | KeyConfig::Sleep { .. } => Ok(Action::Nothing),
        }
    }

    /// What a press of a key asks for, and what it changes: where the key cannot act,
    /// the failure flashes on it.
    pub open spec fn is_pressed(
        self,
        index: usize,
        now: u64,
        after: Runtime,
        asked: Result<Action, DispatchError>,
    ) -> bool {
        &&& self.is_dispatch(index, asked)
        &&& if asked is Err {
            self.is_flashed(index as int, now, after)
        } else {
            after == self
        }
    }

    /// A key was pressed: what it asks for.
    pub fn on_press(&mut self, index: usize, now: u64) -> (r: Result<Action, DispatchError>)
        requires
            old(self).wf(),
            index < KEY_COUNT,
        ensures
            final(self).wf(),
            old(self).is_pressed(index, now, *final(self), r),
    {
        let r = self.dispatch(index);
        if r.is_err() {
            self.flash_error(index, now);
        }
        r
    }
}

// --- Painting --------------------------------------------------------------

/// Where the tile of a key comes from, as a value.
pub enum Source {
    ErrorTile,
    Blank,
    Icon(Seq<char>),
    AppIcon(Seq<char>),
    WidgetTile,
}

/// Where the tile of a key comes from.
#[derive(Debug, Clone)]
pub enum TileSource {
    /// The failure-feedback tile.
    ErrorTile,
    /// Black.
    Blank,
    /// An icon file; black where it cannot be loaded.
    Icon(String),
    /// The icon of an application; black where none resolves.
    AppIcon(String),
    /// The widget's own tile.
    WidgetTile,
}

impl View for TileSource {
    type V = Source;

    open spec fn view(&self) -> Source {
        match self {
            TileSource::ErrorTile => Source::ErrorTile,
            TileSource::Blank => Source::Blank,
            TileSource::Icon(p) => Source::Icon(p@),
            TileSource::AppIcon(a) => Source::AppIcon(a@),
            TileSource::WidgetTile => Source::WidgetTile,
        }
    }
}

/// An optional icon file; black where there is none.
pub open spec fn icon_source(icon: Option<Seq<char>>) -> Source {
    match icon {
        Some(p) => Source::Icon(p),
        None => Source::Blank,
    }
}

/// An optional icon file; black where there is none.
fn opt_icon(icon: Option<String>) -> (r: TileSource)
    ensures
        r@ == icon_source(text::opt(icon)),
{
    match icon {
        Some(p) => TileSource::Icon(p),
        None => TileSource::Blank,
    }
}

/// Whether an upload was queued.
pub open spec fn is_queued(queued: Seq<bool>, a: int) -> bool {
    a < queued.len() && queued[a]
}

/// Whether any upload was queued.
pub open spec fn any_queued(uploads: Seq<(usize, Visual)>, queued: Seq<bool>) -> bool {
    exists|a: int| 0 <= a < uploads.len() && #[trigger] is_queued(queued, a)
}

/// What counts as painted once uploads were tried: those that were queued.
pub open spec fn painted(
    last: Seq<Option<Visual>>,
    uploads: Seq<(usize, Visual)>,
    queued: Seq<bool>,
) -> Seq<Option<Visual>>
    decreases uploads.len(),
{
    if uploads.len() == 0 {
        last
    } else {
        let before = painted(last, uploads.drop_last(), queued);
        if is_queued(queued, uploads.len() - 1) {
            before.update(uploads.last().0 as int, Some(uploads.last().1))
        } else {
            before
        }
    }
}

/// A key counts as painted by the upload of it that was queued, and is left alone
/// where there was none.
proof fn painted_at(
    last: Seq<Option<Visual>>,
    uploads: Seq<(usize, Visual)>,
    queued: Seq<bool>,
    i: int,
)
    requires
        0 <= i < last.len(),
        forall|a: int, b: int|
            0 <= a < b < uploads.len() ==> (#[trigger] uploads[a]).0 < (#[trigger] uploads[b]).0,
        forall|a: int| 0 <= a < uploads.len() ==> (#[trigger] uploads[a]).0 < last.len(),
    ensures
        painted(last, uploads, queued).len() == last.len(),
        (forall|a: int| 0 <= a < uploads.len() ==> (#[trigger] uploads[a]).0 != i) ==> painted(
            last,
            uploads,
            queued,
        )[i] == last[i],
        forall|a: int|
            0 <= a < uploads.len() && (#[trigger] uploads[a]).0 == i ==> painted(
                last,
                uploads,
                queued,
            )[i] == (if is_queued(queued, a) {
                Some(uploads[a].1)
            } else {
                last[i]
            }),
    decreases uploads.len(),
{
    if uploads.len() > 0 {
        let init = uploads.drop_last();
        let n = init.len() as int;
        assert forall|a: int, b: int| 0 <= a < b < init.len() implies (#[trigger] init[a]).0 < (
        #[trigger] init[b]).0 by {
            assert(uploads[a].0 < uploads[b].0);
        }
        assert forall|a: int| 0 <= a < init.len() implies (#[trigger] init[a]).0 < last.len() by {
            assert(uploads[a].0 < last.len());
        }
        painted_at(last, init, queued, i);
        assert(uploads[n].0 < last.len());
        assert forall|a: int| 0 <= a < n implies init[a] == #[trigger] uploads[a] && (uploads[n].0
            == i ==> uploads[a].0 != i) by {
            assert(uploads[a].0 < uploads[n].0);
        }
    }
}

impl Runtime {
    /// What an OBS recording key shows: while OBS captures nothing, and that is to
    /// be shown, a stopped one says so.
    pub open spec fn record_visual(self) -> Visual {
        if self.state.record == RecordState::Stopped && self.show_capture_status
            && self.capture_live == Some(false) {
            Visual::NotCapturing
        } else {
            Visual::Record(self.state.record)
        }
    }

    /// What an OBS recording key shows.
    fn visual_for_record(&self) -> (r: Visual)
        ensures
            r == self.record_visual(),
    {
        let blind = match self.capture_live {
            Some(live) => !live,
            None => false,
        };
        if self.state.record == RecordState::Stopped && self.show_capture_status && blind {
            Visual::NotCapturing
        } else {
            Visual::Record(self.state.record)
        }
    }

    /// The desired descriptor for a key given current live state. A live error
    /// flash overrides whatever the key would normally show.
    pub open spec fn visual(self, index: int, now: u64) -> Visual {
        if self.flashing(index, now) {
            Visual::Error
        } else {
            match self.keys@[index] {
                None => Visual::Static,
                Some(KeyConfig::LaunchApp { .. }) => Visual::Static,
                Some(KeyConfig::Macro { .. }) => Visual::Static,
                Some(KeyConfig::Sleep { .. }) => Visual::Static,
                Some(KeyConfig::MicMute { .. }) => Visual::Mute(self.state.mic_muted),
                Some(KeyConfig::SystemMute { .. }) => Visual::Mute(self.state.system_muted),
                Some(KeyConfig::ObsRecordStart { .. }) => self.record_visual(),
                Some(KeyConfig::ObsRecordStop { .. }) => self.record_visual(),
                Some(KeyConfig::ObsRecordPause { .. }) => self.record_visual(),
                Some(KeyConfig::ObsRecordToggle { .. }) => self.record_visual(),
                Some(KeyConfig::ObsReplayStart { .. }) => Visual::Replay(self.state.replay),
                Some(KeyConfig::ObsReplayStop { .. }) => Visual::Replay(self.state.replay),
                Some(KeyConfig::ObsReplayToggle { .. }) => Visual::Replay(self.state.replay),
                Some(KeyConfig::ObsReplaySave { .. }) => Visual::Replay(self.state.replay),
                Some(KeyConfig::Widget { .. }) => Visual::Widget(
                    match self.widgets@[index] {
                        Some(w) => w.generation,
                        None => 0,
                    },
                ),
            }
        }
    }

    /// The desired descriptor for a key given current live state.
    pub fn visual_for(&self, index: usize, now: u64) -> (r: Visual)
        requires
            self.wf(),
            index < KEY_COUNT,
        ensures
            r == self.visual(index as int, now),
    {
        if let Some(t) = self.error_until[index] {
            if now < t {
                return Visual::Error;
            }
        }
        match &self.keys[index] {
            None => Visual::Static,  // blank, painted once
            Some(key) => match key {
                KeyConfig::LaunchApp { .. }
                | KeyConfig::Macro { .. }
                | KeyConfig::Sleep { .. } => Visual::Static,
                KeyConfig::MicMute { .. } => Visual::Mute(self.state.mic_muted),
                KeyConfig::SystemMute { .. } => Visual::Mute(self.state.system_muted),
                KeyConfig::ObsRecordStart { .. }
                | KeyConfig::ObsRecordStop { .. }
                | KeyConfig::ObsRecordPause { .. }
                | KeyConfig::ObsRecordToggle { .. } => self.visual_for_record(),
                KeyConfig::ObsReplayStart { .. }
                | KeyConfig::ObsReplayStop { .. }
                | KeyConfig::ObsReplayToggle { .. }
                | KeyConfig::ObsReplaySave { .. } => Visual::Replay(self.state.replay),
                // Widgets repaint when their render generation changes.
                KeyConfig::Widget { .. } => Visual::Widget(
                    match &self.widgets[index] {
                        Some(w) => w.generation(),
                        None => 0,
                    },
                ),
            },
        }
    }

    /// Whether a key has to be uploaded again.
    pub open spec fn is_stale(self, index: int, now: u64) -> bool {
        self.last_visual@[index] != Some(self.visual(index, now))
    }

    /// Whether these are the keys to upload again, in order, each with what it is to
    /// show: exactly those whose descriptor changed since they were painted last.
    pub open spec fn is_repaint(self, now: u64, uploads: Seq<(usize, Visual)>) -> bool {
        &&& forall|a: int, b: int|
            0 <= a < b < uploads.len() ==> (#[trigger] uploads[a]).0 < (#[trigger] uploads[b]).0
        &&& forall|a: int|
            0 <= a < uploads.len() ==> (#[trigger] uploads[a]).0 < KEY_COUNT && self.is_stale(
                uploads[a].0 as int,
                now,
            ) && uploads[a].1 == self.visual(uploads[a].0 as int, now)
        &&& forall|i: int|
            0 <= i < KEY_COUNT && #[trigger] self.is_stale(i, now) ==> uploads.contains(
                (i as usize, self.visual(i, now)),
            )
    }

    /// The keys to upload again, each with what it is to show.
    pub fn repaint(&self, now: u64) -> (r: Vec<(usize, Visual)>)
        requires
            self.wf(),
        ensures
            self.is_repaint(now, r@),
    {
        let mut out: Vec<(usize, Visual)> = Vec::new();
        let mut index: usize = 0;
        while index < KEY_COUNT
            invariant
                self.wf(),
                index <= KEY_COUNT,
                forall|a: int, b: int| 0 <= a < b < out.len() ==> (#[trigger] out@[a]).0 < (
                #[trigger] out@[b]).0,
                forall|a: int|
                    0 <= a < out.len() ==> (#[trigger] out@[a]).0 < index && self.is_stale(
                        out@[a].0 as int,
                        now,
                    ) && out@[a].1 == self.visual(out@[a].0 as int, now),
                forall|i: int|
                    0 <= i < index && #[trigger] self.is_stale(i, now) ==> out@.contains(
                        (i as usize, self.visual(i, now)),
                    ),
            decreases KEY_COUNT - index,
        {
            let ghost before = out@;
            let visual = self.visual_for(index, now);
            let painted = match self.last_visual[index] {
                Some(last) => same_visual(last, visual),
                None => false,
            };
            if !painted {
                out.push((index, visual));
                proof {
                    assert(out@[before.len() as int] == (index, visual));
                    assert forall|i: int|
                        0 <= i < index + 1 && #[trigger] self.is_stale(
                            i,
                            now,
                        ) implies out@.contains((i as usize, self.visual(i, now))) by {
                        if i < index {
                            let want = (i as usize, self.visual(i, now));
                            assert(before.contains(want));
                            let a = choose|a: int| 0 <= a < before.len() && before[a] == want;
                            assert(out@[a] == want);
                        }
                    }
                }
            }
            index = index + 1;
        }
        out
    }

    /// Uploads were tried: those that were queued count as painted. The result is
    /// whether the queue has to be flushed to the deck.
    pub fn uploaded(&mut self, uploads: &Vec<(usize, Visual)>, queued: &Vec<bool>) -> (r: bool)
        requires
            old(self).wf(),
            forall|a: int| 0 <= a < uploads.len() ==> (#[trigger] uploads@[a]).0 < KEY_COUNT,
        ensures
            final(self).wf(),
            *final(self) == (Runtime { last_visual: final(self).last_visual, ..*old(self) }),
            final(self).last_visual@ == painted(old(self).last_visual@, uploads@, queued@),
            r == any_queued(uploads@, queued@),
    {
        let mut dirty = false;
        let mut a: usize = 0;
        while a < uploads.len()
            invariant
                a <= uploads.len(),
                forall|b: int| 0 <= b < uploads.len() ==> (#[trigger] uploads@[b]).0 < KEY_COUNT,
                self.wf(),
                *self == (Runtime { last_visual: self.last_visual, ..*old(self) }),
                self.last_visual@ == painted(
                    old(self).last_visual@,
                    uploads@.take(a as int),
                    queued@,
                ),
                dirty == any_queued(uploads@.take(a as int), queued@),
            decreases uploads.len() - a,
        {
            let ghost before = uploads@.take(a as int);
            let ghost now = uploads@.take(a + 1);
            assert(now.drop_last() =~= before);
            assert(now.last() == uploads@[a as int]);
            let (index, visual) = uploads[a];
            if a < queued.len() && queued[a] {
                self.last_visual.set(index, Some(visual));
                dirty = true;
                assert(is_queued(queued@, a as int));
            }
            proof {
                if any_queued(before, queued@) {
                    let b = choose|b: int| 0 <= b < before.len() && is_queued(queued@, b);
                    assert(0 <= b < now.len() && is_queued(queued@, b));
                }
                if any_queued(now, queued@) {
                    let b = choose|b: int| 0 <= b < now.len() && is_queued(queued@, b);
                    assert(b == a || (0 <= b < before.len() && is_queued(queued@, b)));
                }
            }
            a = a + 1;
        }
        assert(uploads@.take(a as int) =~= uploads@);
        dirty
    }

    /// What a flush changes: where it failed, the deck likely went away, and all that
    /// was painted is forgotten, so that the next pass sends everything again.
    pub open spec fn is_flushed(self, worked: bool, after: Runtime) -> bool {
        if worked {
            after == self
        } else {
            after == (Runtime { last_visual: after.last_visual, ..self }) && after.all_stale()
        }
    }

    /// The queue was flushed to the deck, or that failed.
    pub fn flushed(&mut self, worked: bool)
        requires
            old(self).wf(),
        ensures
            final(self).wf(),
            old(self).is_flushed(worked, *final(self)),
    {
        if !worked {
            self.force_full_repaint();
        }
    }

    /// Where the tile of a key comes from in its current visual state.
    pub open spec fn source(self, index: int, visual: Visual) -> Source {
        if visual == Visual::Error {
            Source::ErrorTile
        } else {
            match self.keys@[index] {
                None => Source::Blank,
                Some(KeyConfig::LaunchApp { app, icon, .. }) => match text::opt(icon) {
                    Some(p) => Source::Icon(p),
                    None => Source::AppIcon(app@),
                },
                Some(KeyConfig::Macro { icon, .. }) => icon_source(text::opt(icon)),
                Some(KeyConfig::Sleep { icon }) => icon_source(text::opt(icon)),
                Some(KeyConfig::MicMute { icon_muted, icon_unmuted }) => icon_source(
                    mute_icon_of(self.state.mic_muted, icon_muted, icon_unmuted),
                ),
                Some(KeyConfig::SystemMute { icon_muted, icon_unmuted }) => icon_source(
                    mute_icon_of(self.state.system_muted, icon_muted, icon_unmuted),
                ),
                Some(KeyConfig::ObsRecordStart { icons }) => self.record_source(icons, visual),
                Some(KeyConfig::ObsRecordStop { icons }) => self.record_source(icons, visual),
                Some(KeyConfig::ObsRecordPause { icons }) => self.record_source(icons, visual),
                Some(KeyConfig::ObsRecordToggle { icons }) => self.record_source(icons, visual),
                Some(KeyConfig::ObsReplayStart { icons }) => self.replay_source(icons),
                Some(KeyConfig::ObsReplayStop { icons }) => self.replay_source(icons),
                Some(KeyConfig::ObsReplayToggle { icons }) => self.replay_source(icons),
                Some(KeyConfig::ObsReplaySave { icons }) => self.replay_source(icons),
                Some(KeyConfig::Widget { .. }) => Source::WidgetTile,
            }
        }
    }

    /// Where the tile of a recording key comes from. The icon for capturing nothing
    /// falls back to the one for being stopped.
    pub open spec fn record_source(self, icons: RecordIcons, visual: Visual) -> Source {
        if visual == Visual::NotCapturing {
            icon_source(or_else(text::opt(self.icon_not_capturing), text::opt(icons.icon_stopped)))
        } else {
            icon_source(record_icon_of(self.state.record, icons))
        }
    }

    /// Where the tile of a replay-buffer key comes from.
    pub open spec fn replay_source(self, icons: ReplayIcons) -> Source {
        icon_source(replay_icon_of(self.state.replay, icons))
    }

    /// Where the tile of a recording key comes from.
    fn record_tile(&self, icons: &RecordIcons, visual: Visual) -> (r: TileSource)
        ensures
            r@ == self.record_source(*icons, visual),
    {
        if same_visual(visual, Visual::NotCapturing) {
            opt_icon(first_of(&self.icon_not_capturing, &icons.icon_stopped))
        } else {
            opt_icon(record_icon(self.state.record, icons))
        }
    }

    /// Where the tile of a key comes from in its current visual state.
    pub fn render_tile(&self, index: usize, visual: Visual) -> (r: TileSource)
        requires
            self.wf(),
            index < KEY_COUNT,
        ensures
            r@ == self.source(index as int, visual),
    {
        if same_visual(visual, Visual::Error) {
            return TileSource::ErrorTile;
        }
        let key = match &self.keys[index] {
            Some(key) => key,
            None => return TileSource::Blank,
        };
        match key {
            KeyConfig::LaunchApp { app, icon, .. } => match icon {
                Some(p) => TileSource::Icon(p.as_str().to_string()),
                None => TileSource::AppIcon(app.as_str().to_string()),
            },
            KeyConfig::Macro { icon, .. } => opt_icon(text::copy_opt(icon)),
            KeyConfig::Sleep { icon } => opt_icon(text::copy_opt(icon)),
            KeyConfig::MicMute { icon_muted, icon_unmuted } => opt_icon(
                mute_icon(self.state.mic_muted, icon_muted, icon_unmuted),
            ),
            KeyConfig::SystemMute { icon_muted, icon_unmuted } => opt_icon(
                mute_icon(self.state.system_muted, icon_muted, icon_unmuted),
            ),
            KeyConfig::ObsRecordStart { icons } => self.record_tile(icons, visual),
            KeyConfig::ObsRecordStop { icons } => self.record_tile(icons, visual),
            KeyConfig::ObsRecordPause { icons } => self.record_tile(icons, visual),
            KeyConfig::ObsRecordToggle { icons } => self.record_tile(icons, visual),
            KeyConfig::ObsReplayStart { icons } => opt_icon(
                replay_icon(self.state.replay, icons),
            ),
            KeyConfig::ObsReplayStop { icons } => opt_icon(replay_icon(self.state.replay, icons)),
            KeyConfig::ObsReplayToggle { icons } => opt_icon(
                replay_icon(self.state.replay, icons),
            ),
            KeyConfig::ObsReplaySave { icons } => opt_icon(replay_icon(self.state.replay, icons)),
            // Widget tiles are produced and cached by the widget module.
            KeyConfig::Widget { .. } => TileSource::WidgetTile,
        }
    }
}

/// Keys with equal descriptors are drawn from the same source, so a key that is not
/// stale needs no upload.
pub proof fn equal_visuals_look_alike(a: Runtime, b: Runtime, index: int, now: u64, later: u64)
    requires
        a.keys@[index] == b.keys@[index],
        text::opt(a.icon_not_capturing) == text::opt(b.icon_not_capturing),
        a.visual(index, now) == b.visual(index, later),
    ensures
        a.source(index, a.visual(index, now)) == b.source(index, b.visual(index, later)),
{
}

/// After a repaint each stale key counts as painted exactly where its upload was
/// queued, and every other key is left alone; a key whose upload was queued is not
/// uploaded again until something changes.
pub proof fn painting_settles(
    rt: Runtime,
    uploads: Seq<(usize, Visual)>,
    queued: Seq<bool>,
    after: Runtime,
    index: int,
    now: u64,
)
    requires
        rt.wf(),
        0 <= index < KEY_COUNT,
        rt.is_repaint(now, uploads),
        after == (Runtime { last_visual: after.last_visual, ..rt }),
        after.last_visual@ == painted(rt.last_visual@, uploads, queued),
    ensures
        !rt.is_stale(index, now) ==> after.last_visual@[index] == rt.last_visual@[index]
            && !after.is_stale(index, now),
        forall|a: int|
            0 <= a < uploads.len() && (#[trigger] uploads[a]).0 == index ==> if is_queued(
                queued,
                a,
            ) {
                !after.is_stale(index, now)
            } else {
                after.last_visual@[index] == rt.last_visual@[index]
            },
{
    painted_at(rt.last_visual@, uploads, queued, index);
    assert(after.visual(index, now) == rt.visual(index, now));
    assert forall|a: int| 0 <= a < uploads.len() && !rt.is_stale(index, now) implies (
    #[trigger] uploads[a]).0 != index by {
        assert(rt.is_stale(uploads[a].0 as int, now));
    }
}

/// A flash that was started shows for its duration and no longer.
pub proof fn flash_lasts_its_time(rt: Runtime, after: Runtime, index: int, now: u64, later: u64)
    requires
        rt.wf(),
        0 <= index < KEY_COUNT,
        now + ERROR_FLASH_MS <= u64::MAX,
        now <= later,
        rt.is_flashed(index, now, after),
    ensures
        later < now + ERROR_FLASH_MS <==> after.visual(index, later) == Visual::Error,
{
}

// --- Laws of the key map ---------------------------------------------------

/// What stands on a key is the last entry that names its position: an entry more
/// takes its own key and leaves all others be.
pub proof fn the_last_entry_counts(entries: Seq<KeyEntry>, entry: KeyEntry, i: int)
    ensures
        mapped(Seq::empty(), i) is None,
        index_of(entry.coord@) == Some(i) ==> mapped(entries.push(entry), i) == Some(entry.key),
        index_of(entry.coord@) != Some(i) ==> mapped(entries.push(entry), i) == mapped(entries, i),
{
    assert(entries.push(entry).drop_last() =~= entries);
}

/// An entry stands on the key at its row and its column, counted from the top left
/// and by rows of five, unless a later one takes the key.
pub proof fn entries_stand_where_they_say(entries: Seq<KeyEntry>, k: int, row: int, col: int)
    requires
        0 <= k < entries.len(),
        1 <= row <= 3,
        1 <= col <= 5,
        entries[k].coord@ == "r"@ + text::decimal(row as nat) + "c"@ + text::decimal(col as nat),
        forall|j: int|
            k < j < entries.len() ==> index_of((#[trigger] entries[j]).coord@) != Some(
                5 * (row - 1) + col - 1,
            ),
    ensures
        mapped(entries, 5 * (row - 1) + col - 1) == Some(entries[k].key),
    decreases entries.len(),
{
    let i = 5 * (row - 1) + col - 1;
    assert(i / 5 + 1 == row && i % 5 + 1 == col);
    coord_reads_back(i);
    if k < entries.len() - 1 {
        assert(index_of(entries[entries.len() - 1].coord@) != Some(i));
        let rest = entries.drop_last();
        assert forall|j: int| k < j < rest.len() implies index_of((#[trigger] rest[j]).coord@)
            != Some(i) by {
            assert(rest[j] == entries[j]);
        }
        entries_stand_where_they_say(rest, k, row, col);
    }
}

/// The name of a position is its row and its column, counted from one.
pub proof fn positions_are_named_by_row_and_column(row: int, col: int)
    requires
        1 <= row <= 3,
        1 <= col <= 5,
    ensures
        coord_of(5 * (row - 1) + col - 1) == "r"@ + text::decimal(row as nat) + "c"@
            + text::decimal(col as nat),
        index_of(
            "r"@ + text::decimal(row as nat) + "c"@ + text::decimal(col as nat),
        ) == Some(5 * (row - 1) + col - 1),
{
    let i = 5 * (row - 1) + col - 1;
    assert(i / 5 + 1 == row && i % 5 + 1 == col);
    coord_reads_back(i);
}

/// The name of a key's action is the one that the key has in the configuration.
pub proof fn actions_have_their_names(key: KeyConfig)
    ensures
        key is LaunchApp ==> action_word(key) == "launch_app"@,
        key is Macro ==> action_word(key) == "macro"@,
        key is MicMute ==> action_word(key) == "mic_mute"@,
        key is SystemMute ==> action_word(key) == "system_mute"@,
        key is ObsRecordStart ==> action_word(key) == "obs_record_start"@,
        key is ObsRecordStop ==> action_word(key) == "obs_record_stop"@,
        key is ObsRecordPause ==> action_word(key) == "obs_record_pause"@,
        key is ObsRecordToggle ==> action_word(key) == "obs_record_toggle"@,
        key is ObsReplayStart ==> action_word(key) == "obs_replay_start"@,
        key is ObsReplayStop ==> action_word(key) == "obs_replay_stop"@,
        key is ObsReplayToggle ==> action_word(key) == "obs_replay_toggle"@,
        key is ObsReplaySave ==> action_word(key) == "obs_replay_save"@,
        key is Widget ==> action_word(key) == "widget"@,
        key is Sleep ==> action_word(key) == "sleep"@,
{
}

/// The sampler of a widget key is of the key's kind, and of its interface where it
/// is a network widget; a key of another sort has none.
pub proof fn widget_keys_have_their_sampler(key: KeyConfig, s: Option<Sampler>)
    requires
        is_sampler_of(Some(key), s),
    ensures
        s is Some <==> key is Widget,
        key is Widget ==> {
            &&& s->0 is Cpu <==> key->widget is Cpu
            &&& s->0 is Ram <==> key->widget is Ram
            &&& s->0 is Network <==> key->widget is Network
            &&& s->0 is Gpu <==> key->widget is Gpu
            &&& s->0 is Network ==> text::opt(s->0->Network_0.iface) == text::opt(
                key->Widget_interface,
            )
        },
        is_sampler_of(None, s) ==> s is None,
{
}

/// The widget of a key holds the key's sampler, is refreshed at the key's interval
/// or else every second, and has been rendered once.
pub proof fn widgets_follow_their_key(
    key: KeyConfig,
    sampler: Option<Sampler>,
    w: Option<Widget>,
    now: u64,
    load: Seq<Rgb>,
)
    requires
        is_widget_of(Some(key), sampler, w, now, load),
    ensures
        w is Some <==> key is Widget,
        key is Widget ==> {
            &&& sampler == Some(w->0.sampler)
            &&& key->refresh_secs is Some ==> w->0.interval == key->refresh_secs->0
            &&& key->refresh_secs is None ==> w->0.interval == 1
            &&& w->0.last_render == now
            &&& w->0.generation == 1
            &&& widgets::shows_graph(w->0.tile, w->0.sampler.graph(load))
        },
{
}

/// The mute state of the microphone is needed for microphone keys, that of the
/// output for output keys, and neither without.
pub proof fn mute_keys_need_their_target(keys: Seq<Option<KeyConfig>>)
    ensures
        needs(keys, Target::Source) <==> exists|i: int|
            0 <= i < keys.len() && (#[trigger] keys[i]) is Some && keys[i]->0 is MicMute,
        needs(keys, Target::Sink) <==> exists|i: int|
            0 <= i < keys.len() && (#[trigger] keys[i]) is Some && keys[i]->0 is SystemMute,
{
    if needs(keys, Target::Source) {
        let i = choose|i: int|
            0 <= i < keys.len() && match #[trigger] keys[i] {
                Some(KeyConfig::MicMute { .. }) => true,
                _ => false,
            };
        assert(keys[i] is Some && keys[i]->0 is MicMute);
    }
    if needs(keys, Target::Sink) {
        let i = choose|i: int|
            0 <= i < keys.len() && match #[trigger] keys[i] {
                Some(KeyConfig::SystemMute { .. }) => true,
                _ => false,
            };
        assert(keys[i] is Some && keys[i]->0 is SystemMute);
    }
}

// --- Laws of icons ---------------------------------------------------------

/// Each recording state has the icon named after it. So with four icons that
/// differ, any two states look different; without one for being disconnected, that
/// for being stopped stands in.
pub proof fn recording_states_look_different(
    icons: RecordIcons,
    stopped: String,
    recording: String,
    paused: String,
    disconnected: String,
    a: RecordState,
    b: RecordState,
)
    requires
        icons.icon_stopped == Some(stopped),
        icons.icon_recording == Some(recording),
        icons.icon_paused == Some(paused),
    ensures
        record_icon_of(RecordState::Stopped, icons) == Some(stopped@),
        record_icon_of(RecordState::Recording, icons) == Some(recording@),
        record_icon_of(RecordState::Paused, icons) == Some(paused@),
        icons.icon_disconnected == Some(disconnected) ==> record_icon_of(
            RecordState::Disconnected,
            icons,
        ) == Some(disconnected@),
        icons.icon_disconnected is None ==> record_icon_of(RecordState::Disconnected, icons)
            == Some(stopped@),
        icons.icon_disconnected == Some(disconnected) && a != b && stopped@ != recording@ && stopped@
            != paused@ && stopped@ != disconnected@ && recording@ != paused@ && recording@
            != disconnected@ && paused@ != disconnected@ ==> record_icon_of(a, icons)
            != record_icon_of(b, icons),
{
}

/// A state without an icon of its own has none, but for being disconnected.
pub proof fn missing_icons(records: RecordIcons, replays: ReplayIcons)
    ensures
        records.icon_stopped is None ==> record_icon_of(RecordState::Stopped, records) is None,
        records.icon_recording is None ==> record_icon_of(RecordState::Recording, records) is None,
        records.icon_paused is None ==> record_icon_of(RecordState::Paused, records) is None,
        records.icon_disconnected is None && records.icon_stopped is None ==> record_icon_of(
            RecordState::Disconnected,
            records,
        ) is None,
        replays.icon_armed is None ==> replay_icon_of(ReplayState::Armed, replays) is None,
        replays.icon_disarmed is None ==> replay_icon_of(ReplayState::Disarmed, replays) is None,
        replays.icon_disconnected is None && replays.icon_disarmed is None ==> replay_icon_of(
            ReplayState::Disconnected,
            replays,
        ) is None,
{
}

/// Each state of the replay buffer has the icon named after it, so with three that
/// differ any two states look different; without one for being disconnected, that
/// for being disarmed stands in.
pub proof fn replay_states_look_different(
    icons: ReplayIcons,
    armed: String,
    disarmed: String,
    disconnected: String,
    a: ReplayState,
    b: ReplayState,
)
    requires
        icons.icon_armed == Some(armed),
        icons.icon_disarmed == Some(disarmed),
    ensures
        replay_icon_of(ReplayState::Armed, icons) == Some(armed@),
        replay_icon_of(ReplayState::Disarmed, icons) == Some(disarmed@),
        icons.icon_disconnected == Some(disconnected) ==> replay_icon_of(
            ReplayState::Disconnected,
            icons,
        ) == Some(disconnected@),
        icons.icon_disconnected is None ==> replay_icon_of(ReplayState::Disconnected, icons)
            == Some(disarmed@),
        icons.icon_disconnected == Some(disconnected) && a != b && armed@ != disarmed@ && armed@
            != disconnected@ && disarmed@ != disconnected@ ==> replay_icon_of(a, icons)
            != replay_icon_of(b, icons),
{
}

/// A muted key shows its muted icon and an unmuted one the other; while the state
/// is not known there is none.
pub proof fn mute_states_look_different(muted: String, unmuted: String, other: Option<String>)
    ensures
        mute_icon_of(Some(true), Some(muted), other) == Some(muted@),
        mute_icon_of(Some(false), other, Some(unmuted)) == Some(unmuted@),
        mute_icon_of(None, Some(muted), Some(unmuted)) is None,
        mute_icon_of(Some(true), None, other) is None,
        mute_icon_of(Some(false), other, None) is None,
{
}

/// A recording key whose four icons differ is drawn from another source in each
/// state, where no failure flashes on it and OBS is not known to capture nothing.
pub proof fn record_keys_show_the_state(
    a: Runtime,
    b: Runtime,
    index: int,
    icons: RecordIcons,
    now: u64,
)
    requires
        a.keys@[index] == b.keys@[index],
        a.keys@[index] == Some(KeyConfig::ObsRecordStart { icons }) || a.keys@[index] == Some(
            KeyConfig::ObsRecordStop { icons },
        ) || a.keys@[index] == Some(KeyConfig::ObsRecordPause { icons }) || a.keys@[index] == Some(
            KeyConfig::ObsRecordToggle { icons },
        ),
        icons.icon_stopped is Some,
        icons.icon_recording is Some,
        icons.icon_paused is Some,
        icons.icon_disconnected is Some,
        seq![
            icons.icon_stopped->0@,
            icons.icon_recording->0@,
            icons.icon_paused->0@,
            icons.icon_disconnected->0@,
        ].no_duplicates(),
        !a.flashing(index, now),
        !b.flashing(index, now),
        a.capture_live != Some(false),
        b.capture_live != Some(false),
        a.state.record != b.state.record,
    ensures
        a.visual(index, now) != b.visual(index, now),
        a.source(index, a.visual(index, now)) != b.source(index, b.visual(index, now)),
{
    let four = seq![
        icons.icon_stopped->0@,
        icons.icon_recording->0@,
        icons.icon_paused->0@,
        icons.icon_disconnected->0@,
    ];
    assert(four[0] != four[1] && four[0] != four[2] && four[0] != four[3]);
    assert(four[1] != four[2] && four[1] != four[3] && four[2] != four[3]);
    recording_states_look_different(
        icons,
        icons.icon_stopped->0,
        icons.icon_recording->0,
        icons.icon_paused->0,
        icons.icon_disconnected->0,
        a.state.record,
        b.state.record,
    );
}

// --- Laws of presses -------------------------------------------------------

/// While OBS is connected each OBS key sends the action that it is named after,
/// with its own position; what OBS is asked first is that request, but for the
/// start of a recording and the recording toggle, which look before they act.
pub proof fn obs_keys_send_what_they_are_named_after(
    rt: Runtime,
    index: usize,
    key: KeyConfig,
    r: Result<Action, DispatchError>,
)
    requires
        rt.is_dispatch(index, r),
        rt.keys@[index as int] == Some(key),
        rt.has_obs,
        rt.obs_connected,
    ensures
        ({
            let sends = |action: ObsAction, stage: ActionStage|
                r == Ok::<Action, DispatchError>(Action::Send(ObsCommand { action, key: index }))
                    && obs::first_stage(action) == stage;
            &&& key is ObsRecordStart ==> sends(ObsAction::RecordStart, ActionStage::Guard)
            &&& key is ObsRecordStop ==> sends(
                ObsAction::RecordStop,
                ActionStage::Waiting(PlainRequest::RecordStop),
            )
            &&& key is ObsRecordPause ==> sends(
                ObsAction::RecordTogglePause,
                ActionStage::Waiting(PlainRequest::RecordTogglePause),
            )
            &&& key is ObsRecordToggle ==> sends(
                ObsAction::RecordToggle,
                ActionStage::Waiting(PlainRequest::RecordStatus),
            )
            &&& key is ObsReplayStart ==> sends(
                ObsAction::ReplayStart,
                ActionStage::Waiting(PlainRequest::ReplayStart),
            )
            &&& key is ObsReplayStop ==> sends(
                ObsAction::ReplayStop,
                ActionStage::Waiting(PlainRequest::ReplayStop),
            )
            &&& key is ObsReplayToggle ==> sends(
                ObsAction::ReplayToggle,
                ActionStage::Waiting(PlainRequest::ReplayToggle),
            )
            &&& key is ObsReplaySave ==> sends(
                ObsAction::ReplaySave,
                ActionStage::Waiting(PlainRequest::ReplaySave),
            )
        }),
{
}

/// No two sorts of OBS key send the same action.
pub proof fn obs_keys_differ(
    a: Runtime,
    b: Runtime,
    i: usize,
    j: usize,
    first: Action,
    second: Action,
)
    requires
        a.is_dispatch(i, Ok(first)),
        b.is_dispatch(j, Ok(second)),
        a.keys@[i as int] is Some,
        b.keys@[j as int] is Some,
        first is Send,
        second is Send,
        first->Send_0.action == second->Send_0.action,
    ensures
        ({
            let x = a.keys@[i as int]->0;
            let y = b.keys@[j as int]->0;
            &&& x is ObsRecordStart <==> y is ObsRecordStart
            &&& x is ObsRecordStop <==> y is ObsRecordStop
            &&& x is ObsRecordPause <==> y is ObsRecordPause
            &&& x is ObsRecordToggle <==> y is ObsRecordToggle
            &&& x is ObsReplayStart <==> y is ObsReplayStart
            &&& x is ObsReplayStop <==> y is ObsReplayStop
            &&& x is ObsReplayToggle <==> y is ObsReplayToggle
            &&& x is ObsReplaySave <==> y is ObsReplaySave
        }),
        first->Send_0.key == i,
        second->Send_0.key == j,
{
}

/// An OBS key fails at once where OBS is not configured or not connected, and says
/// which; nothing is sent then.
pub proof fn obs_keys_fail_without_obs(
    rt: Runtime,
    index: usize,
    r: Result<Action, DispatchError>,
)
    requires
        rt.is_dispatch(index, r),
        rt.keys@[index as int] is Some,
        ({
            let key = rt.keys@[index as int]->0;
            key is ObsRecordStart || key is ObsRecordStop || key is ObsRecordPause
                || key is ObsRecordToggle || key is ObsReplayStart || key is ObsReplayStop
                || key is ObsReplayToggle || key is ObsReplaySave
        }),
    ensures
        !rt.has_obs ==> r == Err::<Action, DispatchError>(DispatchError::ObsNotConfigured),
        rt.has_obs && !rt.obs_connected ==> r == Err::<Action, DispatchError>(
            DispatchError::ObsNotConnected,
        ),
        rt.has_obs && rt.obs_connected ==> r is Ok,
{
}

/// The other keys: a launch key launches its application, a mute key toggles its
/// own target, a macro key plays its steps where there is a keyboard, and widgets,
/// sleep keys and empty keys do nothing when dispatched.
pub proof fn other_keys_do_what_they_are_named_after(
    rt: Runtime,
    index: usize,
    r: Result<Action, DispatchError>,
)
    requires
        rt.is_dispatch(index, r),
    ensures
        match rt.keys@[index as int] {
            None => r == Ok::<Action, DispatchError>(Action::Nothing),
            Some(key) => {
                &&& key is MicMute ==> r == Ok::<Action, DispatchError>(
                    Action::ToggleMute(Target::Source),
                )
                &&& key is SystemMute ==> r == Ok::<Action, DispatchError>(
                    Action::ToggleMute(Target::Sink),
                )
                &&& key is Widget || key is Sleep ==> r == Ok::<Action, DispatchError>(
                    Action::Nothing,
                )
                &&& key is LaunchApp ==> {
                    &&& r is Ok && r->Ok_0 is Launch
                    &&& r->Ok_0->app@ == key->app@
                    &&& text::opt(r->Ok_0->window_class) == text::opt(key->window_class)
                }
                &&& key is Macro && !rt.has_keyboard ==> r == Err::<Action, DispatchError>(
                    DispatchError::NoKeyboard,
                )
                &&& key is Macro && rt.has_keyboard ==> {
                    &&& r is Ok && r->Ok_0 is Play
                    &&& keys::acts(r->Ok_0->Play_0.actions@) == keys::macro_acts(key->steps@)
                    &&& r->Ok_0->Play_0.error is Some <==> keys::macro_fault(key->steps@) is Some
                }
            },
        },
{
}

/// A press that cannot act flashes on its key, and one that can changes nothing of
/// what is shown.
pub proof fn failed_presses_flash(
    rt: Runtime,
    index: usize,
    now: u64,
    after: Runtime,
    asked: Result<Action, DispatchError>,
)
    requires
        rt.wf(),
        index < KEY_COUNT,
        now + 800 <= u64::MAX,
        rt.is_pressed(index, now, after, asked),
    ensures
        asked is Err ==> after.visual(index as int, now) == Visual::Error && after == (Runtime {
            error_until: after.error_until,
            ..rt
        }),
        asked is Ok ==> after == rt,
{
}

// --- Laws of the backlight -------------------------------------------------

/// A timeout has passed once as many seconds have gone by, and never where there
/// is none.
pub proof fn timeouts_pass_on_the_second(secs: u64, idle_ms: u64)
    ensures
        passed(Some(secs), idle_ms) <==> idle_ms >= 1000 * secs,
        !passed(None, idle_ms),
{
}

/// The backlight of an idle deck: blank once the idle timeout has passed, else the
/// screensaver once its own has, else dim once that has, else full.
pub proof fn idle_thresholds(rt: Runtime, now: u64)
    ensures
        ({
            let idle = if now > rt.last_input {
                now - rt.last_input
            } else {
                0
            };
            let over = |t: Option<u64>| t is Some && idle >= 1000 * t->0;
            &&& over(rt.idle_timeout) ==> rt.idle_state(now) == Display::Blanked
            &&& !over(rt.idle_timeout) && over(rt.screensaver_timeout) ==> rt.idle_state(now)
                == Display::Screensaver
            &&& !over(rt.idle_timeout) && !over(rt.screensaver_timeout) && over(rt.dim_timeout)
                ==> rt.idle_state(now) == Display::Dimmed
            &&& !over(rt.idle_timeout) && !over(rt.screensaver_timeout) && !over(rt.dim_timeout)
                ==> rt.idle_state(now) == Display::Full
        }),
{
}

/// What a turn with presses does: a deck that was put to sleep wakes for a sleep
/// key alone, a blanked one for any key, and neither runs what the key stands for;
/// a sleep key puts an awake deck to sleep; any other press brings full
/// brightness and runs.
pub proof fn presses_wake_sleep_or_run(
    rt: Runtime,
    pressed: Seq<usize>,
    now: u64,
    after: Runtime,
    plan: TurnPlan,
)
    requires
        rt.is_planned(pressed, now, after, plan),
        pressed.len() > 0,
    ensures
        ({
            let sleep = exists|i: int|
                0 <= i < pressed.len() && pressed[i] < rt.keys.len() && (
                #[trigger] rt.keys@[pressed[i] as int]) is Some && rt.keys@[pressed[i] as int]->0 is Sleep;
            let dark = rt.display == Display::Blanked;
            &&& after.last_input == now
            &&& after == (Runtime { last_input: now, slept: after.slept, ..rt })
            &&& dark && rt.slept && !sleep ==> plan.display is None && after.slept
            &&& dark && (!rt.slept || sleep) ==> plan.display == Some(Display::Full)
                && !after.slept
            &&& !dark && sleep ==> plan.display == Some(Display::Blanked) && after.slept
            &&& !dark && !sleep ==> plan.display == Some(Display::Full) && after.slept == rt.slept
            &&& plan.run@ == (if dark || sleep {
                Seq::<usize>::empty()
            } else {
                pressed
            })
        }),
{
    if exists|i: int|
        0 <= i < pressed.len() && pressed[i] < rt.keys.len() && (
        #[trigger] rt.keys@[pressed[i] as int]) is Some && rt.keys@[pressed[i] as int]->0 is Sleep {
        let i = choose|i: int|
            0 <= i < pressed.len() && pressed[i] < rt.keys.len() && (
            #[trigger] rt.keys@[pressed[i] as int]) is Some && rt.keys@[pressed[i] as int]->0 is Sleep;
        assert(rt.sleeps(pressed[i] as int));
    }
    if rt.sleep_pressed(pressed) {
        let i = choose|i: int| 0 <= i < pressed.len() && rt.sleeps(#[trigger] pressed[i] as int);
        assert(rt.keys@[pressed[i] as int] is Some);
    }
}

/// A turn without presses runs nothing; the idle timers set the backlight where it
/// has to change, but not while the deck sleeps.
pub proof fn idle_turns(rt: Runtime, now: u64, after: Runtime, plan: TurnPlan)
    requires
        rt.is_planned(Seq::empty(), now, after, plan),
    ensures
        after == rt,
        plan.run@.len() == 0,
        rt.slept ==> plan.display is None,
        !rt.slept && rt.idle_state(now) == rt.display ==> plan.display is None,
        !rt.slept && rt.idle_state(now) != rt.display ==> plan.display == Some(rt.idle_state(now)),
{
}

/// The levels of the backlight: the configured brightness while the deck is awake
/// or shows the screensaver, the configured dim one while it is dimmed, nothing
/// while it is blank. Only a deck that shows its keys is painted with them.
pub proof fn backlight_levels(rt: Runtime)
    ensures
        rt.level(Display::Full) == rt.brightness,
        rt.level(Display::Screensaver) == rt.brightness,
        rt.level(Display::Dimmed) == rt.dim_brightness,
        rt.level(Display::Blanked) == 0,
        rt.paints() == Painting::Nothing <==> rt.display == Display::Blanked,
        rt.paints() == Painting::Rain <==> rt.display == Display::Screensaver,
        rt.paints() == Painting::Keys <==> rt.display == Display::Full || rt.display
            == Display::Dimmed,
{
}

/// Leaving the blank or the screensaver paints every key again, whatever it showed
/// before; dimming and undimming leaves the keys as they are.
pub proof fn waking_paints_every_key(rt: Runtime, d: Display, after: Runtime, i: int, now: u64)
    requires
        rt.wf(),
        after.wf(),
        rt.is_shown_at(d, after),
        0 <= i < KEY_COUNT,
    ensures
        after == (Runtime { display: d, last_visual: after.last_visual, ..rt }),
        (rt.display == Display::Blanked || rt.display == Display::Screensaver) && d != rt.display
            ==> after.is_stale(i, now),
        !(rt.display == Display::Blanked || rt.display == Display::Screensaver) || d == rt.display
            ==> (after.is_stale(i, now) <==> rt.is_stale(i, now)),
{
    if (rt.display == Display::Blanked || rt.display == Display::Screensaver) && d != rt.display {
        assert(after.last_visual@[i] is None);
    }
}

/// A resume or a reconnect leaves a sleeping deck dark, and wakes any other to full
/// brightness, with every key painted again and the idle time begun anew; after a
/// reconnect no key counts as held.
pub proof fn resuming_respects_sleep(
    rt: Runtime,
    now: u64,
    after: Runtime,
    level: u8,
    i: int,
)
    requires
        rt.wf(),
        after.wf(),
        0 <= i < KEY_COUNT,
        rt.is_restored(now, after, level) || rt.is_reconnected(now, after, level),
    ensures
        rt.slept ==> level == 0 && after.display == Display::Blanked && after.slept,
        !rt.slept ==> level == rt.brightness && after.display == Display::Full && after.last_input
            == now && after.is_stale(i, now) && !after.slept,
        rt.is_reconnected(now, after, level) ==> !after.prev_state@[i],
        after == (Runtime {
            display: after.display,
            last_input: after.last_input,
            last_visual: after.last_visual,
            prev_state: after.prev_state,
            ..rt
        }),
{
    if !rt.slept {
        assert(after.last_visual@[i] is None);
    }
}

// --- Laws of failure feedback and events -----------------------------------

/// A failure shows on its key for eight tenths of a second and not longer, and on
/// no other key.
pub proof fn failures_show_for_a_moment(
    rt: Runtime,
    after: Runtime,
    index: int,
    other: int,
    now: u64,
    later: u64,
)
    requires
        rt.wf(),
        0 <= index < KEY_COUNT,
        0 <= other < KEY_COUNT,
        other != index,
        now + 800 <= u64::MAX,
        rt.is_flashed(index, now, after),
    ensures
        after.visual(index, later) == Visual::Error <==> later < now + 800,
        after.visual(other, later) == rt.visual(other, later),
        after == (Runtime { error_until: after.error_until, ..rt }),
{
}

/// Once its time is up a flash is gone, and one that still shows stays: what the
/// keys show does not change by clearing.
pub proof fn clearing_flashes_changes_nothing_seen(
    rt: Runtime,
    after: Runtime,
    i: int,
    now: u64,
    later: u64,
)
    requires
        rt.wf(),
        0 <= i < KEY_COUNT,
        rt.is_expired(now, after),
        now <= later,
    ensures
        after.visual(i, later) == rt.visual(i, later),
        !rt.flashing(i, now) ==> after.error_until@[i] is None,
        rt.flashing(i, now) ==> after.error_until@[i] == rt.error_until@[i],
        after == (Runtime { error_until: after.error_until, ..rt }),
{
}

/// What OBS tells changes what it is about and nothing else: the state of the
/// recording, that of the replay buffer, whether something is captured, or the
/// connection, with which all three are lost.
pub proof fn obs_events_change_what_they_tell(rt: Runtime, event: ObsEvent, now: u64, after: Runtime)
    requires
        rt.is_told(event, now, after),
    ensures
        event is Record ==> after.state.record == event->Record_0,
        event is Replay ==> after.state.replay == event->Replay_0,
        event is CaptureLive ==> after.capture_live == Some(event->CaptureLive_0),
        event is Connected ==> after.obs_connected,
        event is Disconnected ==> !after.obs_connected && after.capture_live is None
            && after.state.record == RecordState::Disconnected && after.state.replay
            == ReplayState::Disconnected,
        !(event is Record) && !(event is Disconnected) ==> after.state.record == rt.state.record,
        !(event is Replay) && !(event is Disconnected) ==> after.state.replay == rt.state.replay,
        !(event is CaptureLive) && !(event is Disconnected) ==> after.capture_live
            == rt.capture_live,
        !(event is Connected) && !(event is Disconnected) ==> after.obs_connected
            == rt.obs_connected,
        after.state.mic_muted == rt.state.mic_muted,
        after.state.system_muted == rt.state.system_muted,
        after == (Runtime {
            obs_connected: after.obs_connected,
            capture_live: after.capture_live,
            state: after.state,
            error_until: after.error_until,
            ..rt
        }),
{
}

/// A failed action flashes on the key that it came from.
pub proof fn failed_actions_flash_on_their_key(
    rt: Runtime,
    key: usize,
    detail: String,
    now: u64,
    after: Runtime,
)
    requires
        rt.wf(),
        key < KEY_COUNT,
        now + 800 <= u64::MAX,
        rt.is_told(ObsEvent::ActionFailed { key, detail }, now, after),
    ensures
        after.visual(key as int, now) == Visual::Error,
{
}

/// Mute state is read for the targets that a key is there for, the microphone
/// first, four times a second.
pub proof fn audio_is_read_as_needed(rt: Runtime, now: u64)
    ensures
        rt.needs_mic && rt.needs_system ==> rt.targets() == seq![Target::Source, Target::Sink],
        rt.needs_mic && !rt.needs_system ==> rt.targets() == seq![Target::Source],
        !rt.needs_mic && rt.needs_system ==> rt.targets() == seq![Target::Sink],
        !rt.needs_mic && !rt.needs_system ==> rt.targets() == Seq::<Target>::empty(),
        rt.is_audio_due(now) <==> now >= rt.last_audio_poll + 250,
{
    assert(seq![Target::Source] + seq![Target::Sink] =~= seq![Target::Source, Target::Sink]);
    assert(rt.targets() =~= rt.targets() + Seq::<Target>::empty());
}

/// A poll sets the state of its own target; one that failed sets nothing.
pub proof fn polls_set_their_target(rt: Runtime, m: bool, target: Target)
    ensures
        rt.polled(Target::Source, Some(m)).state.mic_muted == Some(m),
        rt.polled(Target::Source, Some(m)).state.system_muted == rt.state.system_muted,
        rt.polled(Target::Sink, Some(m)).state.system_muted == Some(m),
        rt.polled(Target::Sink, Some(m)).state.mic_muted == rt.state.mic_muted,
        rt.polled(target, None) == rt,
        rt.polled(target, Some(m)) == (Runtime {
            state: rt.polled(target, Some(m)).state,
            ..rt
        }),
        rt.polled(target, Some(m)).state.record == rt.state.record,
        rt.polled(target, Some(m)).state.replay == rt.state.replay,
{
}

// --- Laws of painting ------------------------------------------------------

/// What a key shows follows the state that it is about: a mute key that of its own
/// target, a recording or replay key that of OBS, a widget its latest rendering;
/// the others never change.
pub proof fn visuals_follow_the_state(rt: Runtime, index: int, now: u64, key: KeyConfig)
    requires
        rt.keys@[index] == Some(key),
        !rt.flashing(index, now),
    ensures
        key is MicMute ==> rt.visual(index, now) == Visual::Mute(rt.state.mic_muted),
        key is SystemMute ==> rt.visual(index, now) == Visual::Mute(rt.state.system_muted),
        key is LaunchApp || key is Macro || key is Sleep ==> rt.visual(index, now)
            == Visual::Static,
        key is ObsReplayStart || key is ObsReplayStop || key is ObsReplayToggle
            || key is ObsReplaySave ==> rt.visual(index, now) == Visual::Replay(rt.state.replay),
        key is ObsRecordStart || key is ObsRecordStop || key is ObsRecordPause
            || key is ObsRecordToggle ==> rt.visual(index, now) == (if rt.state.record
            == RecordState::Stopped && rt.show_capture_status && rt.capture_live == Some(false) {
            Visual::NotCapturing
        } else {
            Visual::Record(rt.state.record)
        }),
        key is Widget && rt.widgets@[index] is Some ==> rt.visual(index, now) == Visual::Widget(
            rt.widgets@[index]->0.generation,
        ),
{
}

/// A failure covers whatever the key shows otherwise.
pub proof fn failures_cover_the_key(rt: Runtime, index: int, now: u64, until: u64)
    requires
        rt.error_until@[index] == Some(until),
    ensures
        now < until ==> rt.visual(index, now) == Visual::Error,
        rt.source(index, Visual::Error) == Source::ErrorTile,
{
}

/// The icon that a key is drawn from: its own where it is given, the application's
/// on a launch key without one, that of the state on a key that has one for each,
/// the widget's own tile, and black where there is none.
pub proof fn keys_are_drawn_from_their_icons(
    rt: Runtime,
    index: int,
    key: KeyConfig,
    visual: Visual,
    path: String,
)
    requires
        rt.keys@[index] == Some(key),
        visual != Visual::Error,
    ensures
        key is LaunchApp && key->LaunchApp_icon == Some(path) ==> rt.source(index, visual)
            == Source::Icon(path@),
        key is LaunchApp && key->LaunchApp_icon is None ==> rt.source(index, visual)
            == Source::AppIcon(key->app@),
        key is Macro && key->Macro_icon == Some(path) ==> rt.source(index, visual) == Source::Icon(
            path@,
        ),
        key is Macro && key->Macro_icon is None ==> rt.source(index, visual) == Source::Blank,
        key is Sleep && key->Sleep_icon == Some(path) ==> rt.source(index, visual) == Source::Icon(
            path@,
        ),
        key is Sleep && key->Sleep_icon is None ==> rt.source(index, visual) == Source::Blank,
        key is Widget ==> rt.source(index, visual) == Source::WidgetTile,
        key is MicMute && rt.state.mic_muted == Some(true) && key->MicMute_icon_muted == Some(path)
            ==> rt.source(index, visual) == Source::Icon(path@),
        key is MicMute && rt.state.mic_muted == Some(false) && key->MicMute_icon_unmuted == Some(
            path,
        ) ==> rt.source(index, visual) == Source::Icon(path@),
        key is MicMute && rt.state.mic_muted is None ==> rt.source(index, visual) == Source::Blank,
        key is SystemMute && rt.state.system_muted == Some(true) && key->SystemMute_icon_muted
            == Some(path) ==> rt.source(index, visual) == Source::Icon(path@),
        key is SystemMute && rt.state.system_muted == Some(false) && key->SystemMute_icon_unmuted
            == Some(path) ==> rt.source(index, visual) == Source::Icon(path@),
        key is SystemMute && rt.state.system_muted is None ==> rt.source(index, visual)
            == Source::Blank,
{
}

/// The icon of a recording or replay key is that of the state; while OBS captures
/// nothing, a recording key has the icon for that, or else that for being stopped.
pub proof fn obs_keys_are_drawn_from_their_state(
    rt: Runtime,
    index: int,
    icons: RecordIcons,
    replays: ReplayIcons,
    visual: Visual,
)
    requires
        visual != Visual::Error,
    ensures
        ({
            let record = rt.keys@[index] == Some(KeyConfig::ObsRecordStart { icons })
                || rt.keys@[index] == Some(KeyConfig::ObsRecordStop { icons }) || rt.keys@[index]
                == Some(KeyConfig::ObsRecordPause { icons }) || rt.keys@[index] == Some(
                KeyConfig::ObsRecordToggle { icons },
            );
            let replay = rt.keys@[index] == Some(KeyConfig::ObsReplayStart { icons: replays })
                || rt.keys@[index] == Some(KeyConfig::ObsReplayStop { icons: replays })
                || rt.keys@[index] == Some(KeyConfig::ObsReplayToggle { icons: replays })
                || rt.keys@[index] == Some(KeyConfig::ObsReplaySave { icons: replays });
            let drawn = |icon: Option<Seq<char>>|
                rt.source(index, visual) == (match icon {
                    Some(p) => Source::Icon(p),
                    None => Source::Blank,
                });
            &&& record && visual != Visual::NotCapturing ==> drawn(
                record_icon_of(rt.state.record, icons),
            )
            &&& record && visual == Visual::NotCapturing && rt.icon_not_capturing is Some ==> drawn(
                Some(rt.icon_not_capturing->0@),
            )
            &&& record && visual == Visual::NotCapturing && rt.icon_not_capturing is None ==> drawn(
                record_icon_of(RecordState::Stopped, icons),
            )
            &&& replay ==> drawn(replay_icon_of(rt.state.replay, replays))
        }),
{
}

/// The source of a tile is the one it is named after.
pub proof fn sources_are_what_they_say(path: String)
    ensures
        TileSource::ErrorTile@ == Source::ErrorTile,
        TileSource::Blank@ == Source::Blank,
        TileSource::Icon(path)@ == Source::Icon(path@),
        TileSource::AppIcon(path)@ == Source::AppIcon(path@),
        TileSource::WidgetTile@ == Source::WidgetTile,
{
}

/// A key is uploaded again exactly where what it is to show differs from what was
/// painted last, with what it is to show.
pub proof fn repaints_are_what_changed(
    rt: Runtime,
    now: u64,
    uploads: Seq<(usize, Visual)>,
    i: usize,
)
    requires
        rt.is_repaint(now, uploads),
        i < KEY_COUNT,
    ensures
        rt.last_visual@[i as int] == Some(rt.visual(i as int, now)) ==> forall|a: int|
            0 <= a < uploads.len() ==> (#[trigger] uploads[a]).0 != i,
        rt.last_visual@[i as int] != Some(rt.visual(i as int, now)) ==> exists|a: int|
            0 <= a < uploads.len() && #[trigger] uploads[a] == (i, rt.visual(i as int, now)),
{
    if rt.last_visual@[i as int] != Some(rt.visual(i as int, now)) {
        assert(rt.is_stale(i as int, now));
        let want = (i, rt.visual(i as int, now));
        assert(uploads.contains(want));
        let a = choose|a: int| 0 <= a < uploads.len() && uploads[a] == want;
        assert(uploads[a] == want);
    }
}

/// The queue is flushed where an upload was queued; after a flush that failed every
/// key is painted again, and after one that worked none is for its sake.
pub proof fn flushing(
    rt: Runtime,
    worked: bool,
    after: Runtime,
    uploads: Seq<(usize, Visual)>,
    queued: Seq<bool>,
    i: int,
    now: u64,
)
    requires
        rt.wf(),
        after.wf(),
        rt.is_flushed(worked, after),
        0 <= i < KEY_COUNT,
        uploads.len() == queued.len(),
    ensures
        worked ==> after == rt,
        !worked ==> after.is_stale(i, now) && after == (Runtime {
            last_visual: after.last_visual,
            ..rt
        }),
        any_queued(uploads, queued) <==> queued.contains(true),
{
    if !worked {
        assert(after.last_visual@[i] is None);
    }
    if queued.contains(true) {
        let a = choose|a: int| 0 <= a < queued.len() && queued[a] == true;
        assert(is_queued(queued, a));
    }
    if any_queued(uploads, queued) {
        let a = choose|a: int| 0 <= a < uploads.len() && #[trigger] is_queued(queued, a);
        assert(queued[a] == true);
    }
}

} // verus!
