use sd_rust::audio::Target;
use sd_rust::config::{
    Config, KeyConfig, KeyCoord, KeyEntry, MacroStep, ObsConfig, RecordIcons, ReplayIcons,
    Screensaver, WidgetKind,
};
use sd_rust::obs::{ObsAction, ObsEvent};
use sd_rust::render::{blank_tile, default_error_icon, inset, Rgb, Tile};
use sd_rust::runtime::{
    action_name, build_key_map, index_to_coord, mute_icon, record_icon, replay_icon, run, samplers, Action,
    DispatchError, Display, Painting, Runtime, TileSource, Visual,
};
use sd_rust::state::{RecordState, ReplayState};
use sd_rust::widgets::Sampler;

fn s(t: &str) -> Option<String> {
    Some(t.to_string())
}

fn entry(coord: &str, key: KeyConfig) -> KeyEntry {
    KeyEntry { coord: coord.to_string(), key }
}

fn record_icons() -> RecordIcons {
    RecordIcons {
        icon_stopped: s("stopped"),
        icon_recording: s("recording"),
        icon_paused: s("paused"),
        icon_disconnected: None,
    }
}

fn replay_icons() -> ReplayIcons {
    ReplayIcons { icon_armed: s("armed"), icon_disarmed: s("disarmed"), icon_disconnected: None }
}

fn config() -> Config {
    let steps = vec![MacroStep::Text { text: "a".to_string() }];
    Config {
        idle_timeout_secs: 300,
        brightness: 80,
        dim_timeout_secs: 60,
        dim_brightness: 30,
        screensaver: Screensaver::Matrix,
        screensaver_timeout_secs: 120,
        error_icon: None,
        obs: Some(ObsConfig {
            host: "localhost".to_string(),
            port: 4455,
            password: None,
            show_capture_status: true,
            icon_not_capturing: s("blind"),
        }),
        key: vec![
            entry("r1c1", KeyConfig::LaunchApp {
                app: "firefox".to_string(),
                icon: None,
                window_class: s("ff"),
            }),
            entry("r1c2", KeyConfig::Macro { steps, icon: s("macro") }),
            entry("r1c3", KeyConfig::MicMute { icon_muted: s("off"), icon_unmuted: s("on") }),
            entry("r1c4", KeyConfig::ObsRecordToggle { icons: record_icons() }),
            entry("r1c5", KeyConfig::ObsReplaySave { icons: replay_icons() }),
            entry("r2c1", KeyConfig::Widget {
                widget: WidgetKind::Cpu,
                refresh_secs: None,
                interface: None,
            }),
            entry("r3c5", KeyConfig::Sleep { icon: s("sleep") }),
        ],
    }
}

/// Start with samplers that have taken a sample of 40 pixels.
fn begin(config: Config, now: u64, has_keyboard: bool, error_tile: Tile) -> Runtime {
    let mut samplers = samplers(&config.key);
    for s in samplers.iter_mut().flatten() {
        match s {
            Sampler::Cpu(c) => c.history.push(40),
            other => panic!("{other:?}"),
        }
    }
    run(config, now, has_keyboard, error_tile, samplers, &vec![LOAD; 72])
}

const LOAD: Rgb = Rgb { r: 9, g: 200, b: 7 };

#[test]
fn widgets_are_rendered_before_the_first_paint() {
    let only_cpu = samplers(&config().key);
    assert_eq!(only_cpu.iter().filter(|s| s.is_some()).count(), 1);
    assert!(matches!(&only_cpu[5], Some(Sampler::Cpu(c)) if c.history.samples.is_empty()));
    let rt = start();
    let w = rt.widgets[5].as_ref().unwrap();
    assert_eq!((w.generation(), w.last_render, w.interval), (1, 1_000, 1));
    assert_eq!(w.tile().pixels, inset(&w.sampler.draw(&vec![LOAD; 72]), 6).pixels);
    // The sample stands out on the graph.
    let fresh = only_cpu[5].as_ref().unwrap();
    assert_ne!(w.tile().pixels, inset(&fresh.draw(&vec![LOAD; 72]), 6).pixels);
}

fn start() -> Runtime {
    begin(config(), 1_000, true, default_error_icon())
}

/// Set a backlight state as the device layer does.
fn set(rt: &mut Runtime, d: Display) -> Option<u8> {
    let level = rt.brightness_for(d);
    if level.is_some() {
        rt.display_set(d);
    }
    level
}

fn paint_all(rt: &mut Runtime, now: u64) -> Vec<usize> {
    let stale = rt.repaint(now);
    let queued = vec![true; stale.len()];
    assert_eq!(rt.uploaded(&stale, &queued), !stale.is_empty());
    rt.flushed(true);
    stale.iter().map(|(i, _)| *i).collect()
}

#[test]
fn starts_with_nothing_painted() {
    let mut rt = start();
    assert_eq!(rt.display, Display::Full);
    assert!(rt.needs_mic);
    assert!(!rt.needs_system);
    assert!(rt.has_obs && !rt.obs_connected);
    assert!(rt.widgets[5].is_some());
    assert_eq!(rt.widgets.iter().filter(|w| w.is_some()).count(), 1);
    assert_eq!(paint_all(&mut rt, 1_000), (0..15).collect::<Vec<usize>>());
    assert!(paint_all(&mut rt, 1_000).is_empty());
}

#[test]
fn the_last_entry_of_a_key_wins() {
    let icon = |n: &str| KeyConfig::Sleep { icon: s(n) };
    let map = build_key_map(vec![
        entry("r01c1", icon("first")),
        entry("bogus", icon("none")),
        entry("r1c1", icon("last")),
        entry("r3c5", icon("corner")),
    ]);
    assert_eq!(map.len(), 15);
    assert!(matches!(&map[0], Some(KeyConfig::Sleep { icon }) if icon.as_deref() == Some("last")));
    assert!(matches!(&map[14], Some(KeyConfig::Sleep { icon }) if icon.as_deref() == Some("corner")));
    assert_eq!(map.iter().filter(|k| k.is_some()).count(), 2);
}

#[test]
fn coordinates_read_back() {
    assert_eq!(index_to_coord(0), "r1c1");
    assert_eq!(index_to_coord(14), "r3c5");
    assert_eq!(index_to_coord(50), "r11c1");
    for i in 0..15 {
        assert_eq!(KeyCoord::parse(&index_to_coord(i)).unwrap().index(), i);
    }
}

#[test]
fn idling_dims_then_rains_then_blanks() {
    let mut rt = start();
    for (now, display, level) in [
        (60_999, None, None),
        (61_000, Some(Display::Dimmed), Some(30)),
        (121_000, Some(Display::Screensaver), Some(80)),
        (301_000, Some(Display::Blanked), Some(0)),
    ] {
        let plan = rt.on_presses(Vec::new(), now);
        assert_eq!(plan.display, display, "{now}");
        assert!(plan.run.is_empty());
        if let Some(d) = plan.display {
            assert_eq!(set(&mut rt, d), level);
        }
    }
    assert_eq!(rt.painting(), Painting::Nothing);
    assert_eq!(rt.idle_display(400_000), Display::Blanked);
}

#[test]
fn a_failed_brightness_is_tried_again() {
    let mut rt = start();
    let plan = rt.on_presses(Vec::new(), 61_000);
    assert_eq!(plan.display, Some(Display::Dimmed));
    // The device refused: the state was not set.
    let plan = rt.on_presses(Vec::new(), 61_100);
    assert_eq!(plan.display, Some(Display::Dimmed));
}

#[test]
fn the_waking_press_is_consumed() {
    let mut rt = start();
    paint_all(&mut rt, 1_000);
    set(&mut rt, Display::Blanked);
    let plan = rt.on_presses(vec![0, 14], 500_000);
    assert_eq!(plan.display, Some(Display::Full));
    assert!(plan.run.is_empty());
    assert!(!rt.slept);
    assert_eq!(set(&mut rt, Display::Full), Some(80));
    assert_eq!(paint_all(&mut rt, 500_000).len(), 15);
    assert_eq!(rt.last_input, 500_000);
}

#[test]
fn presses_act_while_dimmed_or_raining() {
    let mut rt = start();
    paint_all(&mut rt, 1_000);
    set(&mut rt, Display::Dimmed);
    let plan = rt.on_presses(vec![0, 1], 70_000);
    assert_eq!(plan.display, Some(Display::Full));
    assert_eq!(plan.run, vec![0, 1]);
    set(&mut rt, Display::Full);
    assert!(paint_all(&mut rt, 70_000).is_empty());
    set(&mut rt, Display::Screensaver);
    assert_eq!(rt.painting(), Painting::Rain);
    let plan = rt.on_presses(vec![2], 80_000);
    assert_eq!(plan.run, vec![2]);
    set(&mut rt, Display::Full);
    assert_eq!(rt.painting(), Painting::Keys);
    assert_eq!(paint_all(&mut rt, 80_000).len(), 15);
}

#[test]
fn sleep_stays_off_until_its_key_is_pressed() {
    let mut rt = start();
    let plan = rt.on_presses(vec![0, 14], 2_000);
    assert_eq!(plan.display, Some(Display::Blanked));
    assert!(plan.run.is_empty());
    assert!(rt.slept);
    set(&mut rt, Display::Blanked);
    assert_eq!(rt.on_presses(Vec::new(), 2_100).display, None);
    // A resume or reconnect keeps it off.
    assert_eq!(rt.restore_display(3_000), 0);
    assert_eq!(rt.on_reconnect(3_000), 0);
    assert_eq!(rt.display, Display::Blanked);
    // Other presses are ignored.
    let plan = rt.on_presses(vec![3], 4_000);
    assert_eq!(plan.display, None);
    assert!(plan.run.is_empty());
    assert!(rt.slept);
    // The Sleep key wakes the deck, and nothing else runs with it.
    let plan = rt.on_presses(vec![0, 14], 5_000);
    assert_eq!(plan.display, Some(Display::Full));
    assert!(plan.run.is_empty());
    assert!(!rt.slept);
}

#[test]
fn resumes_and_reconnects_repaint() {
    let mut rt = start();
    paint_all(&mut rt, 1_000);
    set(&mut rt, Display::Dimmed);
    rt.prev_state[4] = true;
    assert_eq!(rt.on_reconnect(90_000), 80);
    assert_eq!(rt.display, Display::Full);
    assert_eq!(rt.last_input, 90_000);
    assert!(rt.prev_state.iter().all(|d| !d));
    assert_eq!(paint_all(&mut rt, 90_000).len(), 15);
}

#[test]
fn failures_flash_and_expire() {
    let mut rt = start();
    paint_all(&mut rt, 1_000);
    rt.flash_error(3, 2_000);
    rt.flash_error(99, 2_000);
    assert_eq!(rt.visual_for(3, 2_799), Visual::Error);
    assert!(matches!(rt.render_tile(3, Visual::Error), TileSource::ErrorTile));
    assert_eq!(paint_all(&mut rt, 2_100), vec![3]);
    rt.expire_flashes(2_799);
    assert!(rt.error_until[3].is_some());
    rt.expire_flashes(2_800);
    assert!(rt.error_until[3].is_none());
    assert_eq!(paint_all(&mut rt, 2_800), vec![3]);
}

#[test]
fn obs_events_change_what_keys_show() {
    let mut rt = start();
    let icon = |rt: &Runtime| match rt.render_tile(3, rt.visual_for(3, 0)) {
        TileSource::Icon(p) => p,
        other => panic!("{other:?}"),
    };
    assert_eq!(rt.visual_for(3, 0), Visual::Record(RecordState::Disconnected));
    assert_eq!(icon(&rt), "stopped");
    rt.on_obs_event(ObsEvent::Connected, 0);
    assert!(rt.obs_connected);
    rt.on_obs_event(ObsEvent::Record(RecordState::Stopped), 0);
    rt.on_obs_event(ObsEvent::CaptureLive(false), 0);
    assert_eq!(rt.visual_for(3, 0), Visual::NotCapturing);
    assert_eq!(icon(&rt), "blind");
    rt.on_obs_event(ObsEvent::Record(RecordState::Recording), 0);
    assert_eq!(icon(&rt), "recording");
    rt.on_obs_event(ObsEvent::Record(RecordState::Paused), 0);
    assert_eq!(icon(&rt), "paused");
    rt.on_obs_event(ObsEvent::Replay(ReplayState::Armed), 0);
    assert_eq!(rt.visual_for(4, 0), Visual::Replay(ReplayState::Armed));
    rt.on_obs_event(ObsEvent::Disconnected, 0);
    assert!(!rt.obs_connected);
    assert_eq!(rt.capture_live, None);
    assert_eq!(rt.visual_for(3, 0), Visual::Record(RecordState::Disconnected));
    assert_eq!(rt.visual_for(4, 0), Visual::Replay(ReplayState::Disconnected));
    rt.on_obs_event(ObsEvent::ActionFailed { key: 4, detail: "off".to_string() }, 10);
    assert_eq!(rt.visual_for(4, 11), Visual::Error);
}

#[test]
fn presses_are_dispatched() {
    let mut rt = start();
    match rt.on_press(0, 0) {
        Ok(Action::Launch { app, window_class }) => {
            assert_eq!(app, "firefox");
            assert_eq!(window_class.as_deref(), Some("ff"));
        }
        other => panic!("{other:?}"),
    }
    match rt.on_press(1, 0) {
        Ok(Action::Play(p)) => assert_eq!(p.actions.len(), 5),
        other => panic!("{other:?}"),
    }
    assert!(matches!(rt.on_press(2, 0), Ok(Action::ToggleMute(Target::Source))));
    assert!(matches!(rt.on_press(5, 0), Ok(Action::Nothing)));
    assert!(matches!(rt.on_press(6, 0), Ok(Action::Nothing)));
    assert!(rt.error_until.iter().all(|e| e.is_none()));
    assert!(matches!(rt.on_press(3, 0), Err(DispatchError::ObsNotConnected)));
    assert_eq!(rt.error_until[3], Some(800));
    rt.on_obs_event(ObsEvent::Connected, 0);
    match rt.on_press(3, 0) {
        Ok(Action::Send(c)) => {
            assert_eq!(c.action, ObsAction::RecordToggle);
            assert_eq!(c.key, 3);
        }
        other => panic!("{other:?}"),
    }
    let bare = Config { obs: None, ..config() };
    let mut rt = begin(bare, 0, false, blank_tile());
    assert!(matches!(rt.on_press(1, 0), Err(DispatchError::NoKeyboard)));
    assert!(matches!(rt.on_press(4, 0), Err(DispatchError::ObsNotConfigured)));
}

#[test]
fn audio_is_polled_and_shown() {
    let mut rt = start();
    assert!(!rt.audio_due(1_249));
    assert!(rt.audio_due(1_250));
    assert_eq!(rt.refresh_audio(1_250), vec![Target::Source]);
    assert!(!rt.audio_due(1_300));
    assert_eq!(rt.visual_for(2, 0), Visual::Mute(None));
    assert!(matches!(rt.render_tile(2, Visual::Mute(None)), TileSource::Blank));
    rt.audio_polled(Target::Source, Some(true));
    rt.audio_polled(Target::Source, None);
    assert_eq!(rt.visual_for(2, 0), Visual::Mute(Some(true)));
    let popup = rt.mute_toggled(Target::Source, Some(false)).unwrap();
    assert_eq!(popup.text, "Microphone: Unmuted");
    assert!(matches!(rt.render_tile(2, Visual::Mute(Some(false))), TileSource::Icon(p) if p == "on"));
    assert!(rt.mute_toggled(Target::Sink, None).is_none());
    let popup = rt.mute_toggled(Target::Sink, Some(true)).unwrap();
    assert_eq!(popup.text, "Output: Muted");
    assert_eq!(rt.state.system_muted, Some(true));
}

#[test]
fn tiles_come_from_their_sources() {
    let rt = start();
    let source = |i: usize| rt.render_tile(i, rt.visual_for(i, 0));
    assert!(matches!(source(0), TileSource::AppIcon(a) if a == "firefox"));
    assert!(matches!(source(1), TileSource::Icon(p) if p == "macro"));
    assert!(matches!(source(5), TileSource::WidgetTile));
    assert!(matches!(source(6), TileSource::Blank));
    assert!(matches!(source(14), TileSource::Icon(p) if p == "sleep"));
    assert_eq!(rt.visual_for(5, 0), Visual::Widget(1));
}

#[test]
fn icons_follow_state() {
    assert_eq!(mute_icon(Some(true), &s("m"), &s("u")), s("m"));
    assert_eq!(mute_icon(Some(false), &s("m"), &s("u")), s("u"));
    assert_eq!(mute_icon(None, &s("m"), &s("u")), None);
    let mut icons = record_icons();
    assert_eq!(record_icon(RecordState::Disconnected, &icons), s("stopped"));
    icons.icon_disconnected = s("gone");
    assert_eq!(record_icon(RecordState::Disconnected, &icons), s("gone"));
    let mut icons = replay_icons();
    assert_eq!(replay_icon(ReplayState::Disconnected, &icons), s("disarmed"));
    assert_eq!(replay_icon(ReplayState::Armed, &icons), s("armed"));
    icons.icon_disconnected = s("gone");
    assert_eq!(replay_icon(ReplayState::Disconnected, &icons), s("gone"));
}

#[test]
fn action_names() {
    let names: Vec<&str> = config().key.iter().map(|e| action_name(&e.key)).collect();
    assert_eq!(
        names,
        vec!["launch_app", "macro", "mic_mute", "obs_record_toggle", "obs_replay_save", "widget", "sleep"]
    );
}

#[test]
fn only_queued_uploads_count_as_painted() {
    let mut rt = start();
    let stale = rt.repaint(1_000);
    assert_eq!(stale.len(), 15);
    // Nothing was queued: nothing to flush, and everything is still stale.
    assert!(!rt.uploaded(&stale, &vec![false; 15]));
    assert_eq!(rt.repaint(1_000).len(), 15);
    // The first and the last were queued; what is not told of was not.
    let mut queued = vec![false; 15];
    queued[0] = true;
    queued[14] = true;
    assert!(rt.uploaded(&stale, &queued));
    assert_eq!(rt.repaint(1_000).len(), 13);
    assert!(!rt.uploaded(&stale, &Vec::new()));
    // A flush that worked changes nothing, one that failed forgets what was painted.
    rt.flushed(true);
    assert_eq!(rt.repaint(1_000).len(), 13);
    rt.flushed(false);
    assert_eq!(rt.repaint(1_000).len(), 15);
}
