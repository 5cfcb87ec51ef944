use sd_rust::audio::Target;
use sd_rust::config::{Config, KeyConfig, KeyEntry, Screensaver};
use sd_rust::main_loop::{LoopAction, LoopEvent, Phase, Turn};
use sd_rust::obs::ObsEvent;
use sd_rust::render::{default_error_icon, Rgb};
use sd_rust::runtime::{run, samplers, Action, DispatchError, Display, Painting, Runtime, Visual};
use sd_rust::state::RecordState;

const BLACK: Rgb = Rgb { r: 0, g: 0, b: 0 };

fn entry(coord: &str, key: KeyConfig) -> KeyEntry {
    KeyEntry { coord: coord.to_string(), key }
}

/// A mic key, an app key, a macro key and a sleep key on the first row.
fn start(has_keyboard: bool) -> Runtime {
    let config = Config {
        idle_timeout_secs: 300,
        brightness: 80,
        dim_timeout_secs: 60,
        dim_brightness: 30,
        screensaver: Screensaver::Matrix,
        screensaver_timeout_secs: 120,
        error_icon: None,
        obs: None,
        key: vec![
            entry("r1c1", KeyConfig::MicMute { icon_muted: None, icon_unmuted: None }),
            entry("r1c2", KeyConfig::LaunchApp {
                app: "firefox".to_string(),
                icon: None,
                window_class: None,
            }),
            entry("r1c3", KeyConfig::Macro { steps: Vec::new(), icon: None }),
            entry("r1c4", KeyConfig::Sleep { icon: None }),
        ],
    };
    let samplers = samplers(&config.key);
    run(config, 0, has_keyboard, default_error_icon(), samplers, &vec![BLACK; 72])
}

/// What ends a turn that paints the keys, where the deck takes the images.
fn paint(turn: &mut Turn, rt: &mut Runtime, now: u64) {
    match turn.step(rt, LoopEvent::Told(Vec::new()), now) {
        LoopAction::Paint(Painting::Keys) => {}
        other => panic!("{other:?}"),
    }
    let n = match turn.step(rt, LoopEvent::Sampled, now) {
        LoopAction::Upload(uploads) => uploads.len(),
        other => panic!("{other:?}"),
    };
    let mut next = turn.step(rt, LoopEvent::Uploaded(vec![true; n]), now);
    if n > 0 {
        assert!(matches!(next, LoopAction::Flush));
        next = turn.step(rt, LoopEvent::Flushed(true), now);
    }
    assert!(matches!(next, LoopAction::CheckResume));
}

fn down(keys: &[usize]) -> LoopEvent {
    let mut states = vec![false; 15];
    for k in keys {
        states[*k] = true;
    }
    LoopEvent::Keys(Some(states))
}

/// Step over what begins each turn, up to the keys.
fn to_keys(turn: &mut Turn, rt: &mut Runtime, now: u64) {
    assert_eq!(turn.phase, Phase::Resume);
    assert!(matches!(turn.step(rt, LoopEvent::Resumed(false), now), LoopAction::ReadKeys));
}

#[test]
fn quiet_turn_goes_round() {
    let (mut turn, mut rt) = (Turn::new(), start(true));
    to_keys(&mut turn, &mut rt, 100);
    assert!(matches!(
        turn.step(&mut rt, LoopEvent::Keys(None), 100),
        LoopAction::DrainObs
    ));
    paint(&mut turn, &mut rt, 100);
    assert!(rt.repaint(100).is_empty());
}

#[test]
fn presses_run_in_order_and_failures_flash() {
    let (mut turn, mut rt) = (Turn::new(), start(false));
    to_keys(&mut turn, &mut rt, 100);
    match turn.step(&mut rt, down(&[1, 2]), 100) {
        LoopAction::Perform { key: 1, asked: Ok(Action::Launch { app, window_class: None }) } => {
            assert_eq!(app, "firefox")
        }
        other => panic!("{other:?}"),
    }
    // The launch fails: its key flashes, and the other key still gets its turn.
    match turn.step(&mut rt, LoopEvent::Performed { failed: true }, 100) {
        LoopAction::Perform { key: 2, asked: Err(DispatchError::NoKeyboard) } => {}
        other => panic!("{other:?}"),
    }
    assert_eq!(rt.visual_for(1, 899), Visual::Error);
    assert_eq!(rt.visual_for(1, 900), Visual::Static);
    assert_eq!(rt.visual_for(2, 899), Visual::Error);
    assert!(matches!(
        turn.step(&mut rt, LoopEvent::Performed { failed: false }, 100),
        LoopAction::DrainObs
    ));
    // A key that is held does not act again.
    paint(&mut turn, &mut rt, 100);
    to_keys(&mut turn, &mut rt, 200);
    assert!(matches!(turn.step(&mut rt, down(&[1, 2]), 200), LoopAction::DrainObs));
}

#[test]
fn sleeping_deck_wakes_by_its_key_without_acting() {
    let (mut turn, mut rt) = (Turn::new(), start(true));
    to_keys(&mut turn, &mut rt, 100);
    match turn.step(&mut rt, down(&[1, 3]), 100) {
        LoopAction::Backlight { display: Display::Blanked, level: 0 } => {}
        other => panic!("{other:?}"),
    }
    turn.step(&mut rt, LoopEvent::BacklightSet(true), 100);
    assert_eq!(rt.display, Display::Blanked);
    assert!(rt.slept);
    assert!(matches!(
        turn.step(&mut rt, LoopEvent::Told(Vec::new()), 100),
        LoopAction::Paint(Painting::Nothing)
    ));
    turn.step(&mut rt, LoopEvent::Painted, 100);

    // The keys are let go, then another key is pressed: it is ignored.
    to_keys(&mut turn, &mut rt, 200);
    turn.step(&mut rt, down(&[]), 200);
    turn.step(&mut rt, LoopEvent::Told(Vec::new()), 200);
    turn.step(&mut rt, LoopEvent::Painted, 200);
    to_keys(&mut turn, &mut rt, 205);
    assert!(matches!(turn.step(&mut rt, down(&[1]), 205), LoopAction::DrainObs));
    assert!(rt.slept);
    assert_eq!(rt.display, Display::Blanked);
    turn.step(&mut rt, LoopEvent::Told(Vec::new()), 205);
    turn.step(&mut rt, LoopEvent::Painted, 205);
    // The Sleep key wakes it.
    to_keys(&mut turn, &mut rt, 210);
    match turn.step(&mut rt, down(&[1, 3]), 210) {
        LoopAction::Backlight { display: Display::Full, level: 80 } => {}
        other => panic!("{other:?}"),
    }
    assert!(!rt.slept);
    assert!(matches!(
        turn.step(&mut rt, LoopEvent::BacklightSet(true), 210),
        LoopAction::DrainObs
    ));
    assert_eq!(rt.display, Display::Full);
}

#[test]
fn idle_blank_wakes_on_any_key_without_acting() {
    let (mut turn, mut rt) = (Turn::new(), start(true));
    rt.display_set(Display::Blanked);
    to_keys(&mut turn, &mut rt, 100);
    match turn.step(&mut rt, down(&[1]), 100) {
        LoopAction::Backlight { display: Display::Full, level: 80 } => {}
        other => panic!("{other:?}"),
    }
    assert!(matches!(
        turn.step(&mut rt, LoopEvent::BacklightSet(true), 100),
        LoopAction::DrainObs
    ));
}

#[test]
fn refused_backlight_is_tried_again() {
    let (mut turn, mut rt) = (Turn::new(), start(true));
    for now in [60_000, 60_100] {
        rt.last_audio_poll = now;
        to_keys(&mut turn, &mut rt, now);
        match turn.step(&mut rt, LoopEvent::Keys(None), now) {
            LoopAction::Backlight { display: Display::Dimmed, level: 30 } => {}
            other => panic!("{other:?}"),
        }
        turn.step(&mut rt, LoopEvent::BacklightSet(false), now);
        assert_eq!(rt.display, Display::Full);
        paint(&mut turn, &mut rt, now);
    }
}

#[test]
fn due_mute_state_is_polled() {
    let (mut turn, mut rt) = (Turn::new(), start(true));
    to_keys(&mut turn, &mut rt, 250);
    match turn.step(&mut rt, LoopEvent::Keys(None), 250) {
        LoopAction::PollAudio(polls) => assert_eq!(polls, vec![Target::Source]),
        other => panic!("{other:?}"),
    }
    let answers = vec![(Target::Source, Some(true)), (Target::Sink, None)];
    assert!(matches!(
        turn.step(&mut rt, LoopEvent::Polled(answers), 250),
        LoopAction::DrainObs
    ));
    assert_eq!(rt.state.mic_muted, Some(true));
    assert_eq!(rt.state.system_muted, None);
    assert_eq!(rt.last_audio_poll, 250);
}

#[test]
fn resume_restores_before_the_keys_are_read() {
    let (mut turn, mut rt) = (Turn::new(), start(true));
    rt.display_set(Display::Dimmed);
    match turn.step(&mut rt, LoopEvent::Resumed(true), 70_000) {
        LoopAction::Restore { level: 80, polls } => assert_eq!(polls, vec![Target::Source]),
        other => panic!("{other:?}"),
    }
    assert_eq!(rt.display, Display::Full);
    assert_eq!(rt.last_input, 70_000);
    assert!(matches!(
        turn.step(&mut rt, LoopEvent::Polled(vec![(Target::Source, Some(false))]), 70_000),
        LoopAction::ReadKeys
    ));
    assert_eq!(rt.state.mic_muted, Some(false));
}

#[test]
fn failed_read_reconnects_and_starts_over() {
    let (mut turn, mut rt) = (Turn::new(), start(true));
    rt.prev_state[3] = true;
    to_keys(&mut turn, &mut rt, 100);
    assert!(matches!(
        turn.step(&mut rt, LoopEvent::ReadFailed, 100),
        LoopAction::Reconnect
    ));
    assert!(matches!(
        turn.step(&mut rt, LoopEvent::Reconnected, 5_000),
        LoopAction::Relight(80)
    ));
    assert_eq!(rt.prev_state, vec![false; 15]);
    assert!(matches!(turn.step(&mut rt, LoopEvent::Relit, 5_000), LoopAction::CheckResume));
}

#[test]
fn obs_events_apply_in_order() {
    let (mut turn, mut rt) = (Turn::new(), start(true));
    to_keys(&mut turn, &mut rt, 100);
    turn.step(&mut rt, LoopEvent::Keys(None), 100);
    let events = vec![
        ObsEvent::Connected,
        ObsEvent::Record(RecordState::Stopped),
        ObsEvent::Record(RecordState::Recording),
        ObsEvent::ActionFailed { key: 1, detail: "no".to_string() },
    ];
    turn.step(&mut rt, LoopEvent::Told(events), 100);
    assert!(rt.obs_connected);
    assert_eq!(rt.state.record, RecordState::Recording);
    assert_eq!(rt.visual_for(1, 100), Visual::Error);
}

#[test]
fn screensaver_rains() {
    let (mut turn, mut rt) = (Turn::new(), start(true));
    rt.last_audio_poll = 120_000;
    to_keys(&mut turn, &mut rt, 120_000);
    match turn.step(&mut rt, LoopEvent::Keys(None), 120_000) {
        LoopAction::Backlight { display: Display::Screensaver, level: 80 } => {}
        other => panic!("{other:?}"),
    }
    turn.step(&mut rt, LoopEvent::BacklightSet(true), 120_000);
    assert!(matches!(
        turn.step(&mut rt, LoopEvent::Told(Vec::new()), 120_000),
        LoopAction::Paint(Painting::Rain)
    ));
    assert!(matches!(turn.step(&mut rt, LoopEvent::Drawn(true), 120_000), LoopAction::Flush));
    assert!(matches!(
        turn.step(&mut rt, LoopEvent::Flushed(true), 120_000),
        LoopAction::CheckResume
    ));
}

#[test]
fn flush_follows_what_was_queued_and_its_failure_repaints() {
    let mut rt = start(true);
    let (mut turn, first) = Turn::start(&mut rt, 50);
    match first {
        LoopAction::PollAudio(polls) => assert_eq!(polls, vec![Target::Source]),
        other => panic!("{other:?}"),
    }
    // The first paint waits for nothing but the mute state.
    match turn.step(&mut rt, LoopEvent::Polled(vec![(Target::Source, Some(true))]), 50) {
        LoopAction::Upload(uploads) => {
            assert_eq!(uploads.len(), 15);
            assert_eq!(uploads[0], (0, Visual::Mute(Some(true))));
            assert_eq!(uploads[14], (14, Visual::Static));
        }
        other => panic!("{other:?}"),
    }
    let mut queued = vec![true; 15];
    queued[4] = false;
    assert!(matches!(turn.step(&mut rt, LoopEvent::Uploaded(queued), 50), LoopAction::Flush));
    assert_eq!(rt.repaint(50), vec![(4, Visual::Static)]);
    assert!(matches!(turn.step(&mut rt, LoopEvent::Flushed(false), 50), LoopAction::CheckResume));
    assert_eq!(rt.repaint(50).len(), 15);
    // Where nothing could be queued there is nothing to flush.
    to_keys(&mut turn, &mut rt, 60);
    turn.step(&mut rt, LoopEvent::Keys(None), 60);
    turn.step(&mut rt, LoopEvent::Told(Vec::new()), 60);
    turn.step(&mut rt, LoopEvent::Sampled, 60);
    assert!(matches!(
        turn.step(&mut rt, LoopEvent::Uploaded(vec![false; 15]), 60),
        LoopAction::CheckResume
    ));
}

#[test]
fn unexpected_event_starts_the_turn_over() {
    let (mut turn, mut rt) = (Turn::new(), start(true));
    to_keys(&mut turn, &mut rt, 100);
    assert!(matches!(turn.step(&mut rt, LoopEvent::Painted, 100), LoopAction::CheckResume));
    assert_eq!(turn.phase, Phase::Resume);
}
