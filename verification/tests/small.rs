use sd_rust::audio::{
    acknowledged, connect_step, may_wait_on, reported_mute, toggle_mute, wait_step, AudioError,
    ConnectError, ConnectStep, Iteration, LinkState, Target, Toggle, ToggleInput, ToggleStep,
    WaitStep,
};
use sd_rust::backoff::Backoff;
use sd_rust::device::{accepts_grid, poll_presses};
use sd_rust::osd::{show_mic_mute, show_system_mute};
use sd_rust::state::{LiveState, RecordState, ReplayState};
use sd_rust::suspend::{on_notified, on_signal, MonitorStep};

#[test]
fn target_pa_names() {
    assert_eq!(Target::Sink.pa_name(), "@DEFAULT_SINK@");
    assert_eq!(Target::Source.pa_name(), "@DEFAULT_SOURCE@");
}

#[test]
fn target_labels() {
    assert_eq!(Target::Sink.label(), "system output");
    assert_eq!(Target::Source.label(), "microphone");
}

#[test]
fn connecting_is_bounded() {
    let look = |i, s, t| connect_step(i, s, t);
    assert_eq!(look(Iteration::Success, LinkState::Ready, 9999), ConnectStep::Ready);
    assert_eq!(look(Iteration::Success, LinkState::Pending, 2999), ConnectStep::Pause);
    assert_eq!(
        look(Iteration::Success, LinkState::Pending, 3000),
        ConnectStep::Failed(ConnectError::Timeout)
    );
    assert_eq!(
        look(Iteration::Success, LinkState::Dead, 0),
        ConnectStep::Failed(ConnectError::Refused)
    );
    assert_eq!(
        look(Iteration::Error, LinkState::Ready, 0),
        ConnectStep::Failed(ConnectError::Iterate)
    );
    assert_eq!(
        look(Iteration::Quit, LinkState::Ready, 0),
        ConnectStep::Failed(ConnectError::Quit)
    );
}

#[test]
fn calls_are_bounded() {
    assert_eq!(wait_step(true, u64::MAX), WaitStep::Done);
    assert_eq!(wait_step(false, 0), WaitStep::Poll(250_000));
    assert_eq!(wait_step(false, 249_999_999), WaitStep::Poll(0));
    assert_eq!(wait_step(false, 250_000_000), WaitStep::Expired);
    assert!(may_wait_on(LinkState::Ready));
    assert!(!may_wait_on(LinkState::Pending));
    assert!(!may_wait_on(LinkState::Dead));
}

#[test]
fn mute_replies() {
    assert_eq!(reported_mute(Target::Sink, Some(true)), Ok(true));
    assert_eq!(reported_mute(Target::Sink, None), Err(AudioError::NotFound(Target::Sink)));
    assert!(toggle_mute(false));
    assert!(!toggle_mute(true));
    assert_eq!(acknowledged(Target::Source, Some(true)), Ok(()));
    assert_eq!(
        acknowledged(Target::Source, Some(false)),
        Err(AudioError::Rejected(Target::Source))
    );
    assert_eq!(acknowledged(Target::Source, None), Err(AudioError::Rejected(Target::Source)));
}

#[test]
fn toggles_query_write_and_wait_for_the_server() {
    let mut t = Toggle::new(Target::Sink);
    assert_eq!(t.step(ToggleInput::Queried(Some(false))), ToggleStep::Write(true));
    assert_eq!(t.step(ToggleInput::Acknowledged(Some(true))), ToggleStep::Done(true));
    // A second toggle gives the first state again.
    let mut t = Toggle::new(Target::Sink);
    assert_eq!(t.step(ToggleInput::Queried(Some(true))), ToggleStep::Write(false));
    assert_eq!(t.step(ToggleInput::Acknowledged(Some(true))), ToggleStep::Done(false));
    // A query that fails writes nothing.
    let unanswered = ToggleStep::Failed(AudioError::Unanswered(Target::Source));
    let missing = ToggleStep::Failed(AudioError::NotFound(Target::Source));
    assert_eq!(Toggle::new(Target::Source).step(ToggleInput::Failed), unanswered);
    assert_eq!(Toggle::new(Target::Source).step(ToggleInput::Queried(None)), missing);
    // A write that is refused or not answered fails.
    let rejected = ToggleStep::Failed(AudioError::Rejected(Target::Source));
    for (reply, end) in [
        (ToggleInput::Acknowledged(Some(false)), rejected),
        (ToggleInput::Acknowledged(None), rejected),
        (ToggleInput::Failed, unanswered),
    ] {
        let mut t = Toggle::new(Target::Source);
        t.step(ToggleInput::Queried(Some(true)));
        assert_eq!(t.step(reply), end);
    }
}

#[test]
fn backoff_doubles_up_to_its_limit() {
    let mut b = Backoff::new();
    let delays: Vec<u64> = (0..7).map(|_| b.next()).collect();
    assert_eq!(delays, vec![2, 4, 8, 16, 30, 30, 30]);
}

#[test]
fn only_the_known_grid_is_accepted() {
    assert!(accepts_grid(3, 5, 15));
    assert!(!accepts_grid(2, 3, 6));
    assert!(!accepts_grid(4, 8, 32));
    assert!(!accepts_grid(3, 5, 16));
}

#[test]
fn presses_are_rising_edges() {
    let mut prev = vec![false; 15];
    let mut states = vec![false; 15];
    states[3] = true;
    states[9] = true;
    assert_eq!(poll_presses(Some(&states), &mut prev), vec![3, 9]);
    assert_eq!(poll_presses(Some(&states), &mut prev), Vec::<usize>::new());
    assert_eq!(poll_presses(None, &mut prev), Vec::<usize>::new());
    states[3] = false;
    states[14] = true;
    assert_eq!(poll_presses(Some(&states), &mut prev), vec![14]);
    states[3] = true;
    assert_eq!(poll_presses(Some(&states), &mut prev), vec![3]);
    // Reports may be shorter or longer than the deck has keys.
    assert_eq!(poll_presses(Some(&vec![true; 20]), &mut vec![false; 15]).len(), 15);
    assert_eq!(poll_presses(Some(&vec![true; 2]), &mut vec![false; 15]), vec![0, 1]);
}

#[test]
fn mute_popups() {
    let p = show_mic_mute(true);
    assert_eq!(p.icon, "microphone-sensitivity-muted");
    assert_eq!(p.text, "Microphone: Muted");
    let p = show_mic_mute(false);
    assert_eq!(p.icon, "microphone-sensitivity-high");
    assert_eq!(p.text, "Microphone: Unmuted");
    let p = show_system_mute(true);
    assert_eq!(p.icon, "audio-volume-muted");
    assert_eq!(p.text, "Output: Muted");
    let p = show_system_mute(false);
    assert_eq!(p.icon, "audio-volume-high");
    assert_eq!(p.text, "Output: Unmuted");
}

#[test]
fn nothing_is_known_at_first() {
    let s = LiveState::default();
    assert_eq!(s.mic_muted, None);
    assert_eq!(s.system_muted, None);
    assert_eq!(s.record, RecordState::Disconnected);
    assert_eq!(s.replay, ReplayState::Disconnected);
}

#[test]
fn only_resumes_are_forwarded() {
    assert_eq!(on_signal(Some(false)), MonitorStep::Notify);
    assert_eq!(on_signal(Some(true)), MonitorStep::Wait);
    assert_eq!(on_signal(None), MonitorStep::Wait);
    assert_eq!(on_notified(true), MonitorStep::Wait);
    assert_eq!(on_notified(false), MonitorStep::Stop);
}
