use sd_rust::obs::{
    handle_command, handle_event, host_is_local, is_capture_kind, password_in_cleartext,
    send_initial_state, ActionError, ActionNext, ActionRun, CaptureReply, CaptureRequest,
    CaptureScan, Link, LinkInput, LinkStep, ObsAction, ObsCommand, ObsEvent, ObsNotice, ObsReply,
    ObsRequest, OutputPhase, PlainRequest, RecordStatus, ScanNext, SceneItem, Session, SessionEnd,
    SessionInput, SessionStep,
};
use sd_rust::state::{RecordState, ReplayState};

fn item(id: i64, kind: Option<&str>, group: Option<bool>, name: &str) -> SceneItem {
    SceneItem { id, kind: kind.map(|k| k.to_string()), is_group: group, name: name.to_string() }
}

const CAPTURE: &str = "pipewire-desktop-capture-source";

/// A scene with a disabled capture, a group with two captures, and a still.
fn reply(request: &CaptureRequest, live: &[(&str, i64)]) -> CaptureReply {
    match request {
        CaptureRequest::ProgramScene => CaptureReply::Scene("main".to_string()),
        CaptureRequest::Items { scene } => {
            assert_eq!(scene, "main");
            CaptureReply::Items(vec![
                item(1, Some(CAPTURE), Some(false), "off"),
                item(2, Some("image_source"), None, "still"),
                item(3, None, Some(true), "group"),
                item(4, None, Some(true), "hidden"),
            ])
        }
        CaptureRequest::Members { group } => {
            assert_eq!(group, "group");
            CaptureReply::Items(vec![
                item(7, Some("pulse_input_capture"), None, "audio"),
                item(8, Some(CAPTURE), None, "a"),
                item(9, Some(CAPTURE), None, "b"),
            ])
        }
        CaptureRequest::Enabled { scene, id } => {
            CaptureReply::Flag(!(scene == "main" && (*id == 1 || *id == 4)))
        }
        CaptureRequest::Dimensions { scene, id } => {
            CaptureReply::Flag(live.iter().any(|(s, i)| s == scene && i == id))
        }
    }
}

fn scan(live: &[(&str, i64)]) -> (bool, bool, usize) {
    let mut scan = CaptureScan::new();
    let mut request = scan.request();
    let mut asked = 1;
    loop {
        match scan.answer(reply(&request, live)) {
            ScanNext::Ask(next) => request = next,
            ScanNext::Done { found, live } => return (found, live, asked),
            ScanNext::Failed(e) => panic!("{e}"),
        }
        asked += 1;
    }
}

fn drive(action: ObsAction, live: &[(&str, i64)], status: (bool, bool)) -> (Vec<PlainRequest>, ActionNext) {
    let mut run = ActionRun::new(action);
    let mut request = run.request();
    let mut plain = Vec::new();
    loop {
        let answer = match &request {
            ObsRequest::Plain(PlainRequest::RecordStatus) => {
                plain.push(PlainRequest::RecordStatus);
                ObsReply::Status { active: status.0, paused: status.1 }
            }
            ObsRequest::Plain(p) => {
                plain.push(*p);
                ObsReply::Done
            }
            ObsRequest::Capture(c) => ObsReply::Capture(reply(c, live)),
        };
        match run.answer(answer) {
            ActionNext::Ask(next) => request = next,
            end => return (plain, end),
        }
    }
}

#[test]
fn local_host_detection() {
    assert!(host_is_local("localhost"));
    assert!(host_is_local("127.0.0.1"));
    assert!(host_is_local("::1"));
    assert!(!host_is_local("192.168.1.10"));
    assert!(!host_is_local("obs.example.com"));
}

#[test]
fn cleartext_warning_needs_a_password_and_a_remote_host() {
    assert!(host_is_local("127.1.2.3"));
    assert!(host_is_local("127.255.255.255"));
    assert!(!host_is_local("127.0.0.1.example.com"));
    assert!(!host_is_local("127.example.com"));
    assert!(!host_is_local("127.0.0.256"));
    assert!(!host_is_local("127.0.0."));
    assert!(host_is_local("127.1"));
    assert!(host_is_local("127.0.1"));
    assert!(host_is_local("127.16777215"));
    assert!(!host_is_local("127.16777216"));
    assert!(host_is_local("127.0.65535"));
    assert!(!host_is_local("127.0.65536"));
    assert!(!host_is_local("127.256.1"));
    assert!(!host_is_local("127"));
    assert!(!host_is_local("128.0.0.1"));
    assert!(password_in_cleartext(&Some("p".to_string()), "127.0.0.1.example.com"));
    assert!(password_in_cleartext(&Some("p".to_string()), "obs.example.com"));
    assert!(!password_in_cleartext(&Some("p".to_string()), "localhost"));
    assert!(!password_in_cleartext(&None, "obs.example.com"));
}

#[test]
fn capture_kinds() {
    assert!(is_capture_kind("pipewire-screen-capture-source"));
    assert!(is_capture_kind("capture-source"));
    assert!(!is_capture_kind("pulse_input_capture"));
    assert!(!is_capture_kind(""));
}

#[test]
fn scan_sees_enabled_captures_in_scope_only() {
    // Scene, items, item 1 enabled, group 3 enabled, members, 8 and 9 enabled and
    // measured, group 4 enabled.
    assert_eq!(scan(&[("group", 9)]), (true, true, 10));
    assert_eq!(scan(&[]), (true, false, 10));
    // The disabled capture does not count, live or not.
    assert_eq!(scan(&[("main", 1)]), (true, false, 10));
}

#[test]
fn scan_counts_each_reply_as_it_comes() {
    // An item that is a capture and a group, whose answers change during the scan.
    let mut scan = CaptureScan::new();
    scan.answer(CaptureReply::Scene("main".to_string()));
    let both = vec![item(1, Some(CAPTURE), Some(true), "g"), item(2, Some(CAPTURE), None, "c")];
    scan.answer(CaptureReply::Items(both));
    assert!(matches!(scan.request(), CaptureRequest::Enabled { id: 1, .. }));
    scan.answer(CaptureReply::Flag(true));
    assert!(matches!(scan.request(), CaptureRequest::Dimensions { id: 1, .. }));
    scan.answer(CaptureReply::Flag(false));
    assert_eq!((scan.found, scan.live), (true, false));
    // By now it is disabled, so it is not descended into.
    assert!(matches!(scan.request(), CaptureRequest::Enabled { id: 1, .. }));
    scan.answer(CaptureReply::Flag(false));
    assert!(matches!(scan.request(), CaptureRequest::Enabled { id: 2, .. }));
    assert!(matches!(
        scan.answer(CaptureReply::Flag(false)),
        ScanNext::Done { found: true, live: false }
    ));
}

#[test]
fn scan_fails_with_its_request() {
    let mut s = CaptureScan::new();
    assert!(matches!(s.answer(CaptureReply::Failed("gone".to_string())), ScanNext::Failed(e) if e == "gone"));
    let mut s = CaptureScan::new();
    s.answer(CaptureReply::Scene("empty".to_string()));
    assert!(matches!(
        s.answer(CaptureReply::Items(Vec::new())),
        ScanNext::Done { found: false, live: false }
    ));
}

#[test]
fn recording_starts_only_with_a_live_capture() {
    let (plain, end) = drive(ObsAction::RecordStart, &[("group", 8)], (false, false));
    assert_eq!(plain, vec![PlainRequest::RecordStart]);
    assert!(matches!(end, ActionNext::Finished));

    let (plain, end) = drive(ObsAction::RecordStart, &[], (false, false));
    assert!(plain.is_empty());
    assert!(matches!(end, ActionNext::Failed(ActionError::Blind)));
}

#[test]
fn toggle_resumes_stops_or_starts() {
    let (plain, _) = drive(ObsAction::RecordToggle, &[], (true, true));
    assert_eq!(plain, vec![PlainRequest::RecordStatus, PlainRequest::RecordTogglePause]);
    let (plain, _) = drive(ObsAction::RecordToggle, &[], (true, false));
    assert_eq!(plain, vec![PlainRequest::RecordStatus, PlainRequest::RecordStop]);
    let (plain, _) = drive(ObsAction::RecordToggle, &[("group", 9)], (false, false));
    assert_eq!(plain, vec![PlainRequest::RecordStatus, PlainRequest::RecordStart]);
    let (plain, end) = drive(ObsAction::RecordToggle, &[], (false, false));
    assert_eq!(plain, vec![PlainRequest::RecordStatus]);
    assert!(matches!(end, ActionNext::Failed(ActionError::Blind)));
}

#[test]
fn other_actions_are_one_request() {
    for (action, request) in [
        (ObsAction::RecordStop, PlainRequest::RecordStop),
        (ObsAction::RecordTogglePause, PlainRequest::RecordTogglePause),
        (ObsAction::ReplayStart, PlainRequest::ReplayStart),
        (ObsAction::ReplayStop, PlainRequest::ReplayStop),
        (ObsAction::ReplayToggle, PlainRequest::ReplayToggle),
        (ObsAction::ReplaySave, PlainRequest::ReplaySave),
    ] {
        let (plain, end) = drive(action, &[], (false, false));
        assert_eq!(plain, vec![request]);
        assert!(matches!(end, ActionNext::Finished));
    }
    let mut run = ActionRun::new(ObsAction::ReplaySave);
    match run.answer(ObsReply::Failed("off".to_string())) {
        ActionNext::Failed(e) => {
            let cmd = ObsCommand { action: ObsAction::ReplaySave, key: 7 };
            match handle_command(cmd, Some(e)) {
                Some(ObsEvent::ActionFailed { key, detail }) => {
                    assert_eq!(key, 7);
                    assert_eq!(detail, "off");
                }
                other => panic!("{other:?}"),
            }
            assert!(handle_command(cmd, None).is_none());
            match handle_command(cmd, Some(ActionError::Blind)) {
                Some(ObsEvent::ActionFailed { detail, .. }) => {
                    assert!(detail.ends_with("refusing to record"));
                }
                other => panic!("{other:?}"),
            }
        }
        other => panic!("{other:?}"),
    }
}

#[test]
fn initial_state_is_told() {
    let events = send_initial_state(Some(RecordStatus { active: true, paused: true }), Some(false));
    assert!(matches!(events[0], ObsEvent::Record(RecordState::Paused)));
    assert!(matches!(events[1], ObsEvent::Replay(ReplayState::Disarmed)));
    let events = send_initial_state(Some(RecordStatus { active: false, paused: true }), None);
    assert_eq!(events.len(), 1);
    assert!(matches!(events[0], ObsEvent::Record(RecordState::Stopped)));
    assert!(send_initial_state(None, None).is_empty());
}

#[test]
fn notices_become_events() {
    let record = |active, phase| handle_event(ObsNotice::RecordStateChanged { active, phase });
    assert!(matches!(record(true, OutputPhase::Started), Some(ObsEvent::Record(RecordState::Recording))));
    assert!(matches!(record(true, OutputPhase::Resumed), Some(ObsEvent::Record(RecordState::Recording))));
    assert!(matches!(record(true, OutputPhase::Paused), Some(ObsEvent::Record(RecordState::Paused))));
    assert!(matches!(record(true, OutputPhase::Stopped), Some(ObsEvent::Record(RecordState::Stopped))));
    assert!(matches!(record(true, OutputPhase::Transient), Some(ObsEvent::Record(RecordState::Recording))));
    assert!(matches!(record(false, OutputPhase::Transient), Some(ObsEvent::Record(RecordState::Stopped))));
    assert!(matches!(
        handle_event(ObsNotice::ReplayBufferStateChanged { active: true }),
        Some(ObsEvent::Replay(ReplayState::Armed))
    ));
    assert!(handle_event(ObsNotice::Other).is_none());
}

#[test]
fn sessions_tell_capture_changes_once() {
    let mut s = Session::new(true);
    assert!(s.polls);
    let blind = SessionInput::Scanned { found: true, live: false };
    let none = SessionInput::Scanned { found: false, live: false };
    assert!(matches!(s.step(blind), SessionStep::Tell(ObsEvent::CaptureLive(false))));
    assert!(matches!(s.step(blind), SessionStep::Wait));
    assert!(matches!(s.step(SessionInput::ScanFailed), SessionStep::Wait));
    assert!(matches!(s.step(none), SessionStep::Tell(ObsEvent::CaptureLive(true))));
    assert!(matches!(s.step(none), SessionStep::Wait));
}

#[test]
fn sessions_end() {
    let mut s = Session::new(false);
    let cmd = ObsCommand { action: ObsAction::ReplaySave, key: 1 };
    assert!(matches!(s.step(SessionInput::Command(Some(cmd))), SessionStep::Run(c) if c == cmd));
    assert!(matches!(
        s.step(SessionInput::Command(None)),
        SessionStep::End(SessionEnd::CommandChannelClosed)
    ));
    assert!(matches!(s.step(SessionInput::Notice(None)), SessionStep::End(SessionEnd::Disconnected)));
    assert!(matches!(s.step(SessionInput::Notice(Some(ObsNotice::Other))), SessionStep::Wait));
}

#[test]
fn reconnects_back_off_and_reset() {
    let mut link = Link::new();
    let mut delays = Vec::new();
    for _ in 0..6 {
        match link.step(LinkInput::ConnectFailed).1 {
            LinkStep::ConnectAfter(s) => delays.push(s),
            other => panic!("{other:?}"),
        }
    }
    assert_eq!(delays, vec![2, 4, 8, 16, 30, 30]);
    let (told, step) = link.step(LinkInput::Connected);
    assert!(matches!(told, Some(ObsEvent::Connected)));
    assert_eq!(step, LinkStep::RunSession);
    let lost = |lasted_ms| LinkInput::SessionOver { end: SessionEnd::Disconnected, lasted_ms };
    assert_eq!(link.step(lost(29_999)).1, LinkStep::ConnectAfter(30));
    let (told, step) = link.step(lost(30_000));
    assert!(matches!(told, Some(ObsEvent::Disconnected)));
    assert_eq!(step, LinkStep::ConnectAfter(0));
    assert_eq!(link.step(LinkInput::ConnectFailed).1, LinkStep::ConnectAfter(2));
    let over = LinkInput::SessionOver { end: SessionEnd::CommandChannelClosed, lasted_ms: 0 };
    assert_eq!(link.step(over).1, LinkStep::Exit);
}
