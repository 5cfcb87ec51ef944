//! Live state that drives state-dependent key rendering. Updated by the audio
//! poller and the OBS event thread; read by the runtime's repaint pass.

use vstd::prelude::*;

verus! {

/// OBS recording state (three states + a disconnected fallback for when OBS
/// isn't reachable).
#[derive(Debug, Clone, Copy, PartialEq, Eq, Structural)]
pub enum RecordState {
    Disconnected,
    Stopped,
    Recording,
    Paused,
}

/// OBS replay-buffer state (armed/running vs disarmed/stopped + disconnected).
#[derive(Debug, Clone, Copy, PartialEq, Eq, Structural)]
pub enum ReplayState {
    Disconnected,
    Armed,
    Disarmed,
}

/// The full live state. `None` mute fields mean "not yet known" (before the
/// first poll); OBS fields start `Disconnected` until the OBS thread connects.
#[derive(Debug, Clone, Copy, PartialEq, Eq)]
pub struct LiveState {
    pub mic_muted: Option<bool>,
    pub system_muted: Option<bool>,
    pub record: RecordState,
    pub replay: ReplayState,
}

impl Default for LiveState {
    fn default() -> (r: LiveState)
        ensures
            r == (LiveState {
                mic_muted: None,
                system_muted: None,
                record: RecordState::Disconnected,
                replay: ReplayState::Disconnected,
            }),
    {
        LiveState {
            mic_muted: None,
            system_muted: None,
            record: RecordState::Disconnected,
            replay: ReplayState::Disconnected,
        }
    }
}

} // verus!
