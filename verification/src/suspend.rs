//! Suspend/resume handling: logind's `PrepareForSleep` signal, and what of it the
//! main loop is told. The signal body is a single bool: `true` = about to sleep,
//! `false` = just resumed; only resumes are forwarded.

use vstd::prelude::*;

verus! {

/// The signal that is listened for.
pub const SENDER: &'static str = "org.freedesktop.login1";

pub const INTERFACE: &'static str = "org.freedesktop.login1.Manager";

pub const MEMBER: &'static str = "PrepareForSleep";

/// What the monitor does next.
#[derive(Debug, Clone, Copy, PartialEq, Eq, Structural)]
pub enum MonitorStep {
    /// Wait for the next signal.
    Wait,
    /// Tell the main loop of a resume.
    Notify,
    /// The main loop is gone.
    Stop,
}

/// What a signal amounts to. `going_to_sleep` is its body; a message that failed,
/// or has another body, is passed over.
pub fn on_signal(going_to_sleep: Option<bool>) -> (r: MonitorStep)
    ensures
        r == (if going_to_sleep == Some(false) {
            MonitorStep::Notify
        } else {
            MonitorStep::Wait
        }),
{
    match going_to_sleep {
        Some(false) => MonitorStep::Notify,
        _ => MonitorStep::Wait,
    }
}

/// What follows once the main loop was told, or could not be.
pub fn on_notified(delivered: bool) -> (r: MonitorStep)
    ensures
        r == (if delivered {
            MonitorStep::Wait
        } else {
            MonitorStep::Stop
        }),
{
    if delivered {
        MonitorStep::Wait
    } else {
        MonitorStep::Stop
    }
}

} // verus!
