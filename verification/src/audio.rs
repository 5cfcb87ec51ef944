//! Audio mute control + state over a **persistent** PipeWire/PulseAudio
//! connection: which device is acted on, how long is waited for the server, and
//! what its replies mean.

use vstd::prelude::*;

verus! {

/// Which default audio device to act on.
#[derive(Debug, Clone, Copy, PartialEq, Eq, Structural)]
pub enum Target {
    /// Default output (speakers/headphones) → system-output mute.
    Sink,
    /// Default input (microphone) → mic mute.
    Source,
}

impl Target {
    /// The PulseAudio special name for this target's *default* device.
    pub fn pa_name(self) -> (r: &'static str)
        ensures
            r@ == (match self {
                Target::Sink => "@DEFAULT_SINK@"@,
                Target::Source => "@DEFAULT_SOURCE@"@,
            }),
    {
        match self {
            Target::Sink => "@DEFAULT_SINK@",
            Target::Source => "@DEFAULT_SOURCE@",
        }
    }

    pub fn label(self) -> (r: &'static str)
        ensures
            r@ == (match self {
                Target::Sink => "system output"@,
                Target::Source => "microphone"@,
            }),
    {
        match self {
            Target::Sink => "system output",
            Target::Source => "microphone",
        }
    }
}

/// How long connecting may take, in milliseconds.
pub const CONNECT_DEADLINE_MS: u64 = 3000;

/// How long to sleep between looks at a connection that is being made, in
/// milliseconds.
pub const CONNECT_PAUSE_MS: u64 = 10;

/// How long a call may take, in nanoseconds.
pub const CALL_DEADLINE_NS: u64 = 250_000_000;

/// What came of driving the main loop once.
#[derive(Debug, Clone, Copy, PartialEq, Eq, Structural)]
pub enum Iteration {
    Success,
    Error,
    Quit,
}

/// The state of the connection.
#[derive(Debug, Clone, Copy, PartialEq, Eq, Structural)]
pub enum LinkState {
    Ready,
    /// Failed, or terminated.
    Dead,
    /// Neither yet.
    Pending,
}

/// What connecting comes to.
#[derive(Debug, Clone, Copy, PartialEq, Eq, Structural)]
pub enum ConnectStep {
    Ready,
    /// Sleep, and look again.
    Pause,
    Failed(ConnectError),
}

#[derive(Debug, Clone, Copy, PartialEq, Eq, Structural)]
pub enum ConnectError {
    /// The main loop failed.
    Iterate,
    /// The main loop quit unexpectedly.
    Quit,
    /// The connection failed.
    Refused,
    /// The connection was not ready in time.
    Timeout,
}

/// One look at a connection that is being made: the main loop is driven until it is
/// ready, bounded by a deadline so a wedged handshake can't hang the daemon.
pub fn connect_step(iteration: Iteration, state: LinkState, elapsed_ms: u64) -> (r: ConnectStep)
    ensures
        r == (match iteration {
            Iteration::Error => ConnectStep::Failed(ConnectError::Iterate),
            Iteration::Quit => ConnectStep::Failed(ConnectError::Quit),
            Iteration::Success => match state {
                LinkState::Ready => ConnectStep::Ready,
                LinkState::Dead => ConnectStep::Failed(ConnectError::Refused),
                LinkState::Pending => if elapsed_ms >= CONNECT_DEADLINE_MS {
                    ConnectStep::Failed(ConnectError::Timeout)
                } else {
                    ConnectStep::Pause
                },
            },
        }),
{
    match iteration {
        Iteration::Error => return ConnectStep::Failed(ConnectError::Iterate),
        Iteration::Quit => return ConnectStep::Failed(ConnectError::Quit),
        Iteration::Success => {},
    }
    match state {
        LinkState::Ready => ConnectStep::Ready,
        LinkState::Dead => ConnectStep::Failed(ConnectError::Refused),
        LinkState::Pending => if elapsed_ms >= CONNECT_DEADLINE_MS {
            ConnectStep::Failed(ConnectError::Timeout)
        } else {
            ConnectStep::Pause
        },
    }
}

/// What waiting for a reply comes to.
#[derive(Debug, Clone, Copy, PartialEq, Eq, Structural)]
pub enum WaitStep {
    Done,
    /// Poll for so many microseconds at most.
    Poll(u64),
    /// The deadline has passed.
    Expired,
}

/// One step of waiting for a reply: poll for as long as the deadline leaves, so
/// that a server that never answers can't hang us.
pub fn wait_step(done: bool, elapsed_ns: u64) -> (r: WaitStep)
    ensures
        r == (if done {
            WaitStep::Done
        } else if elapsed_ns >= CALL_DEADLINE_NS {
            WaitStep::Expired
        } else {
            WaitStep::Poll(((CALL_DEADLINE_NS - elapsed_ns) / 1000) as u64)
        }),
        r matches WaitStep::Poll(us) ==> us <= i32::MAX,
{
    if done {
        return WaitStep::Done;
    }
    if elapsed_ns >= CALL_DEADLINE_NS {
        return WaitStep::Expired;
    }
    WaitStep::Poll((CALL_DEADLINE_NS - elapsed_ns) / 1000)
}

/// Whether waiting can go on: the connection can drop in the middle (server
/// restart), and stale data must not be used then.
pub fn may_wait_on(state: LinkState) -> (r: bool)
    ensures
        r == (state == LinkState::Ready),
{
    state == LinkState::Ready
}

/// Why a call came to nothing.
#[derive(Debug, Clone, Copy, PartialEq, Eq, Structural)]
pub enum AudioError {
    /// No such device was reported.
    NotFound(Target),
    /// The server rejected the new state.
    Rejected(Target),
    /// The call did not come to its end.
    Unanswered(Target),
}

/// The mute state that a query reported.
pub fn reported_mute(target: Target, reported: Option<bool>) -> (r: Result<bool, AudioError>)
    ensures
        r == (match reported {
            Some(m) => Ok::<bool, AudioError>(m),
            None => Err(AudioError::NotFound(target)),
        }),
{
    match reported {
        Some(m) => Ok(m),
        None => Err(AudioError::NotFound(target)),
    }
}

/// The mute state to set when one is toggled.
pub fn toggle_mute(muted: bool) -> (r: bool)
    ensures
        r == !muted,
{
    !muted
}

/// What setting a mute state came to, by the server's acknowledgement.
pub fn acknowledged(target: Target, ack: Option<bool>) -> (r: Result<(), AudioError>)
    ensures
        r == (if ack == Some(true) {
            Ok::<(), AudioError>(())
        } else {
            Err(AudioError::Rejected(target))
        }),
{
    match ack {
        Some(true) => Ok(()),
        _ => Err(AudioError::Rejected(target)),
    }
}

// --- Toggling --------------------------------------------------------------

/// What a toggle waits for.
#[derive(Debug, Clone, Copy, PartialEq, Eq, Structural)]
pub enum TogglePhase {
    /// The current mute state.
    Query,
    /// The acknowledgement of this new state.
    Write(bool),
    /// Nothing any more.
    Over,
}

/// What came of a call to the server.
#[derive(Debug, Clone, Copy, PartialEq, Eq)]
pub enum ToggleInput {
    /// The mute state that the query reported, where there is such a device.
    Queried(Option<bool>),
    /// The server's acknowledgement.
    Acknowledged(Option<bool>),
    /// The call did not come to its end.
    Failed,
}

/// What a toggle does next.
#[derive(Debug, Clone, Copy, PartialEq, Eq, Structural)]
pub enum ToggleStep {
    /// Set this mute state.
    Write(bool),
    /// The mute state is now this.
    Done(bool),
    Failed(AudioError),
}

/// What a toggle does next, from what came of its last call: the state is read, its
/// opposite written, and the server has to acknowledge that.
pub open spec fn toggle_next(target: Target, phase: TogglePhase, input: ToggleInput) -> ToggleStep {
    match (phase, input) {
        (TogglePhase::Query, ToggleInput::Queried(Some(muted))) => ToggleStep::Write(!muted),
        (TogglePhase::Query, ToggleInput::Queried(None)) => ToggleStep::Failed(
            AudioError::NotFound(target),
        ),
        (TogglePhase::Write(mute), ToggleInput::Acknowledged(Some(true))) => ToggleStep::Done(mute),
        (TogglePhase::Write(_), ToggleInput::Acknowledged(_)) => ToggleStep::Failed(
            AudioError::Rejected(target),
        ),
        _ => ToggleStep::Failed(AudioError::Unanswered(target)),
    }
}

/// What a toggle waits for after a step.
pub open spec fn phase_after(step: ToggleStep) -> TogglePhase {
    match step {
        ToggleStep::Write(mute) => TogglePhase::Write(mute),
        _ => TogglePhase::Over,
    }
}

/// A toggle of a target's mute on its way. It begins with a query.
#[derive(Debug, Clone, Copy, PartialEq, Eq, Structural)]
pub struct Toggle {
    pub target: Target,
    pub phase: TogglePhase,
}

impl Toggle {
    pub fn new(target: Target) -> (r: Toggle)
        ensures
            r == (Toggle { target, phase: TogglePhase::Query }),
    {
        Toggle { target, phase: TogglePhase::Query }
    }

    /// What to do next, from what came of the last call.
    pub fn step(&mut self, input: ToggleInput) -> (r: ToggleStep)
        ensures
            r == toggle_next(old(self).target, old(self).phase, input),
            *final(self) == (Toggle { target: old(self).target, phase: phase_after(r) }),
    {
        let target = self.target;
        let step = match (self.phase, input) {
            (TogglePhase::Query, ToggleInput::Queried(reported)) => match reported_mute(
                target,
                reported,
            ) {
                Ok(muted) => ToggleStep::Write(toggle_mute(muted)),
                Err(e) => ToggleStep::Failed(e),
            },
            (TogglePhase::Write(mute), ToggleInput::Acknowledged(ack)) => match acknowledged(
                target,
                ack,
            ) {
                Ok(_) => ToggleStep::Done(mute),
                Err(e) => ToggleStep::Failed(e),
            },
            _ => ToggleStep::Failed(AudioError::Unanswered(target)),
        };
        self.phase = match step {
            ToggleStep::Write(mute) => TogglePhase::Write(mute),
            _ => TogglePhase::Over,
        };
        step
    }
}

/// The mute states of the server, `None` where there is no such device.
pub struct Mutes {
    pub sink: Option<bool>,
    pub source: Option<bool>,
}

impl Mutes {
    /// The mute state of a target.
    pub open spec fn of(self, target: Target) -> Option<bool> {
        match target {
            Target::Sink => self.sink,
            Target::Source => self.source,
        }
    }

    /// The mute states once that of a target is set.
    pub open spec fn with(self, target: Target, mute: bool) -> Mutes {
        match target {
            Target::Sink => Mutes { sink: Some(mute), ..self },
            Target::Source => Mutes { source: Some(mute), ..self },
        }
    }
}

/// What a toggle comes to, from what the query came to and, where it comes to a write,
/// whether the server takes that and what it replies: the mute states then, and the
/// last step.
pub open spec fn toggled(
    before: Mutes,
    target: Target,
    query: ToggleInput,
    taken: bool,
    reply: ToggleInput,
) -> (Mutes, ToggleStep) {
    match toggle_next(target, TogglePhase::Query, query) {
        ToggleStep::Write(mute) => (
            if taken {
                before.with(target, mute)
            } else {
                before
            },
            toggle_next(target, TogglePhase::Write(mute), reply),
        ),
        step => (before, step),
    }
}

/// A toggle whose query fails, or finds no device, fails and writes nothing, whatever
/// the server would make of a write.
pub proof fn failed_query_writes_nothing(
    before: Mutes,
    target: Target,
    query: ToggleInput,
    taken: bool,
    reply: ToggleInput,
)
    requires
        !(query matches ToggleInput::Queried(Some(_))),
    ensures
        toggle_next(target, TogglePhase::Query, query) is Failed,
        toggled(before, target, query, taken, reply).0 == before,
        toggled(before, target, query, taken, reply).1 is Failed,
{
}

/// A toggle whose write is refused or not answered fails.
pub proof fn refused_write_fails(
    before: Mutes,
    target: Target,
    query: ToggleInput,
    taken: bool,
    reply: ToggleInput,
)
    requires
        reply != ToggleInput::Acknowledged(Some(true)),
    ensures
        toggled(before, target, query, taken, reply).1 is Failed,
{
}

/// A toggle that the server takes gives the opposite state, which the target then has;
/// the other target keeps its own, and a second toggle gives the first state again.
pub proof fn toggling_twice_restores(before: Mutes, target: Target, other: Target)
    requires
        before.of(target) is Some,
        other != target,
    ensures
        ({
            let muted = before.of(target)->0;
            let ack = ToggleInput::Acknowledged(Some(true));
            let once = toggled(before, target, ToggleInput::Queried(before.of(target)), true, ack);
            let twice = toggled(once.0, target, ToggleInput::Queried(once.0.of(target)), true, ack);
            &&& once.1 == ToggleStep::Done(!muted)
            &&& once.0.of(target) == Some(!muted)
            &&& once.0.of(other) == before.of(other)
            &&& twice.1 == ToggleStep::Done(muted)
            &&& twice.0 == before
        }),
{
}

/// A toggle writes the opposite of the state that it read and is done once the server
/// takes that; each way to fail names its target and what went wrong.
pub proof fn toggles_go_step_by_step(target: Target, muted: bool, mute: bool)
    ensures
        ({
            let queried = |i: ToggleInput| toggle_next(target, TogglePhase::Query, i);
            let written = |i: ToggleInput| toggle_next(target, TogglePhase::Write(mute), i);
            &&& queried(ToggleInput::Queried(Some(muted))) == ToggleStep::Write(!muted)
            &&& queried(ToggleInput::Queried(None)) == ToggleStep::Failed(
                AudioError::NotFound(target),
            )
            &&& queried(ToggleInput::Failed) == ToggleStep::Failed(AudioError::Unanswered(target))
            &&& written(ToggleInput::Acknowledged(Some(true))) == ToggleStep::Done(mute)
            &&& written(ToggleInput::Acknowledged(Some(false))) == ToggleStep::Failed(
                AudioError::Rejected(target),
            )
            &&& written(ToggleInput::Acknowledged(None)) == ToggleStep::Failed(
                AudioError::Rejected(target),
            )
            &&& written(ToggleInput::Failed) == ToggleStep::Failed(AudioError::Unanswered(target))
        }),
        phase_after(ToggleStep::Write(mute)) == TogglePhase::Write(mute),
        phase_after(ToggleStep::Done(mute)) == TogglePhase::Over,
        phase_after(ToggleStep::Failed(AudioError::NotFound(target))) == TogglePhase::Over,
{
}

} // verus!
