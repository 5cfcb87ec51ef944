//! The main loop: in which order a turn sees to resume, presses, audio, OBS and
//! painting.
//!
//! [`Turn::step`] takes what came of the last action and says what to do next; the
//! caller carries it out and hands back what came of it. A single synchronous loop
//! is enough: every turn comes to its end.

use vstd::prelude::*;

use crate::audio::Target;
use crate::config::KEY_COUNT;
use crate::device;
use crate::obs::ObsEvent;
use crate::runtime;
use crate::runtime::{Action, DispatchError, Display, Painting, Runtime, TurnPlan, Visual};

verus! {

/// What a turn waits for.
#[derive(Debug, Clone, Copy, PartialEq, Eq, Structural)]
pub enum Phase {
    /// The mute state, read before the first paint.
    Start,
    /// Whether the machine resumed from sleep.
    Resume,
    /// The mute state, read again after a resume.
    Restore,
    /// The states of the keys.
    Keys,
    /// The deck, to be opened again.
    Reconnect,
    /// The backlight of the deck that was opened again.
    Relight,
    /// A backlight state, to be set.
    Backlight(Display),
    /// The action of a pressed key.
    Press,
    /// The mute state.
    Audio,
    /// What OBS has to say.
    Obs,
    /// What is painted: nothing, a frame of the screensaver, or the widgets first.
    Paint(Painting),
    /// The keys that changed, to be uploaded.
    Upload,
    /// The images that were queued, to be sent to the deck.
    Flush,
}

/// What the loop does next.
#[derive(Debug)]
pub enum LoopAction {
    /// Look whether the machine resumed from sleep.
    CheckResume,
    /// Set the brightness, whether or not that works, and poll mute states.
    Restore { level: u8, polls: Vec<Target> },
    /// Wait a moment for input from the deck.
    ReadKeys,
    /// Open the deck again, however long it takes.
    Reconnect,
    /// Set the brightness, whether or not that works.
    Relight(u8),
    /// Set the brightness for a backlight state.
    Backlight { display: Display, level: u8 },
    /// Do what a key asks for, or report why it cannot act.
    Perform { key: usize, asked: Result<Action, DispatchError> },
    /// Poll mute states.
    PollAudio(Vec<Target>),
    /// Collect the events from OBS.
    DrainObs,
    /// Paint: queue a frame of the screensaver, or sample the widgets that are due.
    Paint(Painting),
    /// Queue the images of these keys, each showing this.
    Upload(Vec<(usize, Visual)>),
    /// Send the images that were queued to the deck.
    Flush,
}

/// What came of an action.
#[derive(Debug, Clone)]
pub enum LoopEvent {
    /// Whether the machine resumed from sleep.
    Resumed(bool),
    /// The mute states that were polled; `None` where that failed.
    Polled(Vec<(Target, Option<bool>)>),
    /// The states of the keys, where the deck reported them.
    Keys(Option<Vec<bool>>),
    /// The deck could not be read.
    ReadFailed,
    /// The deck is open again.
    Reconnected,
    /// The brightness of the deck that was opened again was set.
    Relit,
    /// Whether the brightness could be set.
    BacklightSet(bool),
    /// Whether the action that a key asked for failed.
    Performed { failed: bool },
    /// The events from OBS, in order.
    Told(Vec<ObsEvent>),
    /// There was nothing to paint.
    Painted,
    /// Whether an image of a frame of the screensaver was queued.
    Drawn(bool),
    /// The widgets that were due were sampled.
    Sampled,
    /// For each key in order, whether its image was queued.
    Uploaded(Vec<bool>),
    /// Whether the images could be sent to the deck.
    Flushed(bool),
}

/// Where a turn of the main loop is.
#[derive(Debug, Clone)]
pub struct Turn {
    pub phase: Phase,
    /// The pressed keys whose actions run.
    pub run: Vec<usize>,
    /// How many of them were seen to.
    pub next: usize,
    /// The keys that are uploaded, each with what it shows.
    pub uploads: Vec<(usize, Visual)>,
}

/// The runtime once polls came back, in order.
pub open spec fn heard(rt: Runtime, answers: Seq<(Target, Option<bool>)>) -> Runtime
    decreases answers.len(),
{
    if answers.len() == 0 {
        rt
    } else {
        heard(rt, answers.drop_last()).polled(answers.last().0, answers.last().1)
    }
}

/// Polls came back.
fn hear(rt: &mut Runtime, answers: &Vec<(Target, Option<bool>)>)
    requires
        old(rt).wf(),
    ensures
        final(rt).wf(),
        *final(rt) == heard(*old(rt), answers@),
{
    let mut i: usize = 0;
    while i < answers.len()
        invariant
            i <= answers.len(),
            rt.wf(),
            *rt == heard(*old(rt), answers@.take(i as int)),
        decreases answers.len() - i,
    {
        let (target, muted) = answers[i];
        rt.audio_polled(target, muted);
        proof {
            let seen = answers@.take(i as int + 1);
            assert(seen.drop_last() =~= answers@.take(i as int));
            assert(seen.last() == answers@[i as int]);
        }
        i = i + 1;
    }
    assert(answers@.take(i as int) =~= answers@);
}

/// Whether events from OBS were applied, in order.
pub open spec fn is_told_all(rt: Runtime, events: Seq<ObsEvent>, now: u64, after: Runtime) -> bool
    decreases events.len(),
{
    if events.len() == 0 {
        after == rt
    } else {
        exists|mid: Runtime|
            is_told_all(rt, events.drop_last(), now, mid) && #[trigger] mid.is_told(
                events.last(),
                now,
                after,
            )
    }
}

/// Apply events from OBS.
fn tell(rt: &mut Runtime, events: Vec<ObsEvent>, now: u64)
    requires
        old(rt).wf(),
    ensures
        final(rt).wf(),
        is_told_all(*old(rt), events@, now, *final(rt)),
{
    let ghost all = events@;
    let mut rest = events;
    let ghost mut done: int = 0;
    while rest.len() > 0
        invariant
            0 <= done <= all.len(),
            rest@ == all.skip(done),
            rt.wf(),
            is_told_all(*old(rt), all.take(done), now, *rt),
        decreases rest.len(),
    {
        let event = rest.remove(0);
        assert(event == all[done]);
        let ghost mid = *rt;
        rt.on_obs_event(event, now);
        proof {
            assert(all.take(done + 1).drop_last() =~= all.take(done));
            assert(all.take(done + 1).last() == all[done]);
            assert(mid.is_told(all.take(done + 1).last(), now, *rt));
            done = done + 1;
            assert(rest@ =~= all.skip(done));
        }
    }
    assert(all.take(done) =~= all);
}

/// Whether a report of the deck was taken in: which keys were pressed, and what the
/// turn does about it.
pub open spec fn is_read(
    rt: Runtime,
    states: Option<Seq<bool>>,
    now: u64,
    after: Runtime,
    plan: TurnPlan,
) -> bool {
    exists|mid: Runtime, pressed: Seq<usize>|
        {
            &&& mid == (Runtime { prev_state: mid.prev_state, ..rt })
            &&& device::is_poll(states, rt.prev_state@, mid.prev_state@, pressed)
            &&& #[trigger] mid.is_planned(pressed, now, after, plan)
        }
}

/// The states that a report holds.
pub open spec fn report(states: Option<Vec<bool>>) -> Option<Seq<bool>> {
    match states {
        Some(s) => Some(s@),
        None => None,
    }
}

/// The keys of a run are keys of the deck, each later than the one before.
pub open spec fn is_run(run: Seq<usize>) -> bool {
    forall|i: int| 0 <= i < run.len() ==> i <= #[trigger] run[i] < KEY_COUNT
}

/// The `i`-th of ascending numbers is at least `i`.
proof fn ascending(pressed: Seq<usize>, i: int)
    requires
        forall|a: int, b: int| 0 <= a < b < pressed.len() ==> pressed[a] < pressed[b],
        0 <= i < pressed.len(),
    ensures
        i <= pressed[i],
    decreases i,
{
    if i > 0 {
        ascending(pressed, i - 1);
        assert(pressed[i - 1] < pressed[i]);
    }
}

/// Take in a report of the deck.
fn read(rt: &mut Runtime, states: Option<Vec<bool>>, now: u64) -> (plan: TurnPlan)
    requires
        old(rt).wf(),
    ensures
        final(rt).wf(),
        is_read(*old(rt), report(states), now, *final(rt), plan),
        is_run(plan.run@),
{
    let pressed = device::poll_presses(states.as_ref(), &mut rt.prev_state);
    let ghost polled = *rt;
    let ghost keys = pressed@;
    proof {
        assert forall|i: int| 0 <= i < keys.len() implies i <= #[trigger] keys[i] < KEY_COUNT by {
            ascending(keys, i);
        }
    }
    let plan = rt.on_presses(pressed, now);
    assert(polled.is_planned(keys, now, *rt, plan));
    plan
}

/// What follows once the backlight is seen to: the next press, else the mute state
/// where it is due, else OBS.
pub open spec fn is_continued(
    rt: Runtime,
    run: Seq<usize>,
    next: int,
    now: u64,
    turn: Turn,
    after: Runtime,
    action: LoopAction,
) -> bool {
    &&& turn.run@ == run
    &&& if next < run.len() {
        &&& turn.phase == Phase::Press
        &&& turn.next == next + 1
        &&& action is Perform
        &&& action->key == run[next]
        &&& rt.is_pressed(run[next], now, after, action->asked)
    } else {
        &&& turn.next == next
        &&& if rt.is_audio_due(now) {
            &&& turn.phase == Phase::Audio
            &&& action is PollAudio
            &&& action->PollAudio_0@ == rt.targets()
            &&& after == (Runtime { last_audio_poll: now, ..rt })
        } else {
            turn.phase == Phase::Obs && action is DrainObs && after == rt
        }
    }
}

/// What follows once the keys are to be painted: exactly those that changed are
/// uploaded.
pub open spec fn is_upload(rt: Runtime, now: u64, turn: Turn, action: LoopAction) -> bool {
    &&& turn.phase == Phase::Upload
    &&& rt.is_repaint(now, turn.uploads@)
    &&& action is Upload
    &&& action->Upload_0@ == turn.uploads@
}

/// What follows once images were tried to be queued: a flush exactly where one was,
/// else the next turn.
pub open spec fn is_flush(queued: bool, turn: Turn, action: LoopAction) -> bool {
    if queued {
        turn.phase == Phase::Flush && action is Flush
    } else {
        turn.phase == Phase::Resume && action is CheckResume
    }
}

/// Whether the turn went on from what came of its last action: the state of the turn
/// and of the runtime, and what to do next. Anything that the turn does not wait for
/// starts it over.
pub open spec fn is_step(
    turn: Turn,
    rt: Runtime,
    event: LoopEvent,
    now: u64,
    next: Turn,
    after: Runtime,
    action: LoopAction,
) -> bool {
    match (turn.phase, event) {
        (Phase::Start, LoopEvent::Polled(answers)) => {
            after == heard(rt, answers@) && is_upload(after, now, next, action)
        },
        (Phase::Resume, LoopEvent::Resumed(true)) => {
            &&& next.phase == Phase::Restore
            &&& action is Restore
            &&& action->polls@ == rt.targets()
            &&& (Runtime { last_audio_poll: now, ..rt }).is_restored(
                now,
                after,
                action->Restore_level,
            )
        },
        (Phase::Resume, LoopEvent::Resumed(false)) => {
            next.phase == Phase::Keys && action is ReadKeys && after == rt
        },
        (Phase::Restore, LoopEvent::Polled(answers)) => {
            next.phase == Phase::Keys && action is ReadKeys && after == heard(rt, answers@)
        },
        (Phase::Keys, LoopEvent::ReadFailed) => {
            next.phase == Phase::Reconnect && action is Reconnect && after == rt
        },
        (Phase::Reconnect, LoopEvent::Reconnected) => {
            &&& next.phase == Phase::Relight
            &&& action is Relight
            &&& rt.is_reconnected(now, after, action->Relight_0)
        },
        (Phase::Keys, LoopEvent::Keys(states)) => exists|mid: Runtime, plan: TurnPlan|
            {
                &&& #[trigger] is_read(rt, report(states), now, mid, plan)
                &&& match plan.display {
                    Some(d) if d != mid.display => {
                        &&& next.phase == Phase::Backlight(d)
                        &&& next.run@ == plan.run@
                        &&& next.next == 0
                        &&& action == (LoopAction::Backlight { display: d, level: mid.level(d) })
                        &&& after == mid
                    },
                    _ => is_continued(mid, plan.run@, 0, now, next, after, action),
                }
            },
        (Phase::Backlight(d), LoopEvent::BacklightSet(worked)) => exists|mid: Runtime|
            {
                &&& if worked {
                    rt.is_shown_at(d, mid)
                } else {
                    mid == rt
                }
                &&& #[trigger] is_continued(
                    mid,
                    turn.run@,
                    turn.next as int,
                    now,
                    next,
                    after,
                    action,
                )
            },
        (Phase::Press, LoopEvent::Performed { failed }) => exists|mid: Runtime|
            {
                &&& if failed {
                    rt.is_flashed(turn.run@[turn.next - 1] as int, now, mid)
                } else {
                    mid == rt
                }
                &&& #[trigger] is_continued(
                    mid,
                    turn.run@,
                    turn.next as int,
                    now,
                    next,
                    after,
                    action,
                )
            },
        (Phase::Audio, LoopEvent::Polled(answers)) => {
            next.phase == Phase::Obs && action is DrainObs && after == heard(rt, answers@)
        },
        (Phase::Obs, LoopEvent::Told(events)) => exists|mid: Runtime|
            {
                &&& #[trigger] is_told_all(rt, events@, now, mid)
                &&& next.phase == Phase::Paint(mid.paints())
                &&& action == LoopAction::Paint(mid.paints())
                &&& after == mid
            },
        (Phase::Paint(Painting::Rain), LoopEvent::Drawn(queued)) => {
            after == rt && is_flush(queued, next, action)
        },
        (Phase::Paint(Painting::Keys), LoopEvent::Sampled) => {
            rt.is_expired(now, after) && is_upload(after, now, next, action)
        },
        (Phase::Upload, LoopEvent::Uploaded(queued)) => {
            &&& after == (Runtime { last_visual: after.last_visual, ..rt })
            &&& after.last_visual@ == runtime::painted(rt.last_visual@, turn.uploads@, queued@)
            &&& is_flush(runtime::any_queued(turn.uploads@, queued@), next, action)
        },
        (Phase::Flush, LoopEvent::Flushed(worked)) => {
            &&& rt.is_flushed(worked, after)
            &&& next.phase == Phase::Resume
            &&& action is CheckResume
        },
        _ => next.phase == Phase::Resume && action is CheckResume && after == rt,
    }
}

/// A copy of a list of uploads.
fn copied(uploads: &Vec<(usize, Visual)>) -> (r: Vec<(usize, Visual)>)
    ensures
        r@ == uploads@,
{
    let mut out: Vec<(usize, Visual)> = Vec::new();
    let mut i: usize = 0;
    while i < uploads.len()
        invariant
            i <= uploads.len(),
            out@ == uploads@.take(i as int),
        decreases uploads.len() - i,
    {
        out.push(uploads[i]);
        assert(uploads@.take(i + 1) =~= uploads@.take(i as int).push(uploads@[i as int]));
        i = i + 1;
    }
    assert(uploads@.take(i as int) =~= uploads@);
    out
}

impl Turn {
    /// The keys of the run and of the uploads are keys of the deck, and a press that is
    /// seen to is one of them.
    pub open spec fn wf(self) -> bool {
        &&& forall|a: int|
            0 <= a < self.uploads.len() ==> (#[trigger] self.uploads@[a]).0 < KEY_COUNT
        &&& is_run(self.run@)
        &&& self.next <= self.run.len()
        &&& self.phase == Phase::Press ==> self.next > 0
    }

    /// How many steps a turn takes at most until the next turn starts.
    pub open spec fn left(self) -> int {
        match self.phase {
            Phase::Start => 3,
            Phase::Resume => KEY_COUNT + 10,
            Phase::Restore => KEY_COUNT + 9,
            Phase::Keys => KEY_COUNT + 8,
            Phase::Reconnect => 2,
            Phase::Relight => 1,
            Phase::Backlight(_) => self.run.len() - self.next + 7,
            Phase::Press => self.run.len() - self.next + 6,
            Phase::Audio => 5,
            Phase::Obs => 4,
            Phase::Paint(_) => 3,
            Phase::Upload => 2,
            Phase::Flush => 1,
        }
    }

    /// A turn begins with a look whether the machine resumed from sleep.
    pub fn new() -> (r: Turn)
        ensures
            r.wf(),
            r.phase == Phase::Resume,
    {
        Turn { phase: Phase::Resume, run: Vec::new(), next: 0, uploads: Vec::new() }
    }

    /// How the loop starts: mute state is read and the keys are painted before input
    /// is first waited for.
    pub fn start(rt: &mut Runtime, now: u64) -> (r: (Turn, LoopAction))
        requires
            old(rt).wf(),
        ensures
            final(rt).wf(),
            *final(rt) == (Runtime { last_audio_poll: now, ..*old(rt) }),
            r.0.wf(),
            r.0.phase == Phase::Start,
            r.1 is PollAudio,
            r.1->PollAudio_0@ == old(rt).targets(),
    {
        let mut turn = Turn::new();
        turn.phase = Phase::Start;
        (turn, LoopAction::PollAudio(rt.refresh_audio(now)))
    }

    /// Upload the keys that changed.
    fn upload(&mut self, rt: &Runtime, now: u64) -> (r: LoopAction)
        requires
            old(self).wf(),
            rt.wf(),
        ensures
            final(self).wf(),
            is_upload(*rt, now, *final(self), r),
    {
        self.uploads = rt.repaint(now);
        self.phase = Phase::Upload;
        LoopAction::Upload(copied(&self.uploads))
    }

    /// What follows once images were tried to be queued.
    fn after_queueing(&mut self, queued: bool) -> (r: LoopAction)
        requires
            old(self).wf(),
        ensures
            final(self).wf(),
            is_flush(queued, *final(self), r),
    {
        if queued {
            self.phase = Phase::Flush;
            LoopAction::Flush
        } else {
            self.phase = Phase::Resume;
            LoopAction::CheckResume
        }
    }

    /// What follows once the backlight is seen to.
    fn go_on(&mut self, rt: &mut Runtime, now: u64) -> (r: LoopAction)
        requires
            forall|a: int|
                0 <= a < old(self).uploads.len() ==> (#[trigger] old(self).uploads@[a]).0
                    < KEY_COUNT,
            is_run(old(self).run@),
            old(self).next <= old(self).run.len(),
            old(rt).wf(),
        ensures
            final(self).wf(),
            final(rt).wf(),
            is_continued(
                *old(rt),
                old(self).run@,
                old(self).next as int,
                now,
                *final(self),
                *final(rt),
                r,
            ),
    {
        if self.next < self.run.len() {
            let key = self.run[self.next];
            self.next = self.next + 1;
            self.phase = Phase::Press;
            let asked = rt.on_press(key, now);
            return LoopAction::Perform { key, asked };
        }
        if rt.audio_due(now) {
            self.phase = Phase::Audio;
            return LoopAction::PollAudio(rt.refresh_audio(now));
        }
        self.phase = Phase::Obs;
        LoopAction::DrainObs
    }

    /// What to do next, from what came of the last action.
    pub fn step(&mut self, rt: &mut Runtime, event: LoopEvent, now: u64) -> (r: LoopAction)
        requires
            old(self).wf(),
            old(rt).wf(),
        ensures
            final(self).wf(),
            final(rt).wf(),
            is_step(*old(self), *old(rt), event, now, *final(self), *final(rt), r),
    {
        match (self.phase, event) {
            (Phase::Start, LoopEvent::Polled(answers)) => {
                hear(rt, &answers);
                self.upload(rt, now)
            },
            (Phase::Resume, LoopEvent::Resumed(true)) => {
                self.phase = Phase::Restore;
                let level = rt.restore_display(now);
                let polls = rt.refresh_audio(now);
                LoopAction::Restore { level, polls }
            },
            (Phase::Resume, LoopEvent::Resumed(false)) => {
                self.phase = Phase::Keys;
                LoopAction::ReadKeys
            },
            (Phase::Restore, LoopEvent::Polled(answers)) => {
                hear(rt, &answers);
                self.phase = Phase::Keys;
                LoopAction::ReadKeys
            },
            (Phase::Keys, LoopEvent::ReadFailed) => {
                self.phase = Phase::Reconnect;
                LoopAction::Reconnect
            },
            (Phase::Reconnect, LoopEvent::Reconnected) => {
                self.phase = Phase::Relight;
                LoopAction::Relight(rt.on_reconnect(now))
            },
            (Phase::Keys, LoopEvent::Keys(states)) => {
                let plan = read(rt, states, now);
                let ghost mid = *rt;
                let ghost planned = plan;
                assert(is_read(*old(rt), report(states), now, mid, planned));
                self.run = plan.run;
                self.next = 0;
                if let Some(d) = plan.display {
                    if let Some(level) = rt.brightness_for(d) {
                        self.phase = Phase::Backlight(d);
                        return LoopAction::Backlight { display: d, level };
                    }
                }
                self.go_on(rt, now)
            },
            (Phase::Backlight(d), LoopEvent::BacklightSet(worked)) => {
                if worked {
                    rt.display_set(d);
                }
                self.go_on(rt, now)
            },
            (Phase::Press, LoopEvent::Performed { failed }) => {
                if failed {
                    rt.flash_error(self.run[self.next - 1], now);
                }
                self.go_on(rt, now)
            },
            (Phase::Audio, LoopEvent::Polled(answers)) => {
                hear(rt, &answers);
                self.phase = Phase::Obs;
                LoopAction::DrainObs
            },
            (Phase::Obs, LoopEvent::Told(events)) => {
                let ghost told = events@;
                tell(rt, events, now);
                let ghost mid = *rt;
                assert(is_told_all(*old(rt), told, now, mid));
                let painting = rt.painting();
                self.phase = Phase::Paint(painting);
                LoopAction::Paint(painting)
            },
            (Phase::Paint(Painting::Rain), LoopEvent::Drawn(queued)) => self.after_queueing(queued),
            (Phase::Paint(Painting::Keys), LoopEvent::Sampled) => {
                rt.expire_flashes(now);
                self.upload(rt, now)
            },
            (Phase::Upload, LoopEvent::Uploaded(queued)) => {
                let dirty = rt.uploaded(&self.uploads, &queued);
                self.after_queueing(dirty)
            },
            (Phase::Flush, LoopEvent::Flushed(worked)) => {
                rt.flushed(worked);
                self.phase = Phase::Resume;
                LoopAction::CheckResume
            },
            _ => {
                self.phase = Phase::Resume;
                LoopAction::CheckResume
            },
        }
    }
}

/// Every turn comes to its end: each step leaves fewer to go, until the next turn
/// starts.
pub proof fn every_turn_ends(
    turn: Turn,
    rt: Runtime,
    event: LoopEvent,
    now: u64,
    next: Turn,
    after: Runtime,
    action: LoopAction,
)
    requires
        turn.wf(),
        next.wf(),
        is_step(turn, rt, event, now, next, after, action),
    ensures
        next.phase == Phase::Resume || 0 < next.left() < turn.left(),
        next.phase == Phase::Resume <==> action is CheckResume,
{
    if next.run.len() > KEY_COUNT {
        assert(KEY_COUNT <= next.run@[KEY_COUNT as int]);
    }
}

/// While the deck is off, a press does not trigger its action: none runs in the turn
/// that reads it. Unless the deck was put to sleep, all that the press comes to is
/// waking it.
pub proof fn waking_press_is_consumed(
    turn: Turn,
    rt: Runtime,
    states: Option<Vec<bool>>,
    now: u64,
    next: Turn,
    after: Runtime,
    action: LoopAction,
)
    requires
        turn.phase == Phase::Keys,
        rt.display == Display::Blanked,
        states is Some,
        exists|k: int| device::rises(states->0@, rt.prev_state@, k),
        is_step(turn, rt, LoopEvent::Keys(states), now, next, after, action),
    ensures
        next.run@.len() == 0,
        !(action is Perform),
        !rt.slept ==> action == (LoopAction::Backlight {
            display: Display::Full,
            level: rt.brightness,
        }) && !after.slept,
{
}

/// Whether a report of the deck shows a newly pressed Sleep key.
pub open spec fn sleep_key_rises(rt: Runtime, states: Option<Vec<bool>>) -> bool {
    exists|k: int|
        states is Some && #[trigger] device::rises(states->0@, rt.prev_state@, k) && rt.sleeps(k)
}

/// While the deck is put to sleep only a Sleep key wakes it: other presses change
/// neither the backlight nor the sleep, and run nothing.
pub proof fn only_a_sleep_key_wakes(
    turn: Turn,
    rt: Runtime,
    states: Option<Vec<bool>>,
    now: u64,
    next: Turn,
    after: Runtime,
    action: LoopAction,
)
    requires
        turn.phase == Phase::Keys,
        rt.wf(),
        rt.slept,
        rt.display == Display::Blanked,
        is_step(turn, rt, LoopEvent::Keys(states), now, next, after, action),
    ensures
        next.run@.len() == 0,
        !(action is Perform),
        sleep_key_rises(rt, states) ==> !after.slept && action == (LoopAction::Backlight {
            display: Display::Full,
            level: rt.brightness,
        }),
        !sleep_key_rises(rt, states) ==> after.slept && after.display == Display::Blanked && !(
        action is Backlight),
{
    let (mid, plan) = choose|mid: Runtime, plan: TurnPlan|
        #[trigger] is_read(rt, report(states), now, mid, plan) && match plan.display {
            Some(d) if d != mid.display => {
                &&& next.phase == Phase::Backlight(d)
                &&& next.run@ == plan.run@
                &&& next.next == 0
                &&& action == (LoopAction::Backlight { display: d, level: mid.level(d) })
                &&& after == mid
            },
            _ => is_continued(mid, plan.run@, 0, now, next, after, action),
        };
    let (polled, pressed) = choose|polled: Runtime, pressed: Seq<usize>|
        {
            &&& polled == (Runtime { prev_state: polled.prev_state, ..rt })
            &&& device::is_poll(report(states), rt.prev_state@, polled.prev_state@, pressed)
            &&& #[trigger] polled.is_planned(pressed, now, mid, plan)
        };
    if sleep_key_rises(rt, states) {
        let k = choose|k: int|
            states is Some && #[trigger] device::rises(states->0@, rt.prev_state@, k) && rt.sleeps(
                k,
            );
        assert(pressed.contains(k as usize));
        let i = choose|i: int| 0 <= i < pressed.len() && pressed[i] == k as usize;
        assert(polled.sleeps(pressed[i] as int));
    } else if polled.sleep_pressed(pressed) {
        let i = choose|i: int|
            0 <= i < pressed.len() && polled.sleeps(#[trigger] pressed[i] as int);
        assert(device::rises(states->0@, rt.prev_state@, pressed[i] as int));
        assert(rt.sleeps(pressed[i] as int));
    }
}

/// While the deck is blanked nothing is painted, and the keys are painted only while
/// they are what the deck shows.
pub proof fn blanked_deck_is_frozen(
    turn: Turn,
    rt: Runtime,
    event: LoopEvent,
    now: u64,
    next: Turn,
    after: Runtime,
    action: LoopAction,
)
    requires
        is_step(turn, rt, event, now, next, after, action),
        action is Paint,
    ensures
        action->Paint_0 == after.paints(),
        next.phase == Phase::Paint(after.paints()),
        action->Paint_0 == Painting::Nothing <==> after.display == Display::Blanked,
{
}

/// Images are sent to the deck exactly where one was queued, and where that fails the
/// next pass sends everything again.
pub proof fn flush_follows_what_was_queued(
    turn: Turn,
    rt: Runtime,
    event: LoopEvent,
    now: u64,
    next: Turn,
    after: Runtime,
    action: LoopAction,
)
    requires
        is_step(turn, rt, event, now, next, after, action),
    ensures
        action is Flush ==> turn.phase == Phase::Upload || turn.phase == Phase::Paint(
            Painting::Rain,
        ),
        turn.phase == Phase::Upload && event is Uploaded ==> (action is Flush
            <==> runtime::any_queued(turn.uploads@, event->Uploaded_0@)),
        turn.phase == Phase::Flush && event == LoopEvent::Flushed(false) ==> after.all_stale(),
{
}

// --- Laws of the order of a turn -------------------------------------------

/// Polls are heard in order, the last one last.
pub proof fn polls_are_heard_in_order(
    rt: Runtime,
    answers: Seq<(Target, Option<bool>)>,
    target: Target,
    muted: Option<bool>,
)
    ensures
        heard(rt, Seq::empty()) == rt,
        heard(rt, answers.push((target, muted))) == heard(rt, answers).polled(target, muted),
        heard(rt, seq![(target, muted)]) == rt.polled(target, muted),
{
    assert(answers.push((target, muted)).drop_last() =~= answers);
    let one = seq![(target, muted)];
    assert(one.drop_last() =~= Seq::<(Target, Option<bool>)>::empty());
    reveal_with_fuel(heard, 2);
}

/// What OBS tells is applied in order, each event to what the ones before it left.
pub proof fn events_are_applied_in_order(
    rt: Runtime,
    events: Seq<ObsEvent>,
    event: ObsEvent,
    now: u64,
    after: Runtime,
)
    ensures
        is_told_all(rt, Seq::empty(), now, after) <==> after == rt,
        is_told_all(rt, events.push(event), now, after) <==> exists|mid: Runtime|
            is_told_all(rt, events, now, mid) && #[trigger] mid.is_told(event, now, after),
        is_told_all(rt, seq![event], now, after) <==> rt.is_told(event, now, after),
{
    let all = events.push(event);
    assert(all.drop_last() =~= events);
    assert(all.last() == event);
    if is_told_all(rt, all, now, after) {
        let mid = choose|mid: Runtime|
            is_told_all(rt, all.drop_last(), now, mid) && #[trigger] mid.is_told(
                all.last(),
                now,
                after,
            );
        assert(mid.is_told(event, now, after));
    }
    if exists|mid: Runtime|
        is_told_all(rt, events, now, mid) && #[trigger] mid.is_told(event, now, after) {
        let mid = choose|mid: Runtime|
            is_told_all(rt, events, now, mid) && #[trigger] mid.is_told(event, now, after);
        assert(is_told_all(rt, all.drop_last(), now, mid) && mid.is_told(all.last(), now, after));
    }
    let one = seq![event];
    assert(one.drop_last() =~= Seq::<ObsEvent>::empty());
    reveal_with_fuel(is_told_all, 2);
    if rt.is_told(event, now, after) {
        assert(is_told_all(rt, one.drop_last(), now, rt));
        assert(rt.is_told(one.last(), now, after));
    }
}

/// A turn goes from the resume to the keys, from there by the presses to the mute
/// state where it is due and to OBS, and then to painting; a deck that cannot be read
/// is opened again, and the turn then starts over.
pub proof fn turns_go_in_order(
    turn: Turn,
    rt: Runtime,
    event: LoopEvent,
    now: u64,
    next: Turn,
    after: Runtime,
    action: LoopAction,
)
    requires
        is_step(turn, rt, event, now, next, after, action),
    ensures
        turn.phase == Phase::Resume && event == LoopEvent::Resumed(false) ==> action is ReadKeys
            && next.phase == Phase::Keys,
        turn.phase == Phase::Resume && event == LoopEvent::Resumed(true) ==> action is Restore
            && next.phase == Phase::Restore,
        turn.phase == Phase::Restore && event is Polled ==> action is ReadKeys && next.phase
            == Phase::Keys,
        turn.phase == Phase::Keys && event is ReadFailed ==> action is Reconnect && next.phase
            == Phase::Reconnect,
        turn.phase == Phase::Reconnect && event is Reconnected ==> action is Relight && next.phase
            == Phase::Relight,
        turn.phase == Phase::Relight ==> action is CheckResume && next.phase == Phase::Resume,
        turn.phase == Phase::Audio && event is Polled ==> action is DrainObs && next.phase
            == Phase::Obs,
        turn.phase == Phase::Obs && event is Told ==> action is Paint,
        turn.phase == Phase::Start && event is Polled ==> action is Upload && next.phase
            == Phase::Upload,
        turn.phase == Phase::Paint(Painting::Keys) && event is Sampled ==> action is Upload
            && next.phase == Phase::Upload,
        turn.phase == Phase::Paint(Painting::Rain) && event is Drawn ==> (action is Flush
            <==> event == LoopEvent::Drawn(true)),
        turn.phase == Phase::Paint(Painting::Nothing) ==> action is CheckResume,
        turn.phase == Phase::Flush && event is Flushed ==> action is CheckResume && next.phase
            == Phase::Resume,
{
}

/// A resume restores the backlight: a deck that was put to sleep stays dark, any other
/// wakes at full brightness; the mute states that are used are read again.
pub proof fn resuming_restores(
    turn: Turn,
    rt: Runtime,
    now: u64,
    next: Turn,
    after: Runtime,
    action: LoopAction,
)
    requires
        turn.phase == Phase::Resume,
        is_step(turn, rt, LoopEvent::Resumed(true), now, next, after, action),
    ensures
        action is Restore,
        action->polls@ == rt.targets(),
        rt.slept ==> action->Restore_level == 0 && after.display == Display::Blanked,
        !rt.slept ==> action->Restore_level == rt.brightness && after.display == Display::Full,
        after.slept == rt.slept,
        after.last_audio_poll == now,
{
}

/// A deck that was opened again is lit as it was meant to be, with no key held.
pub proof fn reconnecting_restores(
    turn: Turn,
    rt: Runtime,
    now: u64,
    next: Turn,
    after: Runtime,
    action: LoopAction,
    k: int,
)
    requires
        turn.phase == Phase::Reconnect,
        is_step(turn, rt, LoopEvent::Reconnected, now, next, after, action),
        0 <= k < KEY_COUNT,
    ensures
        rt.slept ==> action == LoopAction::Relight(0),
        !rt.slept ==> action == LoopAction::Relight(rt.brightness),
        !after.prev_state@[k],
        after.slept == rt.slept,
{
}

/// The pressed keys are seen to one after the other; then the mute state is read
/// where it is due, and OBS is listened to.
pub proof fn presses_are_seen_to_in_order(
    turn: Turn,
    rt: Runtime,
    failed: bool,
    now: u64,
    next: Turn,
    after: Runtime,
    action: LoopAction,
)
    requires
        turn.phase == Phase::Press,
        is_step(turn, rt, LoopEvent::Performed { failed }, now, next, after, action),
    ensures
        next.run@ == turn.run@,
        turn.next < turn.run@.len() ==> action is Perform && action->key == turn.run@[turn.next as int]
            && next.next == turn.next + 1 && next.phase == Phase::Press,
        turn.next >= turn.run@.len() && now >= rt.last_audio_poll + 250 ==> action is PollAudio
            && action->PollAudio_0@ == rt.targets() && next.phase == Phase::Audio,
        turn.next >= turn.run@.len() && now < rt.last_audio_poll + 250 ==> action is DrainObs
            && next.phase == Phase::Obs,
        after.keys == rt.keys,
        after.display == rt.display,
{
}

/// An action that failed flashes on the key it was for.
pub proof fn failed_actions_flash(
    turn: Turn,
    rt: Runtime,
    now: u64,
    next: Turn,
    after: Runtime,
    action: LoopAction,
)
    requires
        turn.wf(),
        rt.wf(),
        turn.phase == Phase::Press,
        turn.next == turn.run@.len(),
        now + 800 <= u64::MAX,
        is_step(turn, rt, LoopEvent::Performed { failed: true }, now, next, after, action),
    ensures
        after.visual(turn.run@[turn.next - 1] as int, now) == Visual::Error,
{
    let mid = choose|mid: Runtime|
        {
            &&& rt.is_flashed(turn.run@[turn.next - 1] as int, now, mid)
            &&& #[trigger] is_continued(
                mid,
                turn.run@,
                turn.next as int,
                now,
                next,
                after,
                action,
            )
        };
    let key = turn.run@[turn.next - 1];
    assert(key < KEY_COUNT);
    assert(mid.error_until@[key as int] is Some);
    assert(after.error_until == mid.error_until);
}

/// A backlight state counts once it could be set, and not where that failed, so that
/// it is tried again.
pub proof fn backlight_counts_once_set(
    turn: Turn,
    rt: Runtime,
    d: Display,
    worked: bool,
    now: u64,
    next: Turn,
    after: Runtime,
    action: LoopAction,
)
    requires
        turn.phase == Phase::Backlight(d),
        is_step(turn, rt, LoopEvent::BacklightSet(worked), now, next, after, action),
    ensures
        worked ==> after.display == d,
        !worked ==> after.display == rt.display,
        after.slept == rt.slept,
        next.run@ == turn.run@,
{
}

/// On an awake deck the keys that went down run, unless a sleep key is among them:
/// all of them, in ascending order, the first right away where the backlight is full
/// already.
pub proof fn pressed_keys_run(
    turn: Turn,
    rt: Runtime,
    states: Vec<bool>,
    now: u64,
    next: Turn,
    after: Runtime,
    action: LoopAction,
    k: usize,
)
    requires
        turn.phase == Phase::Keys,
        rt.wf(),
        rt.display != Display::Blanked,
        states@.len() == KEY_COUNT,
        is_step(turn, rt, LoopEvent::Keys(Some(states)), now, next, after, action),
        !sleep_key_rises(rt, Some(states)),
        k < KEY_COUNT,
        states@[k as int],
        !rt.prev_state@[k as int],
    ensures
        next.run@.contains(k),
        forall|j: usize|
            #[trigger] next.run@.contains(j) ==> j < KEY_COUNT && states@[j as int]
                && !rt.prev_state@[j as int],
        forall|i: int, j: int| 0 <= i < j < next.run@.len() ==> next.run@[i] < next.run@[j],
        rt.display == Display::Full ==> action is Perform && action->key == next.run@[0],
        rt.display != Display::Full ==> action == (LoopAction::Backlight {
            display: Display::Full,
            level: rt.brightness,
        }),
        after.prev_state@[k as int],
        after.last_input == now,
{
    let reported = Some(states);
    let (mid, plan) = choose|mid: Runtime, plan: TurnPlan|
        #[trigger] is_read(rt, report(reported), now, mid, plan) && match plan.display {
            Some(d) if d != mid.display => {
                &&& next.phase == Phase::Backlight(d)
                &&& next.run@ == plan.run@
                &&& next.next == 0
                &&& action == (LoopAction::Backlight { display: d, level: mid.level(d) })
                &&& after == mid
            },
            _ => is_continued(mid, plan.run@, 0, now, next, after, action),
        };
    let (polled, pressed) = choose|polled: Runtime, pressed: Seq<usize>|
        {
            &&& polled == (Runtime { prev_state: polled.prev_state, ..rt })
            &&& device::is_poll(report(reported), rt.prev_state@, polled.prev_state@, pressed)
            &&& #[trigger] polled.is_planned(pressed, now, mid, plan)
        };
    assert forall|j: usize| #[trigger] pressed.contains(j) implies j < KEY_COUNT
        && states@[j as int] && !rt.prev_state@[j as int] by {
        let i = choose|i: int| 0 <= i < pressed.len() && pressed[i] == j;
        assert(device::rises(states@, rt.prev_state@, pressed[i] as int));
    }
    device::presses_are_rising_edges(states@, rt.prev_state@, polled.prev_state@, pressed, k);
    assert(pressed.len() > 0);
    if polled.sleep_pressed(pressed) {
        let i = choose|i: int|
            0 <= i < pressed.len() && polled.sleeps(#[trigger] pressed[i] as int);
        assert(device::rises(states@, rt.prev_state@, pressed[i] as int));
        assert(rt.sleeps(pressed[i] as int));
    }
    assert(plan.run@ == pressed);
}

/// A sleep key that goes down on an awake deck puts it to sleep: the backlight goes
/// off, and nothing runs.
pub proof fn a_sleep_key_puts_to_sleep(
    turn: Turn,
    rt: Runtime,
    states: Vec<bool>,
    now: u64,
    next: Turn,
    after: Runtime,
    action: LoopAction,
)
    requires
        turn.phase == Phase::Keys,
        rt.wf(),
        rt.display != Display::Blanked,
        is_step(turn, rt, LoopEvent::Keys(Some(states)), now, next, after, action),
        sleep_key_rises(rt, Some(states)),
    ensures
        action == (LoopAction::Backlight { display: Display::Blanked, level: 0 }),
        after.slept,
        next.run@.len() == 0,
{
    let reported = Some(states);
    let (mid, plan) = choose|mid: Runtime, plan: TurnPlan|
        #[trigger] is_read(rt, report(reported), now, mid, plan) && match plan.display {
            Some(d) if d != mid.display => {
                &&& next.phase == Phase::Backlight(d)
                &&& next.run@ == plan.run@
                &&& next.next == 0
                &&& action == (LoopAction::Backlight { display: d, level: mid.level(d) })
                &&& after == mid
            },
            _ => is_continued(mid, plan.run@, 0, now, next, after, action),
        };
    let (polled, pressed) = choose|polled: Runtime, pressed: Seq<usize>|
        {
            &&& polled == (Runtime { prev_state: polled.prev_state, ..rt })
            &&& device::is_poll(report(reported), rt.prev_state@, polled.prev_state@, pressed)
            &&& #[trigger] polled.is_planned(pressed, now, mid, plan)
        };
    let k = choose|k: int|
        #[trigger] device::rises(states@, rt.prev_state@, k) && rt.sleeps(k);
    assert(pressed.contains(k as usize));
    let i = choose|i: int| 0 <= i < pressed.len() && pressed[i] == k as usize;
    assert(polled.sleeps(pressed[i] as int));
}

/// What came of an action is taken in: polls that came back, and all that OBS told.
pub proof fn news_are_taken_in(
    turn: Turn,
    rt: Runtime,
    event: LoopEvent,
    now: u64,
    next: Turn,
    after: Runtime,
    action: LoopAction,
)
    requires
        is_step(turn, rt, event, now, next, after, action),
    ensures
        (turn.phase == Phase::Start || turn.phase == Phase::Restore || turn.phase == Phase::Audio)
            && event is Polled ==> after == heard(rt, event->Polled_0@),
        turn.phase == Phase::Obs && event is Told ==> is_told_all(rt, event->Told_0@, now, after),
{
}

/// The keys that are uploaded are those that changed, each with what it is to show,
/// once the flashes that are over are gone.
pub proof fn uploads_are_what_changed(
    turn: Turn,
    rt: Runtime,
    event: LoopEvent,
    now: u64,
    next: Turn,
    after: Runtime,
    action: LoopAction,
    i: usize,
)
    requires
        is_step(turn, rt, event, now, next, after, action),
        turn.phase == Phase::Start && event is Polled || turn.phase == Phase::Paint(Painting::Keys)
            && event is Sampled,
        i < KEY_COUNT,
    ensures
        action is Upload,
        next.uploads@ == action->Upload_0@,
        after.last_visual@[i as int] != Some(after.visual(i as int, now))
            <==> action->Upload_0@.contains((i, after.visual(i as int, now))),
        turn.phase == Phase::Paint(Painting::Keys) ==> rt.is_expired(now, after),
{
    let shown = after.visual(i as int, now);
    runtime::repaints_are_what_changed(after, now, next.uploads@, i);
    if after.last_visual@[i as int] != Some(shown) {
        let a = choose|a: int|
            0 <= a < next.uploads@.len() && #[trigger] next.uploads@[a] == (i, shown);
        assert(next.uploads@[a] == (i, shown));
    }
}

/// A key whose image was queued is not uploaded again until it changes, and one whose
/// image was not is as it was before.
pub proof fn queued_keys_are_done(
    turn: Turn,
    rt: Runtime,
    queued: Vec<bool>,
    now: u64,
    next: Turn,
    after: Runtime,
    action: LoopAction,
    a: int,
)
    requires
        rt.wf(),
        turn.phase == Phase::Upload,
        rt.is_repaint(now, turn.uploads@),
        is_step(turn, rt, LoopEvent::Uploaded(queued), now, next, after, action),
        0 <= a < turn.uploads@.len(),
        a < queued@.len(),
    ensures
        queued@[a] ==> !after.is_stale(turn.uploads@[a].0 as int, now) && action is Flush,
        !queued@[a] ==> after.last_visual@[turn.uploads@[a].0 as int]
            == rt.last_visual@[turn.uploads@[a].0 as int],
{
    runtime::painting_settles(
        rt,
        turn.uploads@,
        queued@,
        after,
        turn.uploads@[a].0 as int,
        now,
    );
    if queued@[a] {
        assert(runtime::is_queued(queued@, a));
    }
}

/// What is performed for a key is what a press of that key comes to.
pub proof fn performed_is_what_was_asked(
    turn: Turn,
    rt: Runtime,
    event: LoopEvent,
    now: u64,
    next: Turn,
    after: Runtime,
    action: LoopAction,
)
    requires
        is_step(turn, rt, event, now, next, after, action),
        action is Perform,
    ensures
        after.is_dispatch(action->key, action->asked),
        next.next > 0,
        action->key == next.run@[next.next - 1],
        next.phase == Phase::Press,
{
    match (turn.phase, event) {
        (Phase::Keys, LoopEvent::Keys(states)) => {
            let (mid, plan) = choose|mid: Runtime, plan: TurnPlan|
                #[trigger] is_read(rt, report(states), now, mid, plan) && match plan.display {
                    Some(d) if d != mid.display => {
                        &&& next.phase == Phase::Backlight(d)
                        &&& next.run@ == plan.run@
                        &&& next.next == 0
                        &&& action == (LoopAction::Backlight { display: d, level: mid.level(d) })
                        &&& after == mid
                    },
                    _ => is_continued(mid, plan.run@, 0, now, next, after, action),
                };
            assert(mid.is_dispatch(action->key, action->asked));
        },
        _ => {},
    }
}

} // verus!
