//! The run of a change of level, one decision at a time.
//!
//! The engine never touches the device, the clock or the desktop. It says what
//! is to be done next (a `Command`), the caller does it and reports what
//! happened (an `Event`), and the engine decides again. Each step is written,
//! then shown, then paced, strictly in that order; a write that fails ends the
//! run, and nothing else does. A run that ends, either way, first stores the
//! identity of the notification that it has shown.

use crate::transition::as_ints;
use crate::transition::interval;
use crate::transition::interval_for;
use crate::transition::lemma_interval_bounds;
use crate::transition::interval_spec;
use crate::transition::steps;
use crate::transition::steps_spec;
use crate::util::clamp;
use crate::util::clamp_int;
use vstd::prelude::*;

verus! {

/// What the caller is to do next.
#[derive(Clone, Copy, Debug, PartialEq, Eq)]
pub enum Command {
    /// Write `native` to the device, and report `Written` or `WriteFailed`.
    Write { native: i32 },
    /// Show the level `native`, in place of the notification `reuse` where
    /// there is one, and report `Notified` or `NotifyFailed`.
    Notify { native: i32, reuse: Option<u32> },
    /// Report the time since the run began, as `Elapsed`.
    Clock,
    /// Wait for `micros` microseconds, and report `Slept`.
    Sleep { micros: u128 },
    /// Store `id` where the next run will find it, and report `Persisted`.
    Persist { id: u32 },
    /// The change is complete.
    Done,
    /// The device refused a write: give the change up and report the failure.
    Abort,
}

/// What happened when the caller did as it was told.
#[derive(Clone, Copy, Debug, PartialEq, Eq)]
pub enum Event {
    /// The device took the value.
    Written,
    /// The device did not take the value.
    WriteFailed,
    /// The level was shown, in the notification `id`.
    Notified { id: u32 },
    /// The level could not be shown.
    NotifyFailed,
    /// `micros` microseconds have passed since the run began.
    Elapsed { micros: u128 },
    /// The wait is over.
    Slept,
    /// The identity was stored, or could not be: the run goes on either way.
    Persisted,
}

/// What the engine is waiting for.
#[derive(Clone, Copy, Debug, PartialEq, Eq)]
pub enum Phase {
    /// A step is being written.
    Writing,
    /// The step that was written is being shown.
    Notifying,
    /// The time since the start is being taken.
    Timing,
    /// The caller is waiting until the step's time is up.
    Sleeping,
    /// The notification's identity is being stored after the last step.
    Saving,
    /// The notification's identity is being stored after a write that failed.
    Salvaging,
    /// Every step was written.
    Finished,
    /// A write failed.
    Failed,
}

/// The engine as a mathematical value.
pub struct State {
    /// The values to write, in order.
    pub steps: Seq<i32>,
    /// The time from one write to the next, in microseconds, if the change is
    /// paced.
    pub interval: Option<int>,
    /// Whether nothing is to be shown.
    pub quiet: bool,
    /// The notification to replace: the one of an earlier run, until this run
    /// has shown one of its own.
    pub id: Option<u32>,
    /// Whether `id` is a notification that this run has shown.
    pub captured: bool,
    /// How many steps the device has taken.
    pub done: nat,
    /// How long the caller is waiting, in microseconds, while it is.
    pub pause: int,
    /// What the engine is waiting for.
    pub phase: Phase,
}

impl State {
    /// The state is one that a run can be in.
    pub open spec fn wf(self) -> bool {
        &&& self.done <= self.steps.len()
        &&& self.steps.len() <= u32::MAX
        &&& self.interval is Some ==> 0 <= self.interval->0 <= u64::MAX * 1000
        &&& self.captured ==> self.id is Some && !self.quiet
        &&& match self.phase {
            Phase::Writing => self.done < self.steps.len(),
            Phase::Notifying => 1 <= self.done && !self.quiet,
            Phase::Timing => 1 <= self.done && self.interval is Some,
            Phase::Sleeping => 1 <= self.done && self.interval is Some && 0 < self.pause
                <= self.deadline(),
            Phase::Saving => self.done == self.steps.len() && self.captured,
            Phase::Salvaging => self.done < self.steps.len() && self.captured,
            Phase::Finished => self.done == self.steps.len(),
            Phase::Failed => self.done < self.steps.len(),
        }
    }

    /// The run is paced for a change that is to take `millis` milliseconds:
    /// it has more than one step, and its interval is the share of that time
    /// that falls to each of them.
    pub open spec fn planned_for(self, millis: u64) -> bool {
        self.steps.len() > 1 && self.interval == Some(interval_for(millis, self.steps.len()))
    }

    /// What follows a write that failed: the storing of the identity, where
    /// this run has shown a notification; else the end.
    pub open spec fn give_up(self) -> State {
        if self.captured {
            State { phase: Phase::Salvaging, ..self }
        } else {
            State { phase: Phase::Failed, ..self }
        }
    }

    /// The time since the start, in microseconds, before which the step after
    /// the last one written is not due: one interval for each step written.
    pub open spec fn deadline(self) -> int
        recommends
            self.interval is Some,
    {
        self.done * self.interval->0
    }

    /// What follows a step that is written, shown and paced: the next step;
    /// after the last one the storing of the identity, where this run has
    /// shown a notification; else the end.
    pub open spec fn proceed(self) -> State {
        if self.done < self.steps.len() {
            State { phase: Phase::Writing, ..self }
        } else if self.captured {
            State { phase: Phase::Saving, ..self }
        } else {
            State { phase: Phase::Finished, ..self }
        }
    }

    /// What follows a step that is written and shown: the pacing, where the
    /// change is paced, else whatever follows the step.
    pub open spec fn paced(self) -> State {
        if self.interval is Some {
            State { phase: Phase::Timing, ..self }
        } else {
            self.proceed()
        }
    }

    /// The state after `event`. An event that the engine is not waiting for
    /// changes nothing.
    pub open spec fn next(self, event: Event) -> State {
        match (self.phase, event) {
            (Phase::Writing, Event::Written) => {
                let written = State { done: self.done + 1, ..self };
                if self.quiet {
                    written.paced()
                } else {
                    State { phase: Phase::Notifying, ..written }
                }
            },
            (Phase::Writing, Event::WriteFailed) => self.give_up(),
            (Phase::Notifying, Event::Notified { id }) => State {
                id: Some(id),
                captured: true,
                ..self
            }.paced(),
            (Phase::Notifying, Event::NotifyFailed) => self.paced(),
            (Phase::Timing, Event::Elapsed { micros }) => if micros < self.deadline() {
                State { phase: Phase::Sleeping, pause: self.deadline() - micros, ..self }
            } else {
                self.proceed()
            },
            (Phase::Sleeping, Event::Slept) => self.proceed(),
            (Phase::Saving, Event::Persisted) => State { phase: Phase::Finished, ..self },
            (Phase::Salvaging, Event::Persisted) => State { phase: Phase::Failed, ..self },
            _ => self,
        }
    }

    /// What the caller is to do in this state.
    pub open spec fn command(self) -> Command {
        match self.phase {
            Phase::Writing => Command::Write { native: self.steps[self.done as int] },
            Phase::Notifying => Command::Notify {
                native: self.steps[self.done - 1],
                reuse: self.id,
            },
            Phase::Timing => Command::Clock,
            Phase::Sleeping => Command::Sleep { micros: self.pause as u128 },
            Phase::Saving => Command::Persist { id: self.id->0 },
            Phase::Salvaging => Command::Persist { id: self.id->0 },
            Phase::Finished => Command::Done,
            Phase::Failed => Command::Abort,
        }
    }

    /// `event` is an answer to the command of this state.
    pub open spec fn awaits(self, event: Event) -> bool {
        match self.phase {
            Phase::Writing => event == Event::Written || event == Event::WriteFailed,
            Phase::Notifying => event is Notified || event == Event::NotifyFailed,
            Phase::Timing => event is Elapsed,
            Phase::Sleeping => event == Event::Slept,
            Phase::Saving => event == Event::Persisted,
            Phase::Salvaging => event == Event::Persisted,
            Phase::Finished => false,
            Phase::Failed => false,
        }
    }

    /// An upper bound on the answers that the run still takes before it ends:
    /// four for each step that is not written yet (the write, the showing, the
    /// clock and the wait), what is left of the step in hand, and one for the
    /// storing of the identity.
    pub open spec fn remaining(self) -> nat {
        let unwritten = 4 * (self.steps.len() - self.done);
        match self.phase {
            Phase::Writing => (unwritten + 1) as nat,
            Phase::Salvaging => 1,
            Phase::Notifying => (unwritten + 4) as nat,
            Phase::Timing => (unwritten + 3) as nat,
            Phase::Sleeping => (unwritten + 2) as nat,
            Phase::Saving => 1,
            Phase::Finished => 0,
            Phase::Failed => 0,
        }
    }

    /// The values that the device takes while `events` are reported, in
    /// order: one for each report of a write that the engine was waiting for.
    pub open spec fn taken(self, events: Seq<Event>) -> Seq<i32>
        decreases events.len(),
    {
        if events.len() == 0 {
            Seq::empty()
        } else {
            let before = self.run(events.drop_last());
            if before.phase == Phase::Writing && events.last() == Event::Written {
                self.taken(events.drop_last()).push(before.steps[before.done as int])
            } else {
                self.taken(events.drop_last())
            }
        }
    }

    /// The state after each of `events` in turn.
    pub open spec fn run(self, events: Seq<Event>) -> State
        decreases events.len(),
    {
        if events.len() == 0 {
            self
        } else {
            self.run(events.drop_last()).next(events.last())
        }
    }
}

/// The state in which a run begins: nothing written, nothing shown, and the
/// first step due, if there is one.
pub open spec fn initial(
    steps: Seq<i32>,
    interval: Option<int>,
    quiet: bool,
    id: Option<u32>,
) -> State {
    State {
        steps,
        interval,
        quiet,
        id,
        captured: false,
        done: 0,
        pause: 0,
        phase: Phase::Writing,
    }.proceed()
}

/// Where a run stands: everything of the engine but the list of steps.
#[derive(Clone, Copy)]
struct Cursor {
    interval: Option<u128>,
    quiet: bool,
    id: Option<u32>,
    captured: bool,
    done: usize,
    pause: u128,
    phase: Phase,
}

impl Cursor {
    /// The state that this cursor stands for on the list `steps`.
    spec fn on(self, steps: Seq<i32>) -> State {
        State {
            steps,
            interval: match self.interval {
                Some(micros) => Some(micros as int),
                None => None,
            },
            quiet: self.quiet,
            id: self.id,
            captured: self.captured,
            done: self.done as nat,
            pause: self.pause as int,
            phase: self.phase,
        }
    }

    /// Moves to what follows a completed step.
    fn proceed(self, steps: &Vec<i32>) -> (after: Cursor)
        ensures
            after.on(steps@) == self.on(steps@).proceed(),
    {
        let phase = if self.done < steps.len() {
            Phase::Writing
        } else if self.captured {
            Phase::Saving
        } else {
            Phase::Finished
        };
        Cursor { phase, ..self }
    }

    /// Moves to what follows a step that is written and shown.
    fn paced(self, steps: &Vec<i32>) -> (after: Cursor)
        ensures
            after.on(steps@) == self.on(steps@).paced(),
    {
        if self.interval.is_some() {
            Cursor { phase: Phase::Timing, ..self }
        } else {
            self.proceed(steps)
        }
    }

    /// Moves to the state after `event`.
    fn next(self, steps: &Vec<i32>, event: Event) -> (after: Cursor)
        requires
            self.on(steps@).wf(),
        ensures
            after.on(steps@) == self.on(steps@).next(event),
    {
        match (self.phase, event) {
            (Phase::Writing, Event::Written) => {
                let written = Cursor { done: self.done + 1, ..self };
                if self.quiet {
                    written.paced(steps)
                } else {
                    Cursor { phase: Phase::Notifying, ..written }
                }
            },
            (Phase::Writing, Event::WriteFailed) => if self.captured {
                Cursor { phase: Phase::Salvaging, ..self }
            } else {
                Cursor { phase: Phase::Failed, ..self }
            },
            (Phase::Notifying, Event::Notified { id }) => Cursor {
                id: Some(id),
                captured: true,
                ..self
            }.paced(steps),
            (Phase::Notifying, Event::NotifyFailed) => self.paced(steps),
            (Phase::Timing, Event::Elapsed { micros }) => {
                let each: u128 = match self.interval {
                    Some(each) => each,
                    None => 0,
                };
                assert(self.done * each <= 0xFFFF_FFFF * (0xFFFF_FFFF_FFFF_FFFF * 1000))
                    by (nonlinear_arith)
                    requires
                        self.done <= 0xFFFF_FFFF,
                        each <= 0xFFFF_FFFF_FFFF_FFFF * 1000,
                ;
                let deadline: u128 = self.done as u128 * each;
                if micros < deadline {
                    Cursor { phase: Phase::Sleeping, pause: deadline - micros, ..self }
                } else {
                    self.proceed(steps)
                }
            },
            (Phase::Sleeping, Event::Slept) => self.proceed(steps),
            (Phase::Saving, Event::Persisted) => Cursor { phase: Phase::Finished, ..self },
            (Phase::Salvaging, Event::Persisted) => Cursor { phase: Phase::Failed, ..self },
            _ => self,
        }
    }
}

/// The run of one change of level.
pub struct Engine {
    steps: Vec<i32>,
    cursor: Cursor,
}

impl View for Engine {
    type V = State;

    closed spec fn view(&self) -> State {
        self.cursor.on(self.steps@)
    }
}

impl Engine {
    #[verifier::type_invariant]
    closed spec fn inv(self) -> bool {
        self@.wf()
    }

    /// Plans the change from `current` to `target` on a device whose highest
    /// level is `max`, and begins its run.
    ///
    /// The target is first held to the device's range. With a `duration`, in
    /// milliseconds, the change is made one unit at a time and spread over
    /// that time; without one it is a single write. Where `quiet`, nothing is
    /// shown. `id` is the notification that an earlier run has left, if any.
    pub fn new(
        current: i32,
        target: i32,
        max: i32,
        duration: Option<u64>,
        quiet: bool,
        id: Option<u32>,
    ) -> (engine: Engine)
        ensures
            engine@.wf(),
            engine@ == initial(engine@.steps, engine@.interval, quiet, id),
            as_ints(engine@.steps) == steps_spec(
                current as int,
                clamp_int(target as int, 0, max as int),
                duration is Some,
            ),
            engine@.interval == interval_spec(
                current as int,
                clamp_int(target as int, 0, max as int),
                duration,
            ),
            forall|k: int|
                0 <= k < engine@.steps.len() ==> #[trigger] engine@.steps[k] == steps_spec(
                    current as int,
                    clamp_int(target as int, 0, max as int),
                    duration is Some,
                )[k],
            duration is Some && engine@.steps.len() > 1 ==> engine@.planned_for(duration->0),
    {
        let goal: i32 = clamp(target, 0, max);
        let list: Vec<i32> = steps(current, goal, duration.is_some());
        let each: Option<u128> = interval(current, goal, duration);
        assert(list@.len() == as_ints(list@).len());
        let start = Cursor {
            interval: each,
            quiet,
            id,
            captured: false,
            done: 0,
            pause: 0,
            phase: Phase::Writing,
        };
        let cursor = start.proceed(&list);
        Engine { steps: list, cursor }
    }

    /// What the caller is to do now.
    pub fn command(&self) -> (command: Command)
        ensures
            command == self@.command(),
            self@.wf(),
    {
        proof {
            use_type_invariant(self);
        }
        match self.cursor.phase {
            Phase::Writing => Command::Write { native: self.steps[self.cursor.done] },
            Phase::Notifying => Command::Notify {
                native: self.steps[self.cursor.done - 1],
                reuse: self.cursor.id,
            },
            Phase::Timing => Command::Clock,
            Phase::Sleeping => Command::Sleep { micros: self.cursor.pause },
            Phase::Saving => match self.cursor.id {
                Some(id) => Command::Persist { id },
                None => Command::Done,
            },
            Phase::Salvaging => match self.cursor.id {
                Some(id) => Command::Persist { id },
                None => Command::Abort,
            },
            Phase::Finished => Command::Done,
            Phase::Failed => Command::Abort,
        }
    }

    /// How many steps the device has taken so far.
    pub fn written(&self) -> (count: usize)
        ensures
            count == self@.done,
    {
        self.cursor.done
    }

    /// Takes in what happened and says what the caller is to do next.
    pub fn advance(&mut self, event: Event) -> (command: Command)
        ensures
            final(self)@ == old(self)@.next(event),
            command == final(self)@.command(),
            final(self)@.wf(),
    {
        proof {
            use_type_invariant(&*self);
            lemma_next_keeps_wf(self@, event);
        }
        let after = self.cursor.next(&self.steps, event);
        self.cursor = after;
        self.command()
    }
}

/// No event takes a run out of the states that a run can be in.
pub proof fn lemma_next_keeps_wf(state: State, event: Event)
    requires
        state.wf(),
    ensures
        state.next(event).wf(),
{
    if state.phase == Phase::Timing {
        assert(state.done * state.interval->0 >= 0) by (nonlinear_arith)
            requires
                state.done >= 0,
                state.interval->0 >= 0,
        ;
    }
}

/// No sequence of events takes a run out of the states that a run can be in.
pub proof fn lemma_run_keeps_wf(state: State, events: Seq<Event>)
    requires
        state.wf(),
    ensures
        state.run(events).wf(),
    decreases events.len(),
{
    if events.len() > 0 {
        lemma_run_keeps_wf(state, events.drop_last());
        lemma_next_keeps_wf(state.run(events.drop_last()), events.last());
    }
}

/// A run that has ended stays as it is, whatever is reported to it: after the
/// end, and after a failure, nothing more is written, shown or stored.
pub proof fn lemma_ended_run_stays(state: State, events: Seq<Event>)
    requires
        state.phase == Phase::Finished || state.phase == Phase::Failed,
    ensures
        state.run(events) == state,
    decreases events.len(),
{
    if events.len() > 0 {
        lemma_ended_run_stays(state, events.drop_last());
    }
}

/// A change to the level that the device is at already is over before it
/// begins: the first command is `Done`, and so is every later one, so that
/// nothing is ever written, shown or stored.
pub proof fn lemma_nothing_to_change(
    interval: Option<int>,
    quiet: bool,
    id: Option<u32>,
    events: Seq<Event>,
)
    ensures
        initial(Seq::empty(), interval, quiet, id).command() == Command::Done,
        initial(Seq::empty(), interval, quiet, id).run(events).command() == Command::Done,
        initial(Seq::empty(), interval, quiet, id).taken(events) == Seq::<i32>::empty(),
    decreases events.len(),
{
    let start = initial(Seq::empty(), interval, quiet, id);
    lemma_ended_run_stays(start, events);
    if events.len() > 0 {
        lemma_nothing_to_change(interval, quiet, id, events.drop_last());
        lemma_ended_run_stays(start, events.drop_last());
    }
}

/// After a write has failed, nothing moves but the storing of the identity:
/// whatever is reported, the run stays failed, the count of steps that the
/// device has taken stays, and the only commands are `Persist` and `Abort`.
pub proof fn lemma_failed_run_stays_failed(state: State, events: Seq<Event>)
    requires
        state.wf(),
        state.phase == Phase::Salvaging || state.phase == Phase::Failed,
    ensures
        state.run(events).phase == Phase::Salvaging || state.run(events).phase == Phase::Failed,
        state.phase == Phase::Failed ==> state.run(events) == state,
        state.run(events).done == state.done,
        state.run(events).id == state.id,
        state.run(events).command() == Command::Abort || state.run(events).command() == (
        Command::Persist { id: state.id->0 }),
    decreases events.len(),
{
    if events.len() > 0 {
        lemma_failed_run_stays_failed(state, events.drop_last());
    }
}

/// A write that fails ends the run. Where the run has shown a notification,
/// its identity is stored first, so that the next run replaces it; then, and
/// at once where nothing was shown, the command is `Abort`. No further step
/// is tried, and the count of steps that the device has taken is the one from
/// before the failure, so that the device is left at the last value that it
/// took.
pub proof fn lemma_failed_write_ends_run(state: State, events: Seq<Event>)
    requires
        state.wf(),
        state.phase == Phase::Writing,
    ensures
        state.next(Event::WriteFailed).command() == if state.captured {
            Command::Persist { id: state.id->0 }
        } else {
            Command::Abort
        },
        state.next(Event::WriteFailed).next(Event::Persisted).command() == Command::Abort,
        state.next(Event::WriteFailed).run(events).done == state.done,
        !(state.next(Event::WriteFailed).run(events).command() is Write),
        !(state.next(Event::WriteFailed).run(events).command() is Notify),
        !state.captured ==> state.next(Event::WriteFailed).run(events).command()
            == Command::Abort,
{
    lemma_next_keeps_wf(state, Event::WriteFailed);
    lemma_failed_run_stays_failed(state.next(Event::WriteFailed), events);
}

/// The steps are written in the order of the plan, one for each report of a
/// write that the engine was waiting for: a `Write` carries the step after
/// those that the device has taken, and only `Written`, in answer to it,
/// counts one more.
pub proof fn lemma_writes_follow_plan(state: State, event: Event)
    requires
        state.wf(),
    ensures
        state.next(event).steps == state.steps,
        state.phase == Phase::Writing ==> state.command() == (Command::Write {
            native: state.steps[state.done as int],
        }),
        state.phase != Phase::Writing ==> !(state.command() is Write),
        state.next(event).done == if state.phase == Phase::Writing && event == Event::Written {
            state.done + 1
        } else {
            state.done
        },
{
}

/// A step is shown after it is written and before anything else is done,
/// unless the run is quiet: the report of a write is answered by `Notify` with
/// the value that was written and the identity in hand.
pub proof fn lemma_written_step_is_shown(state: State)
    requires
        state.wf(),
        state.phase == Phase::Writing,
        !state.quiet,
    ensures
        state.next(Event::Written).command() == (Command::Notify {
            native: state.steps[state.done as int],
            reuse: state.id,
        }),
{
}

/// A quiet run shows nothing and stores nothing.
pub proof fn lemma_quiet_run_is_silent(state: State, events: Seq<Event>)
    requires
        state.wf(),
        state.quiet,
    ensures
        state.run(events).quiet,
        !(state.run(events).command() is Notify),
        !(state.run(events).command() is Persist),
    decreases events.len(),
{
    lemma_run_keeps_wf(state, events);
    if events.len() > 0 {
        lemma_quiet_run_is_silent(state, events.drop_last());
    }
}

/// One notification serves the whole run. The identity in hand changes only
/// when a notification comes back, and then to the one that came back; it is
/// what the next `Notify` replaces and what `Persist` stores, and only an
/// identity that this run was given is ever stored.
pub proof fn lemma_identity_is_reused(state: State, event: Event)
    requires
        state.wf(),
    ensures
        state.next(event).id == if state.phase == Phase::Notifying && event is Notified {
            Some(event->id)
        } else {
            state.id
        },
        state.next(event).command() is Notify ==> state.next(event).command()->reuse
            == state.next(event).id,
        state.next(event).command() is Persist ==> state.next(event).captured && Some(
            state.next(event).command()->Persist_id,
        ) == state.next(event).id,
{
    lemma_next_keeps_wf(state, event);
}

/// Pacing never lets a step begin early. When the time is taken after a step
/// and its deadline has not come, the answer is a wait that ends exactly at
/// the deadline; when the deadline has passed, the run goes on at once,
/// without a wait and without making up for the delay.
pub proof fn lemma_pause_reaches_deadline(state: State, micros: u128)
    requires
        state.wf(),
        state.phase == Phase::Timing,
    ensures
        micros < state.deadline() ==> state.next(Event::Elapsed { micros }).command() is Sleep
            && micros + state.next(Event::Elapsed { micros }).command()->micros
            == state.deadline(),
        micros >= state.deadline() ==> state.next(Event::Elapsed { micros })
            == state.proceed(),
        micros >= state.deadline() ==> !(state.next(Event::Elapsed { micros }).command()
            is Sleep),
{
    assert(0 <= state.done * state.interval->0 <= 0xFFFF_FFFF * (0xFFFF_FFFF_FFFF_FFFF * 1000))
        by (nonlinear_arith)
        requires
            0 <= state.done <= 0xFFFF_FFFF,
            0 <= state.interval->0 <= 0xFFFF_FFFF_FFFF_FFFF * 1000,
    ;
}

/// In a paced run the way to the next write leads through the clock: a write
/// becomes due only when the time taken has reached the deadline of the step
/// before, or when the wait for that deadline is over.
pub proof fn lemma_paced_run_waits(state: State, event: Event)
    requires
        state.wf(),
        state.interval is Some,
        state.done >= 1,
        state.phase != Phase::Writing,
        state.next(event).phase == Phase::Writing,
    ensures
        (state.phase == Phase::Timing && event is Elapsed && event->micros >= state.deadline())
            || (state.phase == Phase::Sleeping && event == Event::Slept),
{
}

/// The deadline after `k` steps of a run that is to take `T` milliseconds
/// over `d` steps is never before `k` times `T / d`: in microseconds,
/// `deadline * d >= k * T * 1000`.
pub proof fn lemma_deadline_covers_share(state: State, millis: u64)
    requires
        state.wf(),
        state.planned_for(millis),
    ensures
        state.deadline() * state.steps.len() >= state.done * (millis * 1000),
{
    let d = state.steps.len() as int;
    let each = state.interval->0;
    let k = state.done as int;
    let span = millis * 1000;
    lemma_interval_bounds(millis, state.steps.len());
    assert((k * each) * d >= k * span) by (nonlinear_arith)
        requires
            each * d >= span,
            k >= 0,
    ;
}

/// No step of a paced run begins before its share of the time is up. On a run
/// that is to take `T` milliseconds over `d` steps, a write after `k` steps is
/// commanded only in answer to a clock reading of at least `k` times `T / d`
/// (`micros * d >= k * T * 1000`), or at the end of a wait that began at a
/// lower reading and made up exactly for what was missing.
pub proof fn lemma_write_waits_for_its_share(state: State, event: Event, millis: u64)
    requires
        state.wf(),
        state.planned_for(millis),
        state.done >= 1,
        state.phase != Phase::Writing,
        state.next(event).phase == Phase::Writing,
    ensures
        state.phase == Phase::Timing || state.phase == Phase::Sleeping,
        state.phase == Phase::Timing ==> event is Elapsed && event->micros * state.steps.len()
            >= state.done * (millis * 1000),
        state.phase == Phase::Sleeping ==> event == Event::Slept,
{
    lemma_paced_run_waits(state, event);
    lemma_deadline_covers_share(state, millis);
    if state.phase == Phase::Timing {
        let d = state.steps.len() as int;
        let reading = event->micros as int;
        let deadline = state.deadline();
        assert(reading * d >= deadline * d) by (nonlinear_arith)
            requires
                reading >= deadline,
                d >= 0,
        ;
    }
}

/// A wait ends no earlier than the step's share of the time. Where the clock
/// reading after `k` steps is below the deadline, the wait that is commanded
/// ends, counted from the start of the run, at a time of at least `k` times
/// `T / d`: `(micros + wait) * d >= k * T * 1000`.
pub proof fn lemma_wait_ends_at_its_share(state: State, micros: u128, millis: u64)
    requires
        state.wf(),
        state.planned_for(millis),
        state.phase == Phase::Timing,
        micros < state.deadline(),
    ensures
        state.next(Event::Elapsed { micros }).command() is Sleep,
        (micros + state.next(Event::Elapsed { micros }).command()->micros) * state.steps.len()
            >= state.done * (millis * 1000),
{
    lemma_pause_reaches_deadline(state, micros);
    lemma_deadline_covers_share(state, millis);
}

/// Every run ends. Each answer to a command brings the end nearer by at
/// least one, and a run of `n` steps is never further from it than `4 * n + 1`
/// answers.
pub proof fn lemma_every_answer_brings_the_end_nearer(state: State, event: Event)
    requires
        state.wf(),
        state.awaits(event),
    ensures
        state.next(event).remaining() < state.remaining(),
        state.remaining() <= 4 * state.steps.len() + 1,
        state.remaining() == 0 <==> state.phase == Phase::Finished || state.phase
            == Phase::Failed,
{
}

/// The device takes the plan in order, each step once. Whatever is reported,
/// the values that the device has taken are the steps from the one that was
/// due at the start up to the one that is due now; so a run that begins with
/// the plan and ends as `Finished` has written the whole plan, and no other
/// value.
pub proof fn lemma_device_takes_plan_in_order(state: State, events: Seq<Event>)
    requires
        state.wf(),
    ensures
        state.run(events).steps == state.steps,
        state.done <= state.run(events).done <= state.steps.len(),
        state.taken(events) == state.steps.subrange(
            state.done as int,
            state.run(events).done as int,
        ),
        state.done == 0 && state.run(events).phase == Phase::Finished ==> state.taken(events)
            == state.steps,
    decreases events.len(),
{
    lemma_run_keeps_wf(state, events);
    if events.len() == 0 {
        assert(state.taken(events) =~= state.steps.subrange(state.done as int, state.done as int));
    } else {
        let front = events.drop_last();
        let before = state.run(front);
        lemma_device_takes_plan_in_order(state, front);
        lemma_run_keeps_wf(state, front);
        lemma_writes_follow_plan(before, events.last());
        assert(state.taken(events) =~= state.steps.subrange(
            state.done as int,
            state.run(events).done as int,
        ));
    }
    if state.done == 0 && state.run(events).phase == Phase::Finished {
        assert(state.steps.subrange(0, state.steps.len() as int) =~= state.steps);
    }
}

} // verus!
