//! When to poll: the decisions of the polling worker.
//!
//! The worker owns a loop and a connection; the scheduler owns the decisions.
//! The worker asks [`Scheduler::next_action`] what to do, does it outside any
//! lock, and hands the result of a poll to [`Scheduler::poll_finished`]. A
//! cycle is one pass over the whole watchlist, one event at a time, and two
//! cycles never overlap. What holds of every course of events is proved in
//! [`crate::cycles`].

use crate::clock::utc_now_seconds;
use crate::poller_events::{report_poll, reported};
use crate::schema::{App, AppView, PollError, TMEventView};
use vstd::prelude::*;

verus! {

/// The time between the end of one cycle and the start of the next, in
/// milliseconds, where nothing else is asked for.
pub const DEFAULT_POLLING_INTERVAL: u64 = 60000;

/// Where the scheduler stands in its cycle.
#[derive(Clone, Copy, Debug, PartialEq, Eq, Structural)]
pub enum Phase {
    /// No cycle is running.
    Idle,
    /// A cycle is running, and the event at this position of the watchlist
    /// is the next to be polled, or is being polled.
    Polling(usize),
}

/// The mathematical value of a [`Phase`].
pub enum PhaseView {
    Idle,
    Polling(nat),
}

impl View for Phase {
    type V = PhaseView;

    open spec fn view(&self) -> PhaseView {
        match *self {
            Phase::Idle => PhaseView::Idle,
            Phase::Polling(next) => PhaseView::Polling(next as nat),
        }
    }
}

/// What the worker is to do next.
#[derive(Debug)]
pub enum Action {
    /// Poll the event at `position` of the watchlist, whose identifier is
    /// `id`, and report the result.
    Poll { position: usize, id: String },
    /// Nothing is due: ask again in a while.
    Wait,
    /// Leave the loop.
    Stop,
}

/// The mathematical value of an [`Action`].
pub enum ActionView {
    Poll { position: nat, id: Seq<char> },
    Wait,
    Stop,
}

impl View for Action {
    type V = ActionView;

    open spec fn view(&self) -> ActionView {
        match *self {
            Action::Poll { position, id } => ActionView::Poll { position: position as nat, id: id@ },
            Action::Wait => ActionView::Wait,
            Action::Stop => ActionView::Stop,
        }
    }
}

/// The decisions of the polling worker, as a state machine.
#[derive(Debug)]
pub struct Scheduler {
    interval: u64,
    phase: Phase,
    pending: bool,
    last_completed: Option<u64>,
    stopping: bool,
}

/// The mathematical value of a [`Scheduler`].
pub struct SchedulerView {
    /// Milliseconds that must have passed since the last cycle ended before
    /// the next one starts by itself.
    pub interval: nat,
    pub phase: PhaseView,
    /// A manual trigger was sent and no cycle has started since.
    pub pending: bool,
    /// The clock reading at which the last cycle ended, if one has.
    pub last_completed: Option<nat>,
    /// Shutdown was asked for.
    pub stopping: bool,
}

impl View for Scheduler {
    type V = SchedulerView;

    closed spec fn view(&self) -> SchedulerView {
        SchedulerView {
            interval: self.interval as nat,
            phase: self.phase@,
            pending: self.pending,
            last_completed: match self.last_completed {
                Some(t) => Some(t as nat),
                None => None,
            },
            stopping: self.stopping,
        }
    }
}

impl SchedulerView {
    /// The state in which a scheduler with this interval starts.
    pub open spec fn initial(interval: nat) -> SchedulerView {
        SchedulerView { interval, phase: PhaseView::Idle, pending: false, last_completed: None, stopping: false }
    }

    /// The interval has run out at clock reading `now`: no cycle has ended
    /// yet, or more than the interval has passed since the last one ended.
    pub open spec fn due(self, now: nat) -> bool {
        match self.last_completed {
            None => true,
            Some(t) => now - t > self.interval,
        }
    }

    /// The state after a manual trigger was sent: the single slot is full.
    pub open spec fn triggered(self) -> SchedulerView {
        SchedulerView { pending: true, ..self }
    }

    /// The state after shutdown was asked for.
    pub open spec fn stopped(self) -> SchedulerView {
        SchedulerView { stopping: true, ..self }
    }

    /// The state after a cycle ended at clock reading `now`.
    pub open spec fn completed(self, now: nat) -> SchedulerView {
        SchedulerView { phase: PhaseView::Idle, last_completed: Some(now), ..self }
    }

    /// The decision at clock reading `now`, for the watchlist `events`: the
    /// state after it, and what the worker is to do.
    ///
    /// While a cycle runs, the next event of it is polled, whatever else was
    /// asked for. Between cycles, shutdown comes first; then a cycle starts
    /// where a trigger is pending or the interval has run out, and takes the
    /// trigger with it. A cycle over an empty watchlist ends as it starts.
    pub open spec fn step(self, events: Seq<TMEventView>, now: nat) -> (SchedulerView, ActionView) {
        match self.phase {
            PhaseView::Polling(next) => if next < events.len() {
                (self, ActionView::Poll { position: next, id: events[next as int].id })
            } else {
                (self.completed(now), ActionView::Wait)
            },
            PhaseView::Idle => if self.stopping {
                (self, ActionView::Stop)
            } else if self.pending || self.due(now) {
                if events.len() == 0 {
                    (SchedulerView { pending: false, ..self.completed(now) }, ActionView::Wait)
                } else {
                    (
                        SchedulerView { phase: PhaseView::Polling(0), pending: false, ..self },
                        ActionView::Poll { position: 0, id: events[0].id },
                    )
                }
            } else {
                (self, ActionView::Wait)
            },
        }
    }

    /// The scheduler and the shared state after the poll in flight ended
    /// with `outcome`, at `now` by the scheduler's clock and at `wall` by
    /// the wall clock. The result is reported for the event that was next in
    /// the cycle; after the last event of the watchlist the cycle ends. With
    /// no cycle running nothing changes.
    pub open spec fn finished(
        self,
        app: AppView,
        outcome: Result<usize, PollError>,
        now: nat,
        wall: int,
    ) -> (SchedulerView, AppView) {
        match self.phase {
            PhaseView::Idle => (self, app),
            PhaseView::Polling(next) => if next < app.events.len() {
                let after = reported(app, app.events[next as int].id, outcome, wall);
                if next + 1 < app.events.len() {
                    (SchedulerView { phase: PhaseView::Polling(next + 1), ..self }, after)
                } else {
                    (self.completed(now), after)
                }
            } else {
                (self.completed(now), app)
            },
        }
    }
}

impl Scheduler {
    /// A scheduler between cycles, with no cycle behind it: the first
    /// decision starts one.
    pub fn new(interval: u64) -> (scheduler: Self)
        ensures
            scheduler@ == SchedulerView::initial(interval as nat),
    {
        Scheduler { interval, phase: Phase::Idle, pending: false, last_completed: None, stopping: false }
    }

    /// Where the scheduler stands in its cycle.
    pub fn phase(&self) -> (phase: Phase)
        ensures
            phase@ == self@.phase,
    {
        self.phase
    }

    /// Whether a manual trigger waits for the next cycle to start.
    pub fn has_pending_trigger(&self) -> (pending: bool)
        ensures
            pending == self@.pending,
    {
        self.pending
    }

    /// Whether shutdown was asked for.
    pub fn is_stopping(&self) -> (stopping: bool)
        ensures
            stopping == self@.stopping,
    {
        self.stopping
    }

    /// The clock reading at which the last cycle ended, if one has.
    pub fn last_completed(&self) -> (at: Option<u64>)
        ensures
            match at {
                Some(t) => self@.last_completed == Some(t as nat),
                None => self@.last_completed is None,
            },
    {
        self.last_completed
    }

    /// Milliseconds that must have passed since the last cycle ended before
    /// the next one starts by itself.
    pub fn interval(&self) -> (interval: u64)
        ensures
            interval as nat == self@.interval,
    {
        self.interval
    }

    /// Sends a manual trigger. The slot holds one trigger: a second one sent
    /// before a cycle starts changes nothing. Never waits.
    pub fn request_poll(&mut self)
        ensures
            final(self)@ == old(self)@.triggered(),
    {
        self.pending = true;
    }

    /// Asks for shutdown. A cycle that is running is still finished.
    pub fn request_stop(&mut self)
        ensures
            final(self)@ == old(self)@.stopped(),
    {
        self.stopping = true;
    }

    /// Decides what the worker does next, at clock reading `now`
    /// (milliseconds of a clock that never runs backwards).
    pub fn next_action(&mut self, app: &App, now: u64) -> (action: Action)
        ensures
            (final(self)@, action@) == old(self)@.step(app@.events, now as nat),
    {
        match self.phase {
            Phase::Polling(next) => {
                if next < app.events.len() {
                    Action::Poll { position: next, id: app.events[next].id.clone() }
                } else {
                    self.phase = Phase::Idle;
                    self.last_completed = Some(now);
                    Action::Wait
                }
            },
            Phase::Idle => {
                if self.stopping {
                    Action::Stop
                } else if self.pending || self.is_due(now) {
                    self.pending = false;
                    if app.events.len() == 0 {
                        self.last_completed = Some(now);
                        Action::Wait
                    } else {
                        self.phase = Phase::Polling(0);
                        Action::Poll { position: 0, id: app.events[0].id.clone() }
                    }
                } else {
                    Action::Wait
                }
            },
        }
    }

    /// Whether the interval has run out at clock reading `now`.
    pub fn is_due(&self, now: u64) -> (due: bool)
        ensures
            due == self@.due(now as nat),
    {
        match self.last_completed {
            None => true,
            Some(t) => now >= t && now - t > self.interval,
        }
    }

    /// Takes the result of the poll in flight: `now` by the scheduler's
    /// clock, `wall` in seconds since the Unix epoch.
    pub fn poll_finished_at(&mut self, app: &mut App, outcome: Result<usize, PollError>, now: u64, wall: i64)
        ensures
            (final(self)@, final(app)@) == old(self)@.finished(old(app)@, outcome, now as nat, wall as int),
    {
        match self.phase {
            Phase::Idle => {},
            Phase::Polling(next) => {
                if next < app.events.len() {
                    let id = app.events[next].id.clone();
                    report_poll(app, id.as_str(), outcome, wall);
                    assert(app@.events.len() == old(app)@.events.len());
                    if next + 1 < app.events.len() {
                        self.phase = Phase::Polling(next + 1);
                    } else {
                        self.phase = Phase::Idle;
                        self.last_completed = Some(now);
                    }
                } else {
                    self.phase = Phase::Idle;
                    self.last_completed = Some(now);
                }
            },
        }
    }

    /// Takes the result of the poll in flight and stamps it with the wall
    /// clock's present reading.
    pub fn poll_finished(&mut self, app: &mut App, outcome: Result<usize, PollError>, now: u64)
        ensures
            exists|wall: int|
                (final(self)@, final(app)@) == old(self)@.finished(old(app)@, outcome, now as nat, wall),
    {
        let wall = utc_now_seconds();
        self.poll_finished_at(app, outcome, now, wall);
    }
}

} // verus!
