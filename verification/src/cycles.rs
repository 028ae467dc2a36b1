//! Courses of events at the scheduler, and what holds of every one of
//! them: triggers coalesce, cycles neither overlap nor break off, and the
//! shared state changes only as a poll result or a log entry changes it.

use crate::history::{
    apply_all, lemma_log_is_append_only, lemma_run_in_two, lemma_run_preserves_wf, lemma_short_runs,
    lemma_watchlist_is_fixed, Mutation,
};
use crate::poller_events::{error_text, pass_log, poll_result, polled, HttpReply};
use crate::scheduler::{ActionView, PhaseView, SchedulerView};
use crate::schema::{AppView, PollError, TMEventView};
use vstd::prelude::*;

verus! {

/// One thing that happens to the scheduler.
pub enum Input {
    /// A manual trigger is sent.
    Trigger,
    /// Shutdown is asked for.
    Stop,
    /// The worker asks what to do, at clock reading `now`.
    Decide { now: nat },
    /// The worker reports the result of the poll in flight.
    Finished { outcome: Result<usize, PollError>, now: nat, wall: int },
}

/// The scheduler and the shared state after `input`.
pub open spec fn on_input(s: SchedulerView, app: AppView, input: Input) -> (SchedulerView, AppView) {
    match input {
        Input::Trigger => (s.triggered(), app),
        Input::Stop => (s.stopped(), app),
        Input::Decide { now } => (s.step(app.events, now).0, app),
        Input::Finished { outcome, now, wall } => s.finished(app, outcome, now, wall),
    }
}

/// `input` starts a cycle in the state `s`: the worker asks what to do
/// between two cycles, no shutdown was asked for, and a trigger is pending
/// or the interval has run out.
pub open spec fn begins_cycle(s: SchedulerView, input: Input) -> bool {
    input matches Input::Decide { now } && s.phase is Idle && !s.stopping && (s.pending || s.due(now))
}

/// The scheduler and the shared state after `inputs`, first to last.
pub open spec fn drive(s: SchedulerView, app: AppView, inputs: Seq<Input>) -> (SchedulerView, AppView)
    decreases inputs.len(),
{
    if inputs.len() == 0 {
        (s, app)
    } else {
        let before = drive(s, app, inputs.drop_last());
        on_input(before.0, before.1, inputs.last())
    }
}

/// The number of cycles that start in the course of `inputs`.
pub open spec fn cycles_begun(s: SchedulerView, app: AppView, inputs: Seq<Input>) -> nat
    decreases inputs.len(),
{
    if inputs.len() == 0 {
        0
    } else {
        let before = drive(s, app, inputs.drop_last());
        let earlier = cycles_begun(s, app, inputs.drop_last());
        if begins_cycle(before.0, inputs.last()) {
            earlier + 1
        } else {
            earlier
        }
    }
}

/// `n` manual triggers, one after the other.
pub open spec fn triggers(n: nat) -> Seq<Input> {
    Seq::new(n, |i: int| Input::Trigger)
}

/// Driving through `first` and then `second` is driving through both.
pub proof fn lemma_drive_in_two(s: SchedulerView, app: AppView, first: Seq<Input>, second: Seq<Input>)
    ensures
        drive(s, app, first + second) == drive(drive(s, app, first).0, drive(s, app, first).1, second),
        cycles_begun(s, app, first + second) == cycles_begun(s, app, first) + cycles_begun(
            drive(s, app, first).0,
            drive(s, app, first).1,
            second,
        ),
    decreases second.len(),
{
    if second.len() == 0 {
        assert(first + second =~= first);
    } else {
        lemma_drive_in_two(s, app, first, second.drop_last());
        assert((first + second).drop_last() =~= first + second.drop_last());
        assert((first + second).last() == second.last());
    }
}

/// Any number of manual triggers in a row leaves the scheduler where one
/// trigger leaves it, and starts no cycle by itself.
pub proof fn lemma_triggers_fill_one_slot(s: SchedulerView, app: AppView, n: nat)
    requires
        n >= 1,
    ensures
        drive(s, app, triggers(n)) == (s.triggered(), app),
        cycles_begun(s, app, triggers(n)) == 0,
    decreases n,
{
    if n == 1 {
        assert(triggers(1).drop_last() =~= Seq::<Input>::empty());
        assert(drive(s, app, triggers(1).drop_last()) == (s, app));
        assert(cycles_begun(s, app, triggers(1).drop_last()) == 0);
    } else {
        lemma_triggers_fill_one_slot(s, app, (n - 1) as nat);
        assert(triggers(n).drop_last() =~= triggers((n - 1) as nat));
    }
}

/// Manual triggers coalesce: whatever follows, `n` triggers sent in a row,
/// while a cycle runs or while one is pending, lead to the same states and
/// to as many cycles as a single trigger sent in their place.
pub proof fn lemma_triggers_coalesce(s: SchedulerView, app: AppView, n: nat, rest: Seq<Input>)
    requires
        n >= 1,
    ensures
        drive(s, app, triggers(n) + rest) == drive(s, app, triggers(1) + rest),
        cycles_begun(s, app, triggers(n) + rest) == cycles_begun(s, app, triggers(1) + rest),
{
    lemma_triggers_fill_one_slot(s, app, n);
    lemma_triggers_fill_one_slot(s, app, 1);
    lemma_drive_in_two(s, app, triggers(n), rest);
    lemma_drive_in_two(s, app, triggers(1), rest);
}

/// `input` starts a cycle in the state `s` before the interval has run out:
/// only a pending trigger can have asked for it.
pub open spec fn begins_early(s: SchedulerView, input: Input) -> bool {
    input matches Input::Decide { now } && begins_cycle(s, input) && !s.due(now)
}

/// `input` is a manual trigger that finds the slot empty in the state `s`.
pub open spec fn fills_slot(s: SchedulerView, input: Input) -> bool {
    input is Trigger && !s.pending
}

/// The number of cycles that start, in the course of `inputs`, before their
/// interval has run out.
pub open spec fn early_cycles(s: SchedulerView, app: AppView, inputs: Seq<Input>) -> nat
    decreases inputs.len(),
{
    if inputs.len() == 0 {
        0
    } else {
        let before = drive(s, app, inputs.drop_last());
        let earlier = early_cycles(s, app, inputs.drop_last());
        if begins_early(before.0, inputs.last()) {
            earlier + 1
        } else {
            earlier
        }
    }
}

/// The number of manual triggers among `inputs` that find the slot empty.
pub open spec fn fresh_triggers(s: SchedulerView, app: AppView, inputs: Seq<Input>) -> nat
    decreases inputs.len(),
{
    if inputs.len() == 0 {
        0
    } else {
        let before = drive(s, app, inputs.drop_last());
        let earlier = fresh_triggers(s, app, inputs.drop_last());
        if fills_slot(before.0, inputs.last()) {
            earlier + 1
        } else {
            earlier
        }
    }
}

/// One for a full slot, nothing for an empty one.
pub open spec fn slot(s: SchedulerView) -> nat {
    if s.pending {
        1
    } else {
        0
    }
}

/// Every cycle that starts before its interval has run out was paid for by
/// a trigger that found the slot empty, or by the trigger that was pending
/// at the outset; and a trigger that is still pending at the end has paid
/// for none yet. However many triggers reach a full slot, they start no
/// cycle of their own.
pub proof fn lemma_early_cycles_are_paid_for(s: SchedulerView, app: AppView, inputs: Seq<Input>)
    ensures
        early_cycles(s, app, inputs) + slot(drive(s, app, inputs).0) <= slot(s) + fresh_triggers(
            s,
            app,
            inputs,
        ),
    decreases inputs.len(),
{
    if inputs.len() > 0 {
        lemma_early_cycles_are_paid_for(s, app, inputs.drop_last());
    }
}

/// As long as no new cycle starts, while one runs or while a trigger waits
/// for the worker, triggers add up to one: of all that are sent in that
/// time, in any number and between any other inputs, at most one finds the
/// slot empty, and the slot is full afterwards exactly when it was full
/// before or a trigger came.
pub proof fn lemma_one_slot_while_busy(s: SchedulerView, app: AppView, inputs: Seq<Input>)
    requires
        cycles_begun(s, app, inputs) == 0,
    ensures
        fresh_triggers(s, app, inputs) + slot(s) <= 1,
        fresh_triggers(s, app, inputs) + slot(s) == slot(drive(s, app, inputs).0),
    decreases inputs.len(),
{
    if inputs.len() > 0 {
        lemma_one_slot_while_busy(s, app, inputs.drop_last());
    }
}

/// At most one extra cycle. However many triggers were sent up to the state
/// `s`, once no more are sent, at most one cycle ever starts ahead of its
/// interval, and none where the slot is empty.
pub proof fn lemma_at_most_one_extra_cycle(s: SchedulerView, app: AppView, rest: Seq<Input>)
    requires
        forall|i: int| 0 <= i < rest.len() ==> !(#[trigger] rest[i] is Trigger),
    ensures
        fresh_triggers(s, app, rest) == 0,
        early_cycles(s, app, rest) <= slot(s),
        early_cycles(s, app, rest) <= 1,
{
    lemma_early_cycles_are_paid_for(s, app, rest);
    lemma_no_trigger_is_fresh(s, app, rest);
}

/// Where no trigger is sent, none finds the slot empty.
proof fn lemma_no_trigger_is_fresh(s: SchedulerView, app: AppView, rest: Seq<Input>)
    requires
        forall|i: int| 0 <= i < rest.len() ==> !(#[trigger] rest[i] is Trigger),
    ensures
        fresh_triggers(s, app, rest) == 0,
    decreases rest.len(),
{
    if rest.len() > 0 {
        let earlier = rest.drop_last();
        assert forall|i: int| 0 <= i < earlier.len() implies !(#[trigger] earlier[i] is Trigger) by {
            assert(earlier[i] == rest[i]);
        }
        lemma_no_trigger_is_fresh(s, app, earlier);
        assert(!(rest[rest.len() - 1] is Trigger));
    }
}

/// A pending trigger is spent by the cycle that it starts: between cycles,
/// the next decision starts a cycle at the first event and empties the slot.
pub proof fn lemma_pending_trigger_starts_a_cycle(s: SchedulerView, events: Seq<TMEventView>, now: nat)
    requires
        s.phase is Idle,
        !s.stopping,
        s.pending,
        events.len() > 0,
    ensures
        s.step(events, now).0 == (SchedulerView { phase: PhaseView::Polling(0), pending: false, ..s }),
        s.step(events, now).1 == (ActionView::Poll { position: 0, id: events[0].id }),
        begins_cycle(s, Input::Decide { now }),
{
}

/// Between cycles nothing starts without a cause: with no trigger pending
/// and the interval not run out, the decision is to wait, or to stop where
/// shutdown was asked for, and the scheduler stays as it is.
pub proof fn lemma_no_cycle_without_cause(s: SchedulerView, events: Seq<TMEventView>, now: nat)
    requires
        s.phase is Idle,
        !s.pending,
        !s.due(now),
    ensures
        s.step(events, now).0 == s,
        s.step(events, now).1 == (if s.stopping {
            ActionView::Stop
        } else {
            ActionView::Wait
        }),
        !begins_cycle(s, Input::Decide { now }),
{
}

/// Cycles never overlap, and shutdown never cuts one short: while a cycle
/// runs, no input starts another, and the decision is to poll the next
/// event, whether or not a trigger is pending or shutdown was asked for.
pub proof fn lemma_running_cycle_goes_on(s: SchedulerView, events: Seq<TMEventView>, now: nat, input: Input)
    requires
        s.phase matches PhaseView::Polling(next) && next < events.len(),
    ensures
        !begins_cycle(s, input),
        s.step(events, now).0 == s,
        s.step(events, now).1 == (ActionView::Poll {
            position: s.phase->0,
            id: events[s.phase->0 as int].id,
        }),
{
}

/// A trigger that arrives while a cycle runs is kept until the cycle is
/// over: reporting a result changes neither the slot nor the request to
/// stop, and never touches the watchlist's length.
pub proof fn lemma_finished_keeps_requests(
    s: SchedulerView,
    app: AppView,
    outcome: Result<usize, PollError>,
    now: nat,
    wall: int,
)
    ensures
        s.finished(app, outcome, now, wall).0.pending == s.pending,
        s.finished(app, outcome, now, wall).0.stopping == s.stopping,
        s.finished(app, outcome, now, wall).0.interval == s.interval,
        s.finished(app, outcome, now, wall).1.events.len() == app.events.len(),
{
}

/// The reports of a cycle in which the polls were answered with `replies`,
/// in watchlist order, each at `now` by the scheduler's clock and at `wall`
/// by the wall clock.
pub open spec fn answers(replies: Seq<HttpReply>, now: nat, wall: int) -> Seq<Input> {
    replies.map_values(|reply: HttpReply| Input::Finished { outcome: poll_result(reply), now, wall })
}

/// Where a cycle over unique identifiers stands after the first `k` of its
/// polls were answered.
proof fn lemma_cycle_so_far(
    s: SchedulerView,
    app: AppView,
    replies: Seq<HttpReply>,
    now: nat,
    wall: int,
    k: nat,
)
    requires
        s.phase == PhaseView::Polling(0),
        app.unique_ids(),
        replies.len() == app.events.len(),
        k <= replies.len(),
        replies.len() > 0,
    ensures
        drive(s, app, answers(replies.take(k as int), now, wall)) == (
            if k < replies.len() {
                SchedulerView { phase: PhaseView::Polling(k), ..s }
            } else {
                s.completed(now)
            },
            AppView {
                events: polled(app.events, replies.take(k as int), wall),
                messages: pass_log(app.messages, app.events, replies, wall, k),
            },
        ),
        cycles_begun(s, app, answers(replies.take(k as int), now, wall)) == 0,
    decreases k,
{
    let inputs = answers(replies.take(k as int), now, wall);
    if k == 0 {
        assert(polled(app.events, replies.take(0), wall) =~= app.events);
    } else {
        let j = (k - 1) as nat;
        lemma_cycle_so_far(s, app, replies, now, wall, j);
        assert(inputs.drop_last() =~= answers(replies.take(j as int), now, wall));
        assert(inputs.last() == Input::Finished { outcome: poll_result(replies[j as int]), now, wall });
        let before = drive(s, app, inputs.drop_last());
        let id = app.events[j as int].id;
        let outcome = poll_result(replies[j as int]);
        assert(before.1.events[j as int].id == id);
        assert(before.1.record(id, outcome, wall).events =~= polled(
            app.events,
            replies.take(k as int),
            wall,
        )) by {
            assert forall|i: int| 0 <= i < app.events.len() implies #[trigger] before.1.record(
                id,
                outcome,
                wall,
            ).events[i] == polled(app.events, replies.take(k as int), wall)[i] by {
                if i != j {
                    assert(app.events[i].id != app.events[j as int].id);
                }
            }
        }
    }
}

/// A cycle of the scheduler books what one pass over the watchlist books.
/// Over unique identifiers, from the start of a cycle, the reports of one
/// poll for each event, in watchlist order, end the cycle at the last
/// report, start no other, and leave the shared state as
/// [`crate::poller_events::update_events_at`] leaves it for the same
/// replies: every event is updated, after a failure too, and each failure is
/// logged once.
pub proof fn lemma_cycle_is_one_pass(
    s: SchedulerView,
    app: AppView,
    replies: Seq<HttpReply>,
    now: nat,
    wall: int,
)
    requires
        s.phase == PhaseView::Polling(0),
        app.unique_ids(),
        replies.len() == app.events.len(),
        replies.len() > 0,
    ensures
        drive(s, app, answers(replies, now, wall)) == (
            s.completed(now),
            AppView {
                events: polled(app.events, replies, wall),
                messages: pass_log(app.messages, app.events, replies, wall, replies.len()),
            },
        ),
        cycles_begun(s, app, answers(replies, now, wall)) == 0,
{
    lemma_cycle_so_far(s, app, replies, now, wall, replies.len());
    assert(replies.take(replies.len() as int) =~= replies);
}

/// The changes of the shared state that reporting the result of the poll of
/// `id` consists of: the result is noted, and a failure is logged.
pub open spec fn report_changes(id: Seq<char>, outcome: Result<usize, PollError>, wall: int) -> Seq<Mutation> {
    match outcome {
        Ok(_) => seq![Mutation::Record { id, outcome, now: wall }],
        Err(reason) => seq![
            Mutation::Record { id, outcome, now: wall },
            Mutation::Append { text: error_text(id, reason), now: wall },
        ],
    }
}

/// The changes of the shared state that `input` brings about in the state
/// `s`: only the report of a poll in flight brings any.
pub open spec fn input_changes(s: SchedulerView, app: AppView, input: Input) -> Seq<Mutation> {
    match input {
        Input::Finished { outcome, now, wall } => match s.phase {
            PhaseView::Polling(next) => if next < app.events.len() {
                report_changes(app.events[next as int].id, outcome, wall)
            } else {
                Seq::empty()
            },
            PhaseView::Idle => Seq::empty(),
        },
        _ => Seq::empty(),
    }
}

/// The changes of the shared state that `inputs` bring about, first to last.
pub open spec fn drive_changes(s: SchedulerView, app: AppView, inputs: Seq<Input>) -> Seq<Mutation>
    decreases inputs.len(),
{
    if inputs.len() == 0 {
        Seq::empty()
    } else {
        let before = drive(s, app, inputs.drop_last());
        drive_changes(s, app, inputs.drop_last()) + input_changes(before.0, before.1, inputs.last())
    }
}

/// The scheduler changes the shared state only by noting poll results and
/// by logging: what it leaves behind is the state after a run of such
/// changes, so that all that holds of every run holds of it.
pub proof fn lemma_drive_is_a_run(s: SchedulerView, app: AppView, inputs: Seq<Input>)
    ensures
        drive(s, app, inputs).1 == apply_all(app, drive_changes(s, app, inputs)),
    decreases inputs.len(),
{
    if inputs.len() > 0 {
        let earlier = inputs.drop_last();
        lemma_drive_is_a_run(s, app, earlier);
        let before = drive(s, app, earlier);
        let step = input_changes(before.0, before.1, inputs.last());
        lemma_run_in_two(app, drive_changes(s, app, earlier), step);
        if step.len() == 0 {
            assert(step =~= Seq::<Mutation>::empty());
        } else {
            lemma_short_runs(before.1, step[0], step[step.len() - 1]);
            if step.len() == 1 {
                assert(step =~= seq![step[0]]);
            } else {
                assert(step =~= seq![step[0], step[1]]);
            }
        }
    }
}

/// Whatever happens to the scheduler, the watchlist keeps its events, their
/// order, identifiers and names, the log only grows at its end, and a
/// well-formed state stays well formed.
pub proof fn lemma_drive_keeps_state_sound(s: SchedulerView, app: AppView, inputs: Seq<Input>)
    ensures
        drive(s, app, inputs).1.events.len() == app.events.len(),
        forall|i: int|
            0 <= i < app.events.len() ==> {
                &&& (#[trigger] drive(s, app, inputs).1.events[i]).id == app.events[i].id
                &&& drive(s, app, inputs).1.events[i].name == app.events[i].name
            },
        app.messages.is_prefix_of(drive(s, app, inputs).1.messages),
        app.wf() ==> drive(s, app, inputs).1.wf(),
{
    let changes = drive_changes(s, app, inputs);
    lemma_drive_is_a_run(s, app, inputs);
    lemma_watchlist_is_fixed(app, changes);
    lemma_log_is_append_only(app, changes, 0);
    assert(changes.take(0) =~= Seq::<Mutation>::empty());
    if app.wf() {
        lemma_run_preserves_wf(app, changes);
    }
}

} // verus!
