//! Runs of state changes, and what holds of every run.
//!
//! Everything that changes the shared state does so through two steps:
//! noting the end of a poll attempt, and logging a message. A run is a
//! sequence of such steps.

use crate::schema::{recorded, AppView, PollError, PollStatus, TMEventView};
use vstd::prelude::*;

verus! {

/// One change of the shared state.
pub enum Mutation {
    /// The poll attempt of `id` ended with `outcome` at `now`.
    Record { id: Seq<char>, outcome: Result<usize, PollError>, now: int },
    /// `text` was logged at clock reading `now`.
    Append { text: Seq<char>, now: int },
}

/// The state `s` after the change `m`.
pub open spec fn apply(s: AppView, m: Mutation) -> AppView {
    match m {
        Mutation::Record { id, outcome, now } => s.record(id, outcome, now),
        Mutation::Append { text, now } => s.append(text, now),
    }
}

/// The state `s` after the changes `ms`, first to last.
pub open spec fn apply_all(s: AppView, ms: Seq<Mutation>) -> AppView
    decreases ms.len(),
{
    if ms.len() == 0 {
        s
    } else {
        apply(apply_all(s, ms.drop_last()), ms.last())
    }
}

/// The count that the latest successful poll attempt of `id` in `ms`
/// reported, or `None` where no attempt of `id` in `ms` succeeded.
pub open spec fn latest_success(ms: Seq<Mutation>, id: Seq<char>) -> Option<nat>
    decreases ms.len(),
{
    if ms.len() == 0 {
        None
    } else {
        match ms.last() {
            Mutation::Record { id: polled, outcome: Ok(n), now } => if polled == id {
                Some(n as nat)
            } else {
                latest_success(ms.drop_last(), id)
            },
            _ => latest_success(ms.drop_last(), id),
        }
    }
}

/// A failed poll attempt leaves the known count as it was.
pub proof fn lemma_failure_keeps_count(e: TMEventView, reason: PollError, now: int)
    ensures
        recorded(e, Err(reason), now).num_offers == e.num_offers,
        recorded(e, Err(reason), now).last_updated == Some(now),
        recorded(e, Err(reason), now).last_outcome == PollStatus::Failure(reason),
{
}

/// A poll result lands whole. In the state after it was noted, an event with
/// another identifier is what it was, and an event with this identifier
/// carries all of the result at once: the timestamp, the status and, after a
/// success, the count. A copy of the state, taken before or after, never
/// shows one without the others.
pub proof fn lemma_result_lands_whole(
    s: AppView,
    id: Seq<char>,
    outcome: Result<usize, PollError>,
    now: int,
    i: int,
)
    requires
        0 <= i < s.events.len(),
    ensures
        s.record(id, outcome, now).events.len() == s.events.len(),
        s.events[i].id != id ==> s.record(id, outcome, now).events[i] == s.events[i],
        s.events[i].id == id ==> {
            let after = s.record(id, outcome, now).events[i];
            &&& after.last_updated == Some(now)
            &&& after.last_outcome == (match outcome {
                Ok(_) => PollStatus::Success,
                Err(reason) => PollStatus::Failure(reason),
            })
            &&& after.num_offers == (match outcome {
                Ok(n) => n as nat,
                Err(_) => s.events[i].num_offers,
            })
            &&& after.id == s.events[i].id
            &&& after.name == s.events[i].name
        },
{
}

/// Noting a result for an identifier that is not watched changes nothing.
pub proof fn lemma_record_unwatched_is_noop(
    s: AppView,
    id: Seq<char>,
    outcome: Result<usize, PollError>,
    now: int,
)
    requires
        !s.watches(id),
    ensures
        s.record(id, outcome, now) == s,
{
    assert(s.record(id, outcome, now).events =~= s.events);
}

/// No run adds, drops, reorders or renames an event of the watchlist.
pub proof fn lemma_watchlist_is_fixed(s: AppView, ms: Seq<Mutation>)
    ensures
        apply_all(s, ms).events.len() == s.events.len(),
        forall|i: int|
            0 <= i < s.events.len() ==> {
                &&& (#[trigger] apply_all(s, ms).events[i]).id == s.events[i].id
                &&& apply_all(s, ms).events[i].name == s.events[i].name
            },
    decreases ms.len(),
{
    if ms.len() > 0 {
        lemma_watchlist_is_fixed(s, ms.drop_last());
    }
}

/// After any run, the known count of an event is the count that its latest
/// successful poll attempt in the run reported; where none succeeded, it is
/// the count from before the run. Failed attempts never show in it.
pub proof fn lemma_count_reflects_successes(s: AppView, ms: Seq<Mutation>, i: int)
    requires
        0 <= i < s.events.len(),
    ensures
        apply_all(s, ms).events.len() == s.events.len(),
        apply_all(s, ms).events[i].num_offers == (match latest_success(ms, s.events[i].id) {
            Some(n) => n,
            None => s.events[i].num_offers,
        }),
    decreases ms.len(),
{
    lemma_watchlist_is_fixed(s, ms);
    if ms.len() > 0 {
        lemma_count_reflects_successes(s, ms.drop_last(), i);
        lemma_watchlist_is_fixed(s, ms.drop_last());
    }
}

/// The log only grows, at its end: what it held after the first `k` changes
/// of a run stands unchanged, and in the same order, at the front of what it
/// holds after the whole run.
pub proof fn lemma_log_is_append_only(s: AppView, ms: Seq<Mutation>, k: int)
    requires
        0 <= k <= ms.len(),
    ensures
        apply_all(s, ms.take(k)).messages.is_prefix_of(apply_all(s, ms).messages),
        apply_all(s, ms.take(k)).messages.len() <= apply_all(s, ms).messages.len(),
    decreases ms.len(),
{
    if k == ms.len() {
        assert(ms.take(k) =~= ms);
    } else {
        lemma_log_is_append_only(s, ms.drop_last(), k);
        assert(ms.drop_last().take(k) =~= ms.take(k));
    }
}

/// A well-formed state stays well formed through every run: identifiers stay
/// unique, an event carries a timestamp exactly when it was polled, and the
/// stamps of the log stay ordered.
pub proof fn lemma_run_preserves_wf(s: AppView, ms: Seq<Mutation>)
    requires
        s.wf(),
    ensures
        apply_all(s, ms).wf(),
    decreases ms.len(),
{
    if ms.len() > 0 {
        lemma_run_preserves_wf(s, ms.drop_last());
    }
}

/// A run in two parts is the second part after the first.
pub proof fn lemma_run_in_two(s: AppView, first: Seq<Mutation>, second: Seq<Mutation>)
    ensures
        apply_all(s, first + second) == apply_all(apply_all(s, first), second),
    decreases second.len(),
{
    if second.len() == 0 {
        assert(first + second =~= first);
    } else {
        lemma_run_in_two(s, first, second.drop_last());
        assert((first + second).drop_last() =~= first + second.drop_last());
        assert((first + second).last() == second.last());
    }
}

/// A run of one change is that change, and a run of two is one after the
/// other.
pub proof fn lemma_short_runs(s: AppView, m1: Mutation, m2: Mutation)
    ensures
        apply_all(s, Seq::empty()) == s,
        apply_all(s, seq![m1]) == apply(s, m1),
        apply_all(s, seq![m1, m2]) == apply(apply(s, m1), m2),
{
    assert(seq![m1].drop_last() =~= Seq::<Mutation>::empty());
    assert(apply_all(s, seq![m1]) == apply(apply_all(s, seq![m1].drop_last()), m1));
    assert(seq![m1, m2].drop_last() =~= seq![m1]);
    assert(apply_all(s, seq![m1, m2]) == apply(apply_all(s, seq![m1, m2].drop_last()), m2));
}

} // verus!
