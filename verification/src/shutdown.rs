//! The way out: one signal that tells every worker to stop, and the count
//! of the workers that have stopped.
//!
//! The dashboard raises the signal when the user quits. The polling worker
//! and the read endpoint watch for it, finish what they are at, and report.
//! The process may exit once the signal is up and all three have reported.

use crate::scheduler::Scheduler;
use vstd::prelude::*;

verus! {

/// A long-running part of the program.
#[derive(Clone, Copy, Debug, PartialEq, Eq, Structural)]
pub enum Worker {
    Dashboard,
    Scheduler,
    ReadApi,
}

/// The shutdown signal and the reports of the workers.
#[derive(Debug)]
pub struct ShutdownCoordinator {
    signalled: bool,
    dashboard_done: bool,
    scheduler_done: bool,
    read_api_done: bool,
}

/// The mathematical value of a [`ShutdownCoordinator`].
pub struct ShutdownView {
    /// The signal is up.
    pub signalled: bool,
    /// The workers that have reported that they stopped.
    pub done: Set<Worker>,
}

impl ShutdownView {
    /// Nothing signalled, nothing reported.
    pub open spec fn initial() -> ShutdownView {
        ShutdownView { signalled: false, done: Set::empty() }
    }

    /// The state after the signal was raised.
    pub open spec fn raised(self) -> ShutdownView {
        ShutdownView { signalled: true, ..self }
    }

    /// The state after `worker` reported that it stopped.
    pub open spec fn reported(self, worker: Worker) -> ShutdownView {
        ShutdownView { done: self.done.insert(worker), ..self }
    }

    /// The process may exit: the signal is up and every worker has reported.
    pub open spec fn may_exit(self) -> bool {
        &&& self.signalled
        &&& self.done.contains(Worker::Dashboard)
        &&& self.done.contains(Worker::Scheduler)
        &&& self.done.contains(Worker::ReadApi)
    }
}

impl View for ShutdownCoordinator {
    type V = ShutdownView;

    closed spec fn view(&self) -> ShutdownView {
        ShutdownView {
            signalled: self.signalled,
            done: Set::new(
                |w: Worker|
                    match w {
                        Worker::Dashboard => self.dashboard_done,
                        Worker::Scheduler => self.scheduler_done,
                        Worker::ReadApi => self.read_api_done,
                    },
            ),
        }
    }
}

impl ShutdownCoordinator {
    /// A coordinator with the signal down and no report in.
    pub fn new() -> (coordinator: Self)
        ensures
            coordinator@ == ShutdownView::initial(),
    {
        let coordinator = ShutdownCoordinator {
            signalled: false,
            dashboard_done: false,
            scheduler_done: false,
            read_api_done: false,
        };
        assert(coordinator@.done =~= Set::<Worker>::empty());
        coordinator
    }

    /// Raises the signal. The answer is `true` for the call that raised it,
    /// and `false` for every call after that, which changes nothing.
    pub fn signal(&mut self) -> (first: bool)
        ensures
            final(self)@ == old(self)@.raised(),
            first == !old(self)@.signalled,
    {
        let first = !self.signalled;
        self.signalled = true;
        assert(self@.done =~= old(self)@.done);
        first
    }

    /// Whether the signal is up.
    pub fn is_signalled(&self) -> (up: bool)
        ensures
            up == self@.signalled,
    {
        self.signalled
    }

    /// Notes that `worker` has stopped.
    pub fn report_done(&mut self, worker: Worker)
        ensures
            final(self)@ == old(self)@.reported(worker),
    {
        match worker {
            Worker::Dashboard => {
                self.dashboard_done = true;
            },
            Worker::Scheduler => {
                self.scheduler_done = true;
            },
            Worker::ReadApi => {
                self.read_api_done = true;
            },
        }
        assert(self@.done =~= old(self)@.done.insert(worker));
    }

    /// Whether `worker` has reported that it stopped.
    pub fn is_done(&self, worker: Worker) -> (done: bool)
        ensures
            done == self@.done.contains(worker),
    {
        match worker {
            Worker::Dashboard => self.dashboard_done,
            Worker::Scheduler => self.scheduler_done,
            Worker::ReadApi => self.read_api_done,
        }
    }

    /// Whether the process may exit.
    pub fn may_exit(&self) -> (exit: bool)
        ensures
            exit == self@.may_exit(),
    {
        self.signalled && self.dashboard_done && self.scheduler_done && self.read_api_done
    }

    /// Lets the polling worker see the signal: where it is up, the scheduler
    /// is asked to stop; where it is down, nothing changes.
    pub fn notify(&self, scheduler: &mut Scheduler)
        ensures
            final(scheduler)@ == (if self@.signalled {
                old(scheduler)@.stopped()
            } else {
                old(scheduler)@
            }),
    {
        if self.signalled {
            scheduler.request_stop();
        }
    }
}

/// One thing that the coordinator is told.
pub enum Notice {
    /// The signal is raised.
    Signal,
    /// A worker reports that it stopped.
    Done(Worker),
}

/// The state `c` after `notice`.
pub open spec fn noted(c: ShutdownView, notice: Notice) -> ShutdownView {
    match notice {
        Notice::Signal => c.raised(),
        Notice::Done(worker) => c.reported(worker),
    }
}

/// The state `c` after `notices`, first to last.
pub open spec fn noted_all(c: ShutdownView, notices: Seq<Notice>) -> ShutdownView
    decreases notices.len(),
{
    if notices.len() == 0 {
        c
    } else {
        noted(noted_all(c, notices.drop_last()), notices.last())
    }
}

/// The signal is raised once: raising it again changes nothing.
pub proof fn lemma_signal_is_one_shot(c: ShutdownView)
    ensures
        c.raised().raised() == c.raised(),
        c.raised().signalled,
        c.raised().done == c.done,
{
}

/// Nothing takes the signal down or a report back: what was signalled and
/// reported stays so, whatever the coordinator is told afterwards. A process
/// that may exit may still exit later.
pub proof fn lemma_shutdown_only_advances(c: ShutdownView, notices: Seq<Notice>)
    ensures
        c.signalled ==> noted_all(c, notices).signalled,
        c.done.subset_of(noted_all(c, notices).done),
        c.may_exit() ==> noted_all(c, notices).may_exit(),
    decreases notices.len(),
{
    if notices.len() > 0 {
        lemma_shutdown_only_advances(c, notices.drop_last());
    }
}

/// The exit waits for everyone: from the start, the process may exit after
/// `notices` exactly when the signal and the reports of all three workers
/// are among them.
pub proof fn lemma_exit_waits_for_all(notices: Seq<Notice>)
    ensures
        noted_all(ShutdownView::initial(), notices).signalled <==> notices.contains(Notice::Signal),
        forall|w: Worker| #[trigger]
            noted_all(ShutdownView::initial(), notices).done.contains(w) <==> notices.contains(
                Notice::Done(w),
            ),
        noted_all(ShutdownView::initial(), notices).may_exit() <==> {
            &&& notices.contains(Notice::Signal)
            &&& notices.contains(Notice::Done(Worker::Dashboard))
            &&& notices.contains(Notice::Done(Worker::Scheduler))
            &&& notices.contains(Notice::Done(Worker::ReadApi))
        },
    decreases notices.len(),
{
    if notices.len() > 0 {
        let earlier = notices.drop_last();
        lemma_exit_waits_for_all(earlier);
        assert forall|n: Notice| notices.contains(n) <==> (earlier.contains(n) || notices.last() == n) by {
            if notices.contains(n) {
                let i = choose|i: int| 0 <= i < notices.len() && notices[i] == n;
                if i < notices.len() - 1 {
                    assert(earlier[i] == n);
                }
            }
            if earlier.contains(n) {
                let i = choose|i: int| 0 <= i < earlier.len() && earlier[i] == n;
                assert(notices[i] == n);
            }
            if notices.last() == n {
                assert(notices[notices.len() - 1] == n);
            }
        }
    }
}

} // verus!
