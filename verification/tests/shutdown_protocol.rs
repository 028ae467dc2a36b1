use tm_poller::scheduler::Scheduler;
use tm_poller::shutdown::{ShutdownCoordinator, Worker};

#[test]
fn new_coordinator_has_nothing_signalled_or_reported() {
    let c = ShutdownCoordinator::new();
    assert!(!c.is_signalled());
    assert!(!c.is_done(Worker::Dashboard));
    assert!(!c.is_done(Worker::Scheduler));
    assert!(!c.is_done(Worker::ReadApi));
    assert!(!c.may_exit());
}

#[test]
fn only_the_first_signal_counts() {
    let mut c = ShutdownCoordinator::new();
    assert!(c.signal());
    assert!(c.is_signalled());
    assert!(!c.signal());
    assert!(!c.signal());
    assert!(c.is_signalled());
    assert!(!c.may_exit());
}

#[test]
fn exit_waits_for_all_three_workers() {
    let orders = [
        [Worker::Dashboard, Worker::Scheduler, Worker::ReadApi],
        [Worker::ReadApi, Worker::Dashboard, Worker::Scheduler],
        [Worker::Scheduler, Worker::ReadApi, Worker::Dashboard],
    ];
    for order in orders.iter() {
        let mut c = ShutdownCoordinator::new();
        assert!(c.signal());
        for (k, worker) in order.iter().enumerate() {
            assert!(!c.may_exit());
            c.report_done(*worker);
            assert!(c.is_done(*worker));
            assert_eq!(c.may_exit(), k == 2);
        }
    }
}

#[test]
fn reports_without_the_signal_do_not_allow_exit() {
    let mut c = ShutdownCoordinator::new();
    c.report_done(Worker::Dashboard);
    c.report_done(Worker::Scheduler);
    c.report_done(Worker::ReadApi);
    assert!(!c.may_exit());
    assert!(c.signal());
    assert!(c.may_exit());
}

#[test]
fn a_repeated_report_counts_once() {
    let mut c = ShutdownCoordinator::new();
    c.signal();
    c.report_done(Worker::Scheduler);
    c.report_done(Worker::Scheduler);
    c.report_done(Worker::Scheduler);
    assert!(c.is_done(Worker::Scheduler));
    assert!(!c.is_done(Worker::Dashboard));
    assert!(!c.may_exit());
}

#[test]
fn scheduler_sees_the_signal_only_once_it_is_up() {
    let mut c = ShutdownCoordinator::new();
    let mut scheduler = Scheduler::new(1000);
    c.notify(&mut scheduler);
    assert!(!scheduler.is_stopping());
    c.signal();
    c.notify(&mut scheduler);
    assert!(scheduler.is_stopping());
    c.notify(&mut scheduler);
    assert!(scheduler.is_stopping());
}
