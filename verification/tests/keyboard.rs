use tm_poller::dashboard::{dispatch_key, handle_keys, handle_keys_at, Command, Key, MANUAL_POLL_NOTE};
use tm_poller::scheduler::{Phase, Scheduler};
use tm_poller::schema::{App, PollStatus};
use tm_poller::shutdown::ShutdownCoordinator;

fn fixtures() -> (Scheduler, App, ShutdownCoordinator) {
    let mut app = App::new();
    assert!(app.add_event("284753".to_string(), "Metalfest".to_string()));
    (Scheduler::new(60_000), app, ShutdownCoordinator::new())
}

#[test]
fn q_and_escape_quit() {
    assert_eq!(dispatch_key(Key::Char('q')), Command::Quit);
    assert_eq!(dispatch_key(Key::Esc), Command::Quit);
}

#[test]
fn p_polls() {
    assert_eq!(dispatch_key(Key::Char('p')), Command::ManualPoll);
}

#[test]
fn every_other_key_is_ignored() {
    for c in ['Q', 'P', 'a', 'z', '0', ' ', '\n', '\u{1b}', 'é'] {
        assert_eq!(dispatch_key(Key::Char(c)), Command::Ignore);
    }
    assert_eq!(dispatch_key(Key::Other), Command::Ignore);
}

#[test]
fn manual_poll_note_text() {
    assert_eq!(MANUAL_POLL_NOTE, "user forced polling");
}

#[test]
fn no_keys_change_nothing() {
    let (mut scheduler, mut app, mut shutdown) = fixtures();
    assert!(!handle_keys_at(&Vec::new(), &mut scheduler, &mut app, &mut shutdown, 10));
    assert!(!scheduler.has_pending_trigger());
    assert!(!shutdown.is_signalled());
    assert_eq!(app.messages.len(), 0);
}

#[test]
fn poll_key_sends_a_trigger_and_logs_a_note() {
    let (mut scheduler, mut app, mut shutdown) = fixtures();
    let quit = handle_keys_at(&vec![Key::Char('p')], &mut scheduler, &mut app, &mut shutdown, 10);
    assert!(!quit);
    assert!(scheduler.has_pending_trigger());
    assert!(!scheduler.is_stopping());
    assert_eq!(scheduler.phase(), Phase::Idle);
    assert!(!shutdown.is_signalled());
    assert_eq!(app.messages.len(), 1);
    assert_eq!(app.messages.messages[0].content, "user forced polling");
    assert_eq!(app.messages.messages[0].datetime_sent, 10);
    assert_eq!(app.events.len(), 1);
    assert_eq!(app.events[0].num_offers, 0);
    assert_eq!(app.events[0].last_updated, None);
    assert_eq!(app.events[0].last_outcome, PollStatus::Pending);
}

#[test]
fn each_poll_key_logs_a_note_but_the_trigger_is_one() {
    let (mut scheduler, mut app, mut shutdown) = fixtures();
    let keys = vec![Key::Char('p'), Key::Other, Key::Char('p'), Key::Char('x'), Key::Char('p')];
    assert!(!handle_keys_at(&keys, &mut scheduler, &mut app, &mut shutdown, 10));
    assert!(scheduler.has_pending_trigger());
    assert_eq!(app.messages.len(), 3);
    for m in app.messages.messages.iter() {
        assert_eq!(m.content, "user forced polling");
    }
}

#[test]
fn quit_key_raises_the_signal_and_drops_the_keys_after_it() {
    let (mut scheduler, mut app, mut shutdown) = fixtures();
    let keys = vec![Key::Char('a'), Key::Char('p'), Key::Esc, Key::Char('p'), Key::Char('p')];
    assert!(handle_keys_at(&keys, &mut scheduler, &mut app, &mut shutdown, 10));
    assert!(shutdown.is_signalled());
    assert!(scheduler.has_pending_trigger());
    assert_eq!(app.messages.len(), 1);
}

#[test]
fn quit_key_first_leaves_scheduler_and_log_alone() {
    let (mut scheduler, mut app, mut shutdown) = fixtures();
    let keys = vec![Key::Char('q'), Key::Char('p')];
    assert!(handle_keys_at(&keys, &mut scheduler, &mut app, &mut shutdown, 10));
    assert!(shutdown.is_signalled());
    assert!(!scheduler.has_pending_trigger());
    assert!(!scheduler.is_stopping());
    assert_eq!(app.messages.len(), 0);
}

#[test]
fn ignored_keys_change_nothing() {
    let (mut scheduler, mut app, mut shutdown) = fixtures();
    let keys = vec![Key::Other, Key::Char('Q'), Key::Char('P'), Key::Char(' ')];
    assert!(!handle_keys_at(&keys, &mut scheduler, &mut app, &mut shutdown, 10));
    assert!(!scheduler.has_pending_trigger());
    assert!(!shutdown.is_signalled());
    assert_eq!(app.messages.len(), 0);
}

#[test]
fn keys_stamped_by_the_wall_clock() {
    let (mut scheduler, mut app, mut shutdown) = fixtures();
    assert!(!handle_keys(&vec![Key::Char('p')], &mut scheduler, &mut app, &mut shutdown));
    assert!(scheduler.has_pending_trigger());
    assert_eq!(app.messages.len(), 1);
    assert_eq!(app.messages.messages[0].content, "user forced polling");
    assert!(app.messages.messages[0].datetime_sent > 1_600_000_000);
    assert!(handle_keys(&vec![Key::Esc], &mut scheduler, &mut app, &mut shutdown));
    assert!(shutdown.is_signalled());
}
