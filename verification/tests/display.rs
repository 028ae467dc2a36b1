use tm_poller::poller_ui::{event_line, message_line, message_lines, offer_lines};
use tm_poller::schema::{App, Message, PollError, TMEvent};

#[test]
fn line_of_an_event_that_was_never_polled() {
    let ev = TMEvent::new("284753".to_string(), "Dynamo Metalfest".to_string());
    assert_eq!(event_line(&ev), "Dynamo Metalfest (284753) has 0 offers (last polled at never (-))");
}

#[test]
fn line_of_an_event_after_a_success() {
    let mut ev = TMEvent::new("280409".to_string(), "Lowlands".to_string());
    ev.record(Ok(12), 1_700_000_000);
    assert_eq!(event_line(&ev), "Lowlands (280409) has 12 offers (last polled at 22:13:20 (ok))");
}

#[test]
fn line_of_an_event_after_a_failure() {
    let mut ev = TMEvent::new("280407".to_string(), "Dummy".to_string());
    ev.record(Ok(4), 1_431_648_000);
    ev.record(Err(PollError::HttpStatus(503)), 1_431_648_061);
    assert_eq!(
        event_line(&ev),
        "Dummy (280407) has 4 offers (last polled at 00:01:01 (http status 503))"
    );
    ev.record(Err(PollError::Transport), 1_431_691_199);
    assert_eq!(
        event_line(&ev),
        "Dummy (280407) has 4 offers (last polled at 11:59:59 (transport failure))"
    );
}

#[test]
fn line_of_a_log_entry() {
    let m = Message::new_at("All events updated".to_string(), 1_431_648_000);
    assert_eq!(message_line(&m), "15/05 00:00:00 | All events updated");
    let m = Message::new_at(String::new(), 0);
    assert_eq!(message_line(&m), "01/01 00:00:00 | ");
    let m = Message::new_at("late".to_string(), 1_700_000_000);
    assert_eq!(message_line(&m), "14/11 22:13:20 | late");
    let m = Message::new_at("before the epoch".to_string(), -1);
    assert_eq!(message_line(&m), "31/12 23:59:59 | before the epoch");
}

#[test]
fn stamp_beyond_the_calendar_is_a_question_mark() {
    let m = Message::new_at("far".to_string(), i64::MAX);
    assert_eq!(message_line(&m), "? | far");
    let mut ev = TMEvent::new("1".to_string(), "x".to_string());
    ev.record(Ok(1), i64::MIN);
    assert_eq!(event_line(&ev), "x (1) has 1 offers (last polled at ? (ok))");
}

#[test]
fn offer_lines_follow_the_watchlist() {
    let mut app = App::new();
    assert!(app.add_event("1".to_string(), "one".to_string()));
    assert!(app.add_event("2".to_string(), "two".to_string()));
    app.record_poll_result_at("2", Ok(5), 3_600);
    let lines = offer_lines(&app);
    assert_eq!(
        lines,
        vec![
            "one (1) has 0 offers (last polled at never (-))".to_string(),
            "two (2) has 5 offers (last polled at 01:00:00 (ok))".to_string(),
        ]
    );
    assert!(offer_lines(&App::new()).is_empty());
}

#[test]
fn message_lines_show_the_newest_entry_first() {
    let mut app = App::new();
    app.append_message_at("first", 0);
    app.append_message_at("second", 60);
    app.append_message_at("third", 86_400);
    let lines = message_lines(&app);
    assert_eq!(
        lines,
        vec![
            "02/01 00:00:00 | third".to_string(),
            "01/01 00:01:00 | second".to_string(),
            "01/01 00:00:00 | first".to_string(),
        ]
    );
    assert!(message_lines(&App::new()).is_empty());
}

#[test]
fn time_of_day_is_two_digits_each_and_counts_from_midnight() {
    let cases: [(i64, &str); 8] = [
        (0, "00:00:00"),
        (59, "00:00:59"),
        (60, "00:01:00"),
        (3_599, "00:59:59"),
        (3_600, "01:00:00"),
        (86_399, "23:59:59"),
        (86_400, "00:00:00"),
        (1_700_000_000, "22:13:20"),
    ];
    for (secs, text) in cases.iter() {
        let mut ev = TMEvent::new("1".to_string(), "x".to_string());
        ev.record(Ok(0), *secs);
        assert_eq!(event_line(&ev), format!("x (1) has 0 offers (last polled at {} (ok))", text));
    }
}

#[test]
fn time_of_day_before_the_epoch_counts_from_the_midnight_before() {
    let cases: [(i64, &str); 4] =
        [(-1, "23:59:59"), (-60, "23:59:00"), (-86_400, "00:00:00"), (-86_401, "23:59:59")];
    for (secs, text) in cases.iter() {
        let mut ev = TMEvent::new("1".to_string(), "x".to_string());
        ev.record(Ok(0), *secs);
        assert_eq!(event_line(&ev), format!("x (1) has 0 offers (last polled at {} (ok))", text));
    }
}
