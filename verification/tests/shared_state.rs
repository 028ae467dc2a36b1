use tm_poller::schema::{App, Message, Messages, PollError, PollStatus, TMEvent};

fn one_event_app() -> App {
    let mut app = App::new();
    assert!(app.add_event("284753".to_string(), "Metalfest".to_string()));
    app
}

#[test]
fn new_event_has_no_offers_and_no_timestamp() {
    let ev = TMEvent::new("284753".to_string(), "Dynamo Metalfest".to_string());
    assert_eq!(ev.id, "284753");
    assert_eq!(ev.name, "Dynamo Metalfest");
    assert_eq!(ev.num_offers, 0);
    assert_eq!(ev.last_updated, None);
    assert_eq!(ev.last_outcome, PollStatus::Pending);
}

#[test]
fn event_name_may_be_empty() {
    let ev = TMEvent::new("1".to_string(), String::new());
    assert_eq!(ev.name, "");
    assert_eq!(ev.num_offers, 0);
}

#[test]
fn record_success_sets_count_timestamp_and_status() {
    let mut ev = TMEvent::new("a".to_string(), "A".to_string());
    ev.record(Ok(7), 1_700_000_000);
    assert_eq!(ev.num_offers, 7);
    assert_eq!(ev.last_updated, Some(1_700_000_000));
    assert_eq!(ev.last_outcome, PollStatus::Success);
}

#[test]
fn record_failure_keeps_count_but_sets_timestamp_and_status() {
    let mut ev = TMEvent::new("a".to_string(), "A".to_string());
    ev.record(Ok(7), 100);
    ev.record(Err(PollError::Decode), 200);
    assert_eq!(ev.num_offers, 7);
    assert_eq!(ev.last_updated, Some(200));
    assert_eq!(ev.last_outcome, PollStatus::Failure(PollError::Decode));
}

#[test]
fn failure_before_any_success_leaves_count_at_zero() {
    let mut ev = TMEvent::new("a".to_string(), "A".to_string());
    ev.record(Err(PollError::Transport), 5);
    assert_eq!(ev.num_offers, 0);
    assert_eq!(ev.last_updated, Some(5));
    assert_eq!(ev.last_outcome, PollStatus::Failure(PollError::Transport));
}

#[test]
fn count_follows_only_successful_outcomes() {
    let mut app = one_event_app();
    let outcomes: Vec<Result<usize, PollError>> = vec![
        Err(PollError::Transport),
        Ok(4),
        Err(PollError::HttpStatus(500)),
        Err(PollError::Decode),
        Ok(0),
        Ok(9),
        Err(PollError::HttpStatus(404)),
    ];
    let expected: Vec<usize> = vec![0, 4, 4, 4, 0, 9, 9];
    for (k, outcome) in outcomes.iter().enumerate() {
        app.record_poll_result_at("284753", *outcome, 10 + k as i64);
        assert_eq!(app.events[0].num_offers, expected[k]);
        assert_eq!(app.events[0].last_updated, Some(10 + k as i64));
    }
    assert_eq!(app.events[0].last_outcome, PollStatus::Failure(PollError::HttpStatus(404)));
}

#[test]
fn record_for_unknown_identifier_changes_nothing() {
    let mut app = one_event_app();
    app.record_poll_result_at("284753", Ok(2), 50);
    app.append_message_at("hello", 60);
    let before = app.snapshot();
    app.record_poll_result_at("999999", Ok(5), 70);
    app.record_poll_result_at("", Err(PollError::Transport), 80);
    app.record_poll_result_at("28475", Ok(1), 90);
    assert_eq!(app.events.len(), 1);
    assert_eq!(app.events[0].id, before.events[0].id);
    assert_eq!(app.events[0].num_offers, 2);
    assert_eq!(app.events[0].last_updated, Some(50));
    assert_eq!(app.events[0].last_outcome, PollStatus::Success);
    assert_eq!(app.messages.len(), 1);
}

#[test]
fn record_touches_only_the_named_event() {
    let mut app = App::new();
    assert!(app.add_event("1".to_string(), "one".to_string()));
    assert!(app.add_event("2".to_string(), "two".to_string()));
    assert!(app.add_event("3".to_string(), "three".to_string()));
    app.record_poll_result_at("2", Ok(11), 1000);
    assert_eq!(app.events[0].num_offers, 0);
    assert_eq!(app.events[0].last_updated, None);
    assert_eq!(app.events[1].num_offers, 11);
    assert_eq!(app.events[1].last_updated, Some(1000));
    assert_eq!(app.events[1].last_outcome, PollStatus::Success);
    assert_eq!(app.events[2].num_offers, 0);
    assert_eq!(app.events[2].last_outcome, PollStatus::Pending);
    let names: Vec<&str> = app.events.iter().map(|e| e.name.as_str()).collect();
    assert_eq!(names, vec!["one", "two", "three"]);
}

#[test]
fn record_with_the_wall_clock_stamps_the_event() {
    let mut app = one_event_app();
    app.record_poll_result("284753", Ok(3));
    assert_eq!(app.events[0].num_offers, 3);
    assert_eq!(app.events[0].last_outcome, PollStatus::Success);
    assert!(app.events[0].last_updated.unwrap() > 1_600_000_000);
    app.record_poll_result("nobody", Ok(8));
    assert_eq!(app.events.len(), 1);
    assert_eq!(app.events[0].num_offers, 3);
}

#[test]
fn duplicate_identifier_is_turned_away() {
    let mut app = one_event_app();
    assert!(!app.add_event("284753".to_string(), "Another name".to_string()));
    assert_eq!(app.events.len(), 1);
    assert_eq!(app.events[0].name, "Metalfest");
    assert!(app.add_event("284754".to_string(), "Metalfest".to_string()));
    assert_eq!(app.events.len(), 2);
    assert!(app.watches("284753"));
    assert!(app.watches("284754"));
    assert!(!app.watches("28475"));
    assert!(!app.watches(""));
}

#[test]
fn default_state_watches_three_events() {
    let app = App::default();
    let ids: Vec<&str> = app.events.iter().map(|e| e.id.as_str()).collect();
    let names: Vec<&str> = app.events.iter().map(|e| e.name.as_str()).collect();
    assert_eq!(ids, vec!["284753", "280409", "280407"]);
    assert_eq!(names, vec!["Dynamo Metalfest", "Lowlands", "Dummy"]);
    for e in app.events.iter() {
        assert_eq!(e.num_offers, 0);
        assert_eq!(e.last_updated, None);
        assert_eq!(e.last_outcome, PollStatus::Pending);
    }
    assert_eq!(app.messages.len(), 1);
    assert_eq!(app.messages.messages[0].content, "Initializing");
}

#[test]
fn default_log_opens_with_initializing() {
    let log = Messages::default();
    assert_eq!(log.len(), 1);
    assert_eq!(log.messages[0].content, "Initializing");
    assert!(log.messages[0].datetime_sent > 1_600_000_000);
}

#[test]
fn new_log_is_empty() {
    let log = Messages::new();
    assert_eq!(log.len(), 0);
    assert!(log.messages.is_empty());
}

#[test]
fn message_new_at_keeps_text_and_stamp() {
    let m = Message::new_at("All events updated".to_string(), 42);
    assert_eq!(m.content, "All events updated");
    assert_eq!(m.datetime_sent, 42);
    let n = Message::new_at(String::new(), -1);
    assert_eq!(n.content, "");
    assert_eq!(n.datetime_sent, -1);
}

#[test]
fn message_new_is_stamped_by_the_wall_clock() {
    let m = Message::new("now".to_string());
    assert_eq!(m.content, "now");
    assert!(m.datetime_sent > 1_600_000_000);
}

#[test]
fn log_grows_by_one_and_keeps_insertion_order() {
    let mut log = Messages::new();
    let texts = ["first", "second", "", "fourth"];
    for (k, text) in texts.iter().enumerate() {
        log.submit_message_at(text, 100 + k as i64);
        assert_eq!(log.len(), k + 1);
        for j in 0..=k {
            assert_eq!(log.messages[j].content, texts[j]);
            assert_eq!(log.messages[j].datetime_sent, 100 + j as i64);
        }
    }
}

#[test]
fn stamps_never_decrease_when_the_clock_steps_back() {
    let mut log = Messages::new();
    log.submit_message_at("a", 100);
    log.submit_message_at("b", 90);
    log.submit_message_at("c", 95);
    log.submit_message_at("d", 100);
    log.submit_message_at("e", 101);
    let stamps: Vec<i64> = log.messages.iter().map(|m| m.datetime_sent).collect();
    assert_eq!(stamps, vec![100, 100, 100, 100, 101]);
    let texts: Vec<&str> = log.messages.iter().map(|m| m.content.as_str()).collect();
    assert_eq!(texts, vec!["a", "b", "c", "d", "e"]);
}

#[test]
fn first_entry_takes_any_stamp() {
    let mut log = Messages::new();
    log.submit_message_at("early", i64::MIN);
    assert_eq!(log.messages[0].datetime_sent, i64::MIN);
    log.submit_message_at("late", i64::MAX);
    assert_eq!(log.messages[1].datetime_sent, i64::MAX);
    log.submit_message_at("after", 0);
    assert_eq!(log.messages[2].datetime_sent, i64::MAX);
}

#[test]
fn submit_message_uses_the_wall_clock() {
    let mut log = Messages::new();
    log.submit_message("Initialized, running program ...");
    log.submit_message("Executing first poll");
    assert_eq!(log.len(), 2);
    assert_eq!(log.messages[0].content, "Initialized, running program ...");
    assert_eq!(log.messages[1].content, "Executing first poll");
    assert!(log.messages[0].datetime_sent > 1_600_000_000);
    assert!(log.messages[0].datetime_sent <= log.messages[1].datetime_sent);
}

#[test]
fn append_message_leaves_the_watchlist_alone() {
    let mut app = one_event_app();
    app.record_poll_result_at("284753", Ok(6), 10);
    app.append_message_at("note", 20);
    app.append_message("another");
    assert_eq!(app.messages.len(), 2);
    assert_eq!(app.messages.messages[0].content, "note");
    assert_eq!(app.messages.messages[0].datetime_sent, 20);
    assert_eq!(app.messages.messages[1].content, "another");
    assert_eq!(app.events.len(), 1);
    assert_eq!(app.events[0].num_offers, 6);
    assert_eq!(app.events[0].last_updated, Some(10));
}

#[test]
fn snapshot_is_a_whole_copy_that_later_writes_do_not_reach() {
    let mut app = one_event_app();
    app.record_poll_result_at("284753", Ok(3), 10);
    app.append_message_at("before", 11);
    let copy = app.snapshot();
    app.record_poll_result_at("284753", Ok(8), 20);
    app.append_message_at("after", 21);

    assert_eq!(copy.events.len(), 1);
    assert_eq!(copy.events[0].id, "284753");
    assert_eq!(copy.events[0].name, "Metalfest");
    assert_eq!(copy.events[0].num_offers, 3);
    assert_eq!(copy.events[0].last_updated, Some(10));
    assert_eq!(copy.events[0].last_outcome, PollStatus::Success);
    assert_eq!(copy.messages.len(), 1);
    assert_eq!(copy.messages.messages[0].content, "before");

    let later = app.clone();
    assert_eq!(later.events[0].num_offers, 8);
    assert_eq!(later.events[0].last_updated, Some(20));
    assert_eq!(later.messages.len(), 2);
}

#[test]
fn count_and_timestamp_change_together_in_every_snapshot() {
    let mut app = one_event_app();
    let outcomes: Vec<Result<usize, PollError>> =
        vec![Ok(1), Err(PollError::Transport), Ok(5), Ok(5), Err(PollError::HttpStatus(503))];
    let mut snapshots = vec![app.snapshot()];
    for (k, outcome) in outcomes.iter().enumerate() {
        app.record_poll_result_at("284753", *outcome, 1000 + k as i64);
        snapshots.push(app.snapshot());
    }
    assert_eq!(snapshots[0].events[0].last_updated, None);
    assert_eq!(snapshots[0].events[0].last_outcome, PollStatus::Pending);
    let counts: Vec<usize> = vec![1, 1, 5, 5, 5];
    for k in 0..outcomes.len() {
        let seen = &snapshots[k + 1].events[0];
        assert_eq!(seen.last_updated, Some(1000 + k as i64));
        assert_eq!(seen.num_offers, counts[k]);
        match outcomes[k] {
            Ok(_) => assert_eq!(seen.last_outcome, PollStatus::Success),
            Err(reason) => assert_eq!(seen.last_outcome, PollStatus::Failure(reason)),
        }
    }
}
