//! The text that the dashboard shows: one line for each watched event, and
//! one for each log entry, newest first. Drawing the lines on a terminal is
//! left to the caller.

use crate::clock::{format_utc, time_of_day_text, utc_text, DAY_AND_TIME, TIME_OF_DAY};
use crate::poller_events::{describe, reason_text};
use crate::schema::{App, AppView, Message, MessageView, PollStatus, TMEvent, TMEventView};
use crate::text::{decimal, to_decimal};
use vstd::prelude::*;
use vstd::string::*;

verus! {

/// The text of a wall-clock reading for `pattern`, or `?` for a reading that
/// no calendar date stands for.
pub open spec fn stamp_text(secs: int, pattern: Seq<char>) -> Seq<char> {
    match utc_text(secs, pattern) {
        Some(text) => text,
        None => "?"@,
    }
}

/// The time of day of a wall-clock reading, as hours, minutes and seconds,
/// or `?` for a reading that no calendar date stands for.
pub open spec fn clock_text(secs: int) -> Seq<char> {
    match utc_text(secs, TIME_OF_DAY@) {
        Some(_) => time_of_day_text(secs),
        None => "?"@,
    }
}

/// The time of day of the latest poll attempt, or `never`.
pub open spec fn polled_at_text(last_updated: Option<int>) -> Seq<char> {
    match last_updated {
        Some(secs) => clock_text(secs),
        None => "never"@,
    }
}

/// How the latest poll attempt ended, in words.
pub open spec fn status_text(status: PollStatus) -> Seq<char> {
    match status {
        PollStatus::Pending => "-"@,
        PollStatus::Success => "ok"@,
        PollStatus::Failure(reason) => reason_text(reason),
    }
}

/// The line that shows one event.
pub open spec fn event_line_text(e: TMEventView) -> Seq<char> {
    e.name + " ("@ + e.id + ") has "@ + decimal(e.num_offers) + " offers (last polled at "@
        + polled_at_text(e.last_updated) + " ("@ + status_text(e.last_outcome) + "))"@
}

/// The line that shows one log entry.
pub open spec fn message_line_text(m: MessageView) -> Seq<char> {
    stamp_text(m.datetime_sent, DAY_AND_TIME@) + " | "@ + m.content
}

/// Writes a wall-clock reading with day and month before the time of day.
fn stamp(secs: i64) -> (text: String)
    ensures
        text@ == stamp_text(secs as int, DAY_AND_TIME@),
{
    match format_utc(secs, DAY_AND_TIME) {
        Some(text) => text,
        None => String::from_str("?"),
    }
}

/// Writes the time of day of a wall-clock reading.
fn clock(secs: i64) -> (text: String)
    ensures
        text@ == clock_text(secs as int),
{
    match format_utc(secs, TIME_OF_DAY) {
        Some(text) => text,
        None => String::from_str("?"),
    }
}

/// Writes the line that shows one event.
pub fn event_line(e: &TMEvent) -> (line: String)
    ensures
        line@ == event_line_text(e@),
{
    let mut line = e.name.clone();
    line.append(" (");
    line.append(e.id.as_str());
    line.append(") has ");
    let count = to_decimal(e.num_offers as u64);
    line.append(count.as_str());
    line.append(" offers (last polled at ");
    let at = match e.last_updated {
        Some(secs) => clock(secs),
        None => String::from_str("never"),
    };
    line.append(at.as_str());
    line.append(" (");
    let status = match e.last_outcome {
        PollStatus::Pending => String::from_str("-"),
        PollStatus::Success => String::from_str("ok"),
        PollStatus::Failure(reason) => describe(reason),
    };
    line.append(status.as_str());
    line.append("))");
    assert(line@ =~= event_line_text(e@));
    line
}

/// Writes the line that shows one log entry.
pub fn message_line(m: &Message) -> (line: String)
    ensures
        line@ == message_line_text(m@),
{
    let mut line = stamp(m.datetime_sent);
    line.append(" | ");
    line.append(m.content.as_str());
    line
}

/// The lines of the watchlist, in watchlist order.
pub open spec fn offer_lines_text(s: AppView) -> Seq<Seq<char>> {
    s.events.map_values(|e: TMEventView| event_line_text(e))
}

/// The lines of the log, newest entry first.
pub open spec fn message_lines_text(s: AppView) -> Seq<Seq<char>> {
    s.messages.map_values(|m: MessageView| message_line_text(m)).reverse()
}

/// The texts of a list of lines.
pub open spec fn texts(lines: Seq<String>) -> Seq<Seq<char>> {
    lines.map_values(|line: String| line@)
}

/// Writes one line for each watched event, in watchlist order.
pub fn offer_lines(app: &App) -> (lines: Vec<String>)
    ensures
        texts(lines@) == offer_lines_text(app@),
{
    let mut lines: Vec<String> = Vec::new();
    let mut i: usize = 0;
    while i < app.events.len()
        invariant
            i <= app.events.len(),
            lines.len() == i,
            forall|j: int| 0 <= j < i ==> lines[j]@ == event_line_text(app@.events[j]),
        decreases app.events.len() - i,
    {
        lines.push(event_line(&app.events[i]));
        i += 1;
    }
    assert(texts(lines@) =~= offer_lines_text(app@));
    lines
}

/// Writes one line for each log entry, newest entry first.
pub fn message_lines(app: &App) -> (lines: Vec<String>)
    ensures
        texts(lines@) == message_lines_text(app@),
{
    let n = app.messages.messages.len();
    let mut lines: Vec<String> = Vec::new();
    let mut i: usize = 0;
    while i < n
        invariant
            i <= n,
            n == app.messages.messages.len(),
            lines.len() == i,
            forall|j: int| 0 <= j < i ==> lines[j]@ == message_line_text(app@.messages[n - 1 - j]),
        decreases n - i,
    {
        lines.push(message_line(&app.messages.messages[n - 1 - i]));
        i += 1;
    }
    assert(texts(lines@) =~= message_lines_text(app@));
    lines
}

} // verus!
