//! One poll of one event: the address to ask, the reading of the reply, and
//! the bookkeeping of a whole pass over the watchlist.

use crate::clock::utc_now_seconds;
use crate::schema::{
    appended, recorded, stamps_ordered, App, AppView, MessageView, PollError, TMEvent, TMEventView,
};
use crate::text::{decimal, to_decimal};
use vstd::prelude::*;
use vstd::string::*;

verus! {

/// Where the resale offers of an event are asked for: this address, followed
/// by the event's identifier.
pub const BASE_URL: &'static str = "https://availability.ticketmaster.eu/api/v2/TM_NL/resale/";

/// One resale offer, as the remote service lists it.
#[derive(Debug)]
pub struct Offer {
    _id: String,
}

impl View for Offer {
    type V = Seq<char>;

    closed spec fn view(&self) -> Seq<char> {
        self._id@
    }
}

impl Offer {
    /// The offer with the identifier `id`.
    pub fn new(id: String) -> (offer: Self)
        ensures
            offer@ == id@,
    {
        Offer { _id: id }
    }

    /// The offer's identifier.
    pub fn id(&self) -> (id: &String)
        ensures
            id@ == self@,
    {
        &self._id
    }
}

/// The document with which the remote service answers: the offers that are
/// on sale for one event.
#[derive(Debug)]
pub struct TMResponse {
    offers: Vec<Offer>,
}

impl View for TMResponse {
    type V = Seq<Seq<char>>;

    closed spec fn view(&self) -> Seq<Seq<char>> {
        self.offers@.map_values(|o: Offer| o@)
    }
}

impl TMResponse {
    /// The document that lists `offers`.
    pub fn new(offers: Vec<Offer>) -> (response: Self)
        ensures
            response@ == offers@.map_values(|o: Offer| o@),
    {
        TMResponse { offers }
    }

    /// The number of offers listed.
    pub fn num_offers(&self) -> (n: usize)
        ensures
            n == self@.len(),
    {
        self.offers.len()
    }
}

/// What came back from one request to the remote service.
#[derive(Debug)]
pub enum HttpReply {
    /// Nothing: the connection failed or timed out.
    NoResponse,
    /// A response with this status code. `body` is the decoded document, or
    /// `None` where the body is not such a document.
    Response { status: u16, body: Option<TMResponse> },
}

/// Whether `status` reports success: 200 to 299.
pub open spec fn is_success(status: u16) -> bool {
    200 <= status <= 299
}

/// The result of the poll that was answered with `reply`: the number of
/// offers listed, or the reason of the failure. The status code is looked at
/// before the body.
pub open spec fn poll_result(reply: HttpReply) -> Result<usize, PollError> {
    match reply {
        HttpReply::NoResponse => Err(PollError::Transport),
        HttpReply::Response { status, body } => if !is_success(status) {
            Err(PollError::HttpStatus(status))
        } else {
            match body {
                Some(response) => Ok(response@.len() as usize),
                None => Err(PollError::Decode),
            }
        },
    }
}

/// The reason of a failure in words.
pub open spec fn reason_text(reason: PollError) -> Seq<char> {
    match reason {
        PollError::Transport => "transport failure"@,
        PollError::HttpStatus(code) => "http status "@ + decimal(code as nat),
        PollError::Decode => "undecodable response"@,
    }
}

/// The log entry for a failed poll of the event `id`.
pub open spec fn error_text(id: Seq<char>, reason: PollError) -> Seq<char> {
    "error polling "@ + id + ": "@ + reason_text(reason)
}

/// The log entry for a failed poll names the event: the identifier stands
/// in it, whole, right after the opening words.
pub proof fn lemma_error_text_names_event(id: Seq<char>, reason: PollError)
    ensures
        error_text(id, reason).len() >= "error polling "@.len() + id.len(),
        error_text(id, reason).subrange(
            "error polling "@.len() as int,
            ("error polling "@.len() + id.len()) as int,
        ) == id,
{
    let lead = "error polling "@;
    assert(error_text(id, reason).subrange(lead.len() as int, (lead.len() + id.len()) as int) =~= id);
}

/// The address at which the offers of the event `id` are asked for.
pub fn request_url(id: &str) -> (url: String)
    ensures
        url@ == BASE_URL@ + id@,
{
    let mut url = String::from_str(BASE_URL);
    url.append(id);
    url
}

/// Reads a reply: see [`poll_result`].
pub fn interpret_reply(reply: &HttpReply) -> (outcome: Result<usize, PollError>)
    ensures
        outcome == poll_result(*reply),
{
    match reply {
        HttpReply::NoResponse => Err(PollError::Transport),
        HttpReply::Response { status, body } => {
            if *status < 200 || *status > 299 {
                Err(PollError::HttpStatus(*status))
            } else {
                match body {
                    Some(response) => Ok(response.num_offers()),
                    None => Err(PollError::Decode),
                }
            }
        },
    }
}

/// Writes the reason of a failure in words.
pub fn describe(reason: PollError) -> (words: String)
    ensures
        words@ == reason_text(reason),
{
    match reason {
        PollError::Transport => String::from_str("transport failure"),
        PollError::HttpStatus(code) => {
            let mut words = String::from_str("http status ");
            let digits = to_decimal(code as u64);
            words.append(digits.as_str());
            words
        },
        PollError::Decode => String::from_str("undecodable response"),
    }
}

/// Writes the log entry for a failed poll of the event `id`.
pub fn error_message(id: &str, reason: PollError) -> (entry: String)
    ensures
        entry@ == error_text(id@, reason),
{
    let mut entry = String::from_str("error polling ");
    entry.append(id);
    entry.append(": ");
    let words = describe(reason);
    entry.append(words.as_str());
    assert(entry@ =~= error_text(id@, reason));
    entry
}

/// Notes on `ev` the poll that was answered with `reply` at `now`, and hands
/// the reason back where the poll failed.
pub fn poll_event(ev: &mut TMEvent, reply: &HttpReply, now: i64) -> (res: Result<(), PollError>)
    ensures
        final(ev)@ == recorded(old(ev)@, poll_result(*reply), now as int),
        res == (match poll_result(*reply) {
            Ok(_) => Ok::<(), PollError>(()),
            Err(reason) => Err(reason),
        }),
{
    let outcome = interpret_reply(reply);
    ev.record(outcome, now);
    match outcome {
        Ok(_) => Ok(()),
        Err(reason) => Err(reason),
    }
}

/// The state after the poll attempt of `id` ended with `outcome` at `now`
/// and was reported: the result is noted on the event, and a failure is
/// logged as well. A success leaves the log alone.
pub open spec fn reported(s: AppView, id: Seq<char>, outcome: Result<usize, PollError>, now: int) -> AppView {
    match outcome {
        Ok(_) => s.record(id, outcome, now),
        Err(reason) => s.record(id, outcome, now).append(error_text(id, reason), now),
    }
}

/// Reports the end of the poll attempt of `id` at `now`: notes the result on
/// the event and logs a failure.
pub fn report_poll(app: &mut App, id: &str, outcome: Result<usize, PollError>, now: i64)
    ensures
        final(app)@ == reported(old(app)@, id@, outcome, now as int),
{
    app.record_poll_result_at(id, outcome, now);
    match outcome {
        Ok(_) => {},
        Err(reason) => {
            let entry = error_message(id, reason);
            app.append_message_at(entry.as_str(), now);
        },
    }
}

/// The number of events that a pass with `replies` answers: one reply for
/// each event, in watchlist order, as far as both reach.
pub open spec fn answered(events: Seq<TMEventView>, replies: Seq<HttpReply>) -> nat {
    if events.len() <= replies.len() {
        events.len()
    } else {
        replies.len()
    }
}

/// The watchlist after a pass at `now` in which the event at each position
/// was answered with the reply at that position. An event without a reply
/// stays as it is.
pub open spec fn polled(events: Seq<TMEventView>, replies: Seq<HttpReply>, now: int) -> Seq<TMEventView> {
    Seq::new(
        events.len(),
        |i: int|
            if i < replies.len() {
                recorded(events[i], poll_result(replies[i]), now)
            } else {
                events[i]
            },
    )
}

/// The log after the first `k` events of a pass at `now`: one entry for each
/// failed poll among them, in watchlist order, after what the log held.
pub open spec fn pass_log(
    log: Seq<MessageView>,
    events: Seq<TMEventView>,
    replies: Seq<HttpReply>,
    now: int,
    k: nat,
) -> Seq<MessageView>
    decreases k,
{
    if k == 0 {
        log
    } else {
        let before = pass_log(log, events, replies, now, (k - 1) as nat);
        match poll_result(replies[k - 1]) {
            Ok(_) => before,
            Err(reason) => appended(before, error_text(events[k - 1].id, reason), now),
        }
    }
}

/// A pass only adds to the log, at its end, and keeps ordered stamps ordered.
pub proof fn lemma_pass_log_grows(
    log: Seq<MessageView>,
    events: Seq<TMEventView>,
    replies: Seq<HttpReply>,
    now: int,
    k: nat,
)
    ensures
        log.is_prefix_of(pass_log(log, events, replies, now, k)),
        pass_log(log, events, replies, now, k).len() <= log.len() + k,
        stamps_ordered(log) ==> stamps_ordered(pass_log(log, events, replies, now, k)),
    decreases k,
{
    if k > 0 {
        lemma_pass_log_grows(log, events, replies, now, (k - 1) as nat);
    }
}

/// A pass keeps a well-formed state well formed: no identifier changes, and
/// every event that was answered carries a timestamp and a status.
pub proof fn lemma_pass_preserves_wf(s: AppView, replies: Seq<HttpReply>, now: int)
    requires
        s.wf(),
    ensures
        (AppView {
            events: polled(s.events, replies, now),
            messages: pass_log(s.messages, s.events, replies, now, answered(s.events, replies)),
        }).wf(),
{
    lemma_pass_log_grows(s.messages, s.events, replies, now, answered(s.events, replies));
}

/// Books one whole pass over the watchlist at `now`: the event at each
/// position takes the reply at that position, and each failure is logged. A
/// failure never ends the pass: the events after it are still updated.
/// Events beyond the last reply stay as they are, and replies beyond the
/// last event are not looked at.
pub fn update_events_at(app: &mut App, replies: &Vec<HttpReply>, now: i64)
    ensures
        final(app)@.events == polled(old(app)@.events, replies@, now as int),
        final(app)@.messages == pass_log(
            old(app)@.messages,
            old(app)@.events,
            replies@,
            now as int,
            answered(old(app)@.events, replies@),
        ),
        old(app)@.messages.is_prefix_of(final(app)@.messages),
        old(app)@.wf() ==> final(app)@.wf(),
{
    proof {
        lemma_pass_log_grows(
            old(app)@.messages,
            old(app)@.events,
            replies@,
            now as int,
            answered(old(app)@.events, replies@),
        );
        if old(app)@.wf() {
            lemma_pass_preserves_wf(old(app)@, replies@, now as int);
        }
    }
    let n = if app.events.len() <= replies.len() {
        app.events.len()
    } else {
        replies.len()
    };
    let mut i: usize = 0;
    while i < n
        invariant
            i <= n,
            n == answered(old(app)@.events, replies@),
            app.events.len() == old(app).events.len(),
            forall|j: int|
                0 <= j < i ==> app.events[j]@ == polled(old(app)@.events, replies@, now as int)[j],
            forall|j: int| i <= j < app.events.len() ==> app.events[j]@ == old(app).events[j]@,
            app.messages@ == pass_log(old(app)@.messages, old(app)@.events, replies@, now as int, i as nat),
        decreases n - i,
    {
        match poll_event(&mut app.events[i], &replies[i], now) {
            Ok(_) => {},
            Err(reason) => {
                let entry = error_message(app.events[i].id.as_str(), reason);
                app.messages.submit_message_at(entry.as_str(), now);
            },
        }
        i += 1;
    }
    assert(app@.events =~= polled(old(app)@.events, replies@, now as int));
}

/// Books one whole pass over the watchlist at the wall clock's present
/// reading: see [`update_events_at`].
pub fn update_events(app: &mut App, replies: &Vec<HttpReply>)
    ensures
        exists|now: int|
            {
                &&& final(app)@.events == polled(old(app)@.events, replies@, now)
                &&& final(app)@.messages == pass_log(
                    old(app)@.messages,
                    old(app)@.events,
                    replies@,
                    now,
                    answered(old(app)@.events, replies@),
                )
            },
        old(app)@.messages.is_prefix_of(final(app)@.messages),
        old(app)@.wf() ==> final(app)@.wf(),
{
    let now = utc_now_seconds();
    update_events_at(app, replies, now);
}

} // verus!
