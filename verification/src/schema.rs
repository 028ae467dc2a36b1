//! The shared application state: the watchlist with the latest poll result
//! of each event, and the log of operational messages.

use crate::clock::utc_now_seconds;
use vstd::prelude::*;
use vstd::string::*;

verus! {

/// Why a poll of one event failed.
#[derive(Clone, Copy, Debug, PartialEq, Eq, Structural)]
pub enum PollError {
    /// No response arrived: the connection failed or timed out.
    Transport,
    /// A response arrived with a status code outside 200..=299.
    HttpStatus(u16),
    /// A response arrived whose body is not the expected document.
    Decode,
}

/// How the latest poll attempt of an event ended.
#[derive(Clone, Copy, Debug, PartialEq, Eq, Structural)]
pub enum PollStatus {
    /// No poll attempt has completed yet.
    Pending,
    Success,
    Failure(PollError),
}

/// A single watched event.
#[derive(Debug)]
pub struct TMEvent {
    pub id: String,
    pub name: String,
    pub num_offers: usize,
    /// Seconds since the Unix epoch at which the latest poll attempt completed.
    pub last_updated: Option<i64>,
    pub last_outcome: PollStatus,
}

/// The mathematical value of a [`TMEvent`].
pub struct TMEventView {
    pub id: Seq<char>,
    pub name: Seq<char>,
    pub num_offers: nat,
    pub last_updated: Option<int>,
    pub last_outcome: PollStatus,
}

impl View for TMEvent {
    type V = TMEventView;

    open spec fn view(&self) -> TMEventView {
        TMEventView {
            id: self.id@,
            name: self.name@,
            num_offers: self.num_offers as nat,
            last_updated: match self.last_updated {
                Some(t) => Some(t as int),
                None => None,
            },
            last_outcome: self.last_outcome,
        }
    }
}

impl TMEventView {
    /// An event carries a timestamp exactly when a poll attempt has completed.
    pub open spec fn wf(self) -> bool {
        self.last_updated is None <==> self.last_outcome is Pending
    }
}

/// The event `e` after a poll attempt that ended with `outcome` at `now`:
/// the timestamp and the status always change, the count only on success.
pub open spec fn recorded(e: TMEventView, outcome: Result<usize, PollError>, now: int) -> TMEventView {
    match outcome {
        Ok(n) => TMEventView {
            num_offers: n as nat,
            last_updated: Some(now),
            last_outcome: PollStatus::Success,
            ..e
        },
        Err(reason) => TMEventView {
            last_updated: Some(now),
            last_outcome: PollStatus::Failure(reason),
            ..e
        },
    }
}

/// An event that was never polled: no offers known, no timestamp.
pub open spec fn fresh(id: Seq<char>, name: Seq<char>) -> TMEventView {
    TMEventView { id, name, num_offers: 0, last_updated: None, last_outcome: PollStatus::Pending }
}

impl TMEvent {
    /// A freshly watched event: no offers known, never polled.
    pub fn new(a_id: String, a_name: String) -> (ev: Self)
        ensures
            ev@ == fresh(a_id@, a_name@),
    {
        Self { id: a_id, name: a_name, num_offers: 0, last_updated: None, last_outcome: PollStatus::Pending }
    }

    /// Notes the end of one poll attempt at `now`.
    pub fn record(&mut self, outcome: Result<usize, PollError>, now: i64)
        ensures
            final(self)@ == recorded(old(self)@, outcome, now as int),
    {
        self.last_updated = Some(now);
        match outcome {
            Ok(n) => {
                self.num_offers = n;
                self.last_outcome = PollStatus::Success;
            },
            Err(reason) => {
                self.last_outcome = PollStatus::Failure(reason);
            },
        }
    }
}

impl Clone for TMEvent {
    fn clone(&self) -> (copy: Self)
        ensures
            copy@ == self@,
    {
        Self {
            id: self.id.clone(),
            name: self.name.clone(),
            num_offers: self.num_offers,
            last_updated: self.last_updated,
            last_outcome: self.last_outcome,
        }
    }
}

/// One entry of the operational log.
#[derive(Debug)]
pub struct Message {
    pub content: String,
    /// Seconds since the Unix epoch at which the entry was logged.
    pub datetime_sent: i64,
}

/// The mathematical value of a [`Message`].
pub struct MessageView {
    pub content: Seq<char>,
    pub datetime_sent: int,
}

impl View for Message {
    type V = MessageView;

    open spec fn view(&self) -> MessageView {
        MessageView { content: self.content@, datetime_sent: self.datetime_sent as int }
    }
}

impl Message {
    /// An entry stamped with `now`.
    pub fn new_at(msg: String, now: i64) -> (m: Self)
        ensures
            m@ == (MessageView { content: msg@, datetime_sent: now as int }),
    {
        Self { content: msg, datetime_sent: now }
    }

    /// An entry stamped with the wall clock's present reading.
    pub fn new(msg: String) -> (m: Self)
        ensures
            m@.content == msg@,
    {
        let now = utc_now_seconds();
        Message::new_at(msg, now)
    }
}

impl Clone for Message {
    fn clone(&self) -> (copy: Self)
        ensures
            copy@ == self@,
    {
        Self { content: self.content.clone(), datetime_sent: self.datetime_sent }
    }
}

/// The stamps of a log never decrease from one entry to the next.
pub open spec fn stamps_ordered(log: Seq<MessageView>) -> bool {
    forall|i: int, j: int| 0 <= i <= j < log.len() ==> log[i].datetime_sent <= log[j].datetime_sent
}

/// The stamp that an entry logged at clock reading `now` receives: `now`,
/// or the stamp of the newest entry where the clock has fallen behind it.
pub open spec fn next_stamp(log: Seq<MessageView>, now: int) -> int {
    if log.len() > 0 && log.last().datetime_sent > now {
        log.last().datetime_sent
    } else {
        now
    }
}

/// The log with one more entry, `text`, logged at clock reading `now`.
pub open spec fn appended(log: Seq<MessageView>, text: Seq<char>, now: int) -> Seq<MessageView> {
    log.push(MessageView { content: text, datetime_sent: next_stamp(log, now) })
}

/// The operational log: entries in the order in which they were logged.
/// Entries are only ever added at the end; the log has no cap.
#[derive(Debug)]
pub struct Messages {
    pub messages: Vec<Message>,
}

impl View for Messages {
    type V = Seq<MessageView>;

    open spec fn view(&self) -> Seq<MessageView> {
        self.messages@.map_values(|m: Message| m@)
    }
}

impl Messages {
    /// The empty log.
    pub fn new() -> (log: Self)
        ensures
            log@ == Seq::<MessageView>::empty(),
    {
        let log = Messages { messages: Vec::new() };
        assert(log@ =~= Seq::<MessageView>::empty());
        log
    }

    /// The number of entries.
    pub fn len(&self) -> (n: usize)
        ensures
            n == self@.len(),
    {
        self.messages.len()
    }

    /// Logs `input` at clock reading `now`. Where the clock has fallen behind
    /// the newest entry, the new entry takes that entry's stamp, so that the
    /// stamps of an ordered log stay ordered.
    pub fn submit_message_at(&mut self, input: &str, now: i64)
        ensures
            final(self)@ == appended(old(self)@, input@, now as int),
            stamps_ordered(old(self)@) ==> stamps_ordered(final(self)@),
    {
        let n = self.messages.len();
        let stamp = if n > 0 && self.messages[n - 1].datetime_sent > now {
            self.messages[n - 1].datetime_sent
        } else {
            now
        };
        let entry = Message::new_at(String::from_str(input), stamp);
        self.messages.push(entry);
        assert(self@ =~= appended(old(self)@, input@, now as int));
    }

    /// Logs `input` at the wall clock's present reading.
    pub fn submit_message(&mut self, input: &str)
        ensures
            exists|now: int| final(self)@ == appended(old(self)@, input@, now),
            stamps_ordered(old(self)@) ==> stamps_ordered(final(self)@),
    {
        let now = utc_now_seconds();
        self.submit_message_at(input, now);
    }
}

impl Clone for Messages {
    fn clone(&self) -> (copy: Self)
        ensures
            copy@ == self@,
    {
        let mut entries: Vec<Message> = Vec::new();
        let mut i: usize = 0;
        while i < self.messages.len()
            invariant
                i <= self.messages.len(),
                entries.len() == i,
                forall|j: int| 0 <= j < i ==> entries[j]@ == self.messages[j]@,
            decreases self.messages.len() - i,
        {
            entries.push(self.messages[i].clone());
            i += 1;
        }
        let copy = Messages { messages: entries };
        assert(copy@ =~= self@);
        copy
    }
}

impl Default for Messages {
    /// A log that opens with the entry `Initializing`.
    fn default() -> (log: Self)
        ensures
            exists|now: int| log@ == appended(Seq::<MessageView>::empty(), "Initializing"@, now),
    {
        let mut log = Messages::new();
        log.submit_message("Initializing");
        log
    }
}

/// The application state: the watchlist in display order, and the log.
///
/// Identifiers are meant to be unique within the watchlist: [`App::add_event`]
/// turns a second event with a known identifier away.
///
/// The state is made once and lives as long as the program. Every change
/// takes `&mut self`, so whoever changes the state holds it alone, and a
/// copy made by [`App::snapshot`] shows the state between two changes, never
/// in the middle of one. A program that shares the state among threads puts
/// it behind a lock and keeps each hold short: nothing here waits.
#[derive(Debug)]
pub struct App {
    pub events: Vec<TMEvent>,
    pub messages: Messages,
}

/// The mathematical value of an [`App`].
pub struct AppView {
    pub events: Seq<TMEventView>,
    pub messages: Seq<MessageView>,
}

impl View for App {
    type V = AppView;

    open spec fn view(&self) -> AppView {
        AppView { events: self.events@.map_values(|e: TMEvent| e@), messages: self.messages@ }
    }
}

impl AppView {
    /// Some event of the watchlist has the identifier `id`.
    pub open spec fn watches(self, id: Seq<char>) -> bool {
        exists|i: int| 0 <= i < self.events.len() && #[trigger] self.events[i].id == id
    }

    /// No identifier occurs twice in the watchlist.
    pub open spec fn unique_ids(self) -> bool {
        forall|i: int, j: int|
            0 <= i < j < self.events.len() ==> #[trigger] self.events[i].id != #[trigger] self.events[j].id
    }

    /// Identifiers are unique, every event is well formed, and the stamps of
    /// the log are ordered.
    pub open spec fn wf(self) -> bool {
        &&& self.unique_ids()
        &&& forall|i: int| 0 <= i < self.events.len() ==> (#[trigger] self.events[i]).wf()
        &&& stamps_ordered(self.messages)
    }

    /// The state after the poll attempt of `id` ended with `outcome` at
    /// `now`: every event with that identifier takes the result, all else
    /// stays as it is. With no such event nothing changes.
    pub open spec fn record(self, id: Seq<char>, outcome: Result<usize, PollError>, now: int) -> AppView {
        AppView {
            events: self.events.map_values(
                |e: TMEventView|
                    if e.id == id {
                        recorded(e, outcome, now)
                    } else {
                        e
                    },
            ),
            messages: self.messages,
        }
    }

    /// The state after `text` was logged at clock reading `now`.
    pub open spec fn append(self, text: Seq<char>, now: int) -> AppView {
        AppView { events: self.events, messages: appended(self.messages, text, now) }
    }
}

impl App {
    /// The state with an empty watchlist and an empty log.
    pub fn new() -> (app: Self)
        ensures
            app@ == (AppView { events: Seq::empty(), messages: Seq::empty() }),
            app@.wf(),
    {
        let app = App { events: Vec::new(), messages: Messages::new() };
        assert(app@.events =~= Seq::<TMEventView>::empty());
        app
    }

    /// Whether the watchlist holds an event with this identifier.
    pub fn watches(&self, id: &str) -> (found: bool)
        ensures
            found == self@.watches(id@),
    {
        let wanted = String::from_str(id);
        let mut i: usize = 0;
        while i < self.events.len()
            invariant
                i <= self.events.len(),
                wanted@ == id@,
                forall|j: int| 0 <= j < i ==> self@.events[j].id != id@,
            decreases self.events.len() - i,
        {
            if self.events[i].id == wanted {
                assert(self@.events[i as int].id == id@);
                return true;
            }
            i += 1;
        }
        false
    }

    /// Puts a new event at the end of the watchlist, unless one with the
    /// same identifier is watched already: then nothing changes and the
    /// answer is `false`.
    pub fn add_event(&mut self, id: String, name: String) -> (added: bool)
        ensures
            added == !old(self)@.watches(id@),
            added ==> final(self)@ == (AppView {
                events: old(self)@.events.push(fresh(id@, name@)),
                messages: old(self)@.messages,
            }),
            !added ==> final(self)@ == old(self)@,
            old(self)@.wf() ==> final(self)@.wf(),
    {
        if self.watches(id.as_str()) {
            return false;
        }
        self.events.push(TMEvent::new(id, name));
        assert(self@.events =~= old(self)@.events.push(fresh(id@, name@)));
        true
    }

    /// Notes that the poll attempt of `identifier` ended with `outcome` at
    /// `now`. An identifier that is not watched is passed over in silence.
    pub fn record_poll_result_at(&mut self, identifier: &str, outcome: Result<usize, PollError>, now: i64)
        ensures
            final(self)@ == old(self)@.record(identifier@, outcome, now as int),
            !old(self)@.watches(identifier@) ==> final(self)@ == old(self)@,
            old(self)@.wf() ==> final(self)@.wf(),
    {
        let wanted = String::from_str(identifier);
        let mut i: usize = 0;
        while i < self.events.len()
            invariant
                i <= self.events.len(),
                self.events.len() == old(self).events.len(),
                wanted@ == identifier@,
                self.messages@ == old(self).messages@,
                forall|j: int|
                    0 <= j < i ==> self.events[j]@ == old(self)@.record(
                        identifier@,
                        outcome,
                        now as int,
                    ).events[j],
                forall|j: int| i <= j < self.events.len() ==> self.events[j]@ == old(self).events[j]@,
            decreases self.events.len() - i,
        {
            if self.events[i].id == wanted {
                self.events[i].record(outcome, now);
            }
            i += 1;
        }
        assert(self@.events =~= old(self)@.record(identifier@, outcome, now as int).events);
        assert(!old(self)@.watches(identifier@) ==> self@.events =~= old(self)@.events);
    }

    /// Notes that the poll attempt of `identifier` ended with `outcome` just
    /// now, by the wall clock.
    pub fn record_poll_result(&mut self, identifier: &str, outcome: Result<usize, PollError>)
        ensures
            exists|now: int| final(self)@ == old(self)@.record(identifier@, outcome, now),
            !old(self)@.watches(identifier@) ==> final(self)@ == old(self)@,
            old(self)@.wf() ==> final(self)@.wf(),
    {
        let now = utc_now_seconds();
        self.record_poll_result_at(identifier, outcome, now);
    }

    /// Logs `text` at clock reading `now`.
    pub fn append_message_at(&mut self, text: &str, now: i64)
        ensures
            final(self)@ == old(self)@.append(text@, now as int),
            old(self)@.wf() ==> final(self)@.wf(),
    {
        self.messages.submit_message_at(text, now);
    }

    /// Logs `text` at the wall clock's present reading.
    pub fn append_message(&mut self, text: &str)
        ensures
            exists|now: int| final(self)@ == old(self)@.append(text@, now),
            old(self)@.wf() ==> final(self)@.wf(),
    {
        let now = utc_now_seconds();
        self.append_message_at(text, now);
    }

    /// A copy of the whole state as it stands.
    pub fn snapshot(&self) -> (copy: Self)
        ensures
            copy@ == self@,
    {
        let mut events: Vec<TMEvent> = Vec::new();
        let mut i: usize = 0;
        while i < self.events.len()
            invariant
                i <= self.events.len(),
                events.len() == i,
                forall|j: int| 0 <= j < i ==> events[j]@ == self.events[j]@,
            decreases self.events.len() - i,
        {
            events.push(self.events[i].clone());
            i += 1;
        }
        let copy = App { events, messages: self.messages.clone() };
        assert(copy@.events =~= self@.events);
        copy
    }
}

impl Default for App {
    /// The state at startup: three events on the watchlist, and a log that
    /// opens with the entry `Initializing`.
    fn default() -> (app: Self)
        ensures
            app@.events == seq![
                fresh("284753"@, "Dynamo Metalfest"@),
                fresh("280409"@, "Lowlands"@),
                fresh("280407"@, "Dummy"@),
            ],
            exists|now: int| app@.messages == appended(Seq::<MessageView>::empty(), "Initializing"@, now),
            app@.wf(),
    {
        let mut events: Vec<TMEvent> = Vec::new();
        events.push(TMEvent::new(String::from_str("284753"), String::from_str("Dynamo Metalfest")));
        events.push(TMEvent::new(String::from_str("280409"), String::from_str("Lowlands")));
        events.push(TMEvent::new(String::from_str("280407"), String::from_str("Dummy")));
        let app = App { events, messages: Messages::default() };
        proof {
            reveal_strlit("284753");
            reveal_strlit("280409");
            reveal_strlit("280407");
            assert("284753"@[2] != "280409"@[2]);
            assert("284753"@[2] != "280407"@[2]);
            assert("280409"@[5] != "280407"@[5]);
            assert(app@.events =~= seq![
                fresh("284753"@, "Dynamo Metalfest"@),
                fresh("280409"@, "Lowlands"@),
                fresh("280407"@, "Dummy"@),
            ]);
        }
        app
    }
}

impl Clone for App {
    fn clone(&self) -> (copy: Self)
        ensures
            copy@ == self@,
    {
        self.snapshot()
    }
}

} // verus!
