//! The dashboard's reading of the keyboard.
//!
//! On every turn of its loop the dashboard draws the state, collects the
//! keys that were pressed since the last turn without waiting for one, and
//! hands them to [`handle_keys`].

use crate::clock::utc_now_seconds;
use crate::scheduler::{Scheduler, SchedulerView};
use crate::schema::{App, AppView};
use crate::shutdown::{ShutdownCoordinator, ShutdownView};
use vstd::prelude::*;

verus! {

/// A key press, as far as the dashboard tells keys apart.
#[derive(Clone, Copy, Debug, PartialEq, Eq, Structural)]
pub enum Key {
    /// A key that types this character.
    Char(char),
    /// The escape key.
    Esc,
    /// Any other key.
    Other,
}

/// What a key press asks for.
#[derive(Clone, Copy, Debug, PartialEq, Eq, Structural)]
pub enum Command {
    /// Leave the program.
    Quit,
    /// Poll all events now.
    ManualPoll,
    /// Nothing.
    Ignore,
}

/// The log entry that notes a manual poll.
pub const MANUAL_POLL_NOTE: &'static str = "user forced polling";

/// What `key` asks for: `q` and escape quit, `p` polls, and every other key
/// is ignored.
pub open spec fn command_for(key: Key) -> Command {
    match key {
        Key::Esc => Command::Quit,
        Key::Char(c) => if c == 'q' {
            Command::Quit
        } else if c == 'p' {
            Command::ManualPoll
        } else {
            Command::Ignore
        },
        Key::Other => Command::Ignore,
    }
}

/// Tells what `key` asks for.
pub fn dispatch_key(key: Key) -> (command: Command)
    ensures
        command == command_for(key),
{
    match key {
        Key::Esc => Command::Quit,
        Key::Char(c) => {
            if c == 'q' {
                Command::Quit
            } else if c == 'p' {
                Command::ManualPoll
            } else {
                Command::Ignore
            }
        },
        Key::Other => Command::Ignore,
    }
}

/// What the dashboard leaves behind after a batch of keys.
pub struct Handled {
    pub scheduler: SchedulerView,
    pub app: AppView,
    pub shutdown: ShutdownView,
    /// A key of the batch asked to quit.
    pub quit: bool,
}

/// The outcome of handling `keys`, first to last, at wall-clock reading
/// `wall`. A key that polls sends a manual trigger and logs a note. The
/// first key that quits raises the shutdown signal, and the keys after it
/// are dropped. Nothing else changes: the dashboard never touches the
/// watchlist.
pub open spec fn handled(
    scheduler: SchedulerView,
    app: AppView,
    shutdown: ShutdownView,
    keys: Seq<Key>,
    wall: int,
) -> Handled
    decreases keys.len(),
{
    if keys.len() == 0 {
        Handled { scheduler, app, shutdown, quit: false }
    } else {
        match command_for(keys.first()) {
            Command::Quit => Handled { scheduler, app, shutdown: shutdown.raised(), quit: true },
            Command::ManualPoll => handled(
                scheduler.triggered(),
                app.append(MANUAL_POLL_NOTE@, wall),
                shutdown,
                keys.drop_first(),
                wall,
            ),
            Command::Ignore => handled(scheduler, app, shutdown, keys.drop_first(), wall),
        }
    }
}

/// Handles the keys collected in one turn of the dashboard's loop, at
/// wall-clock reading `wall` (seconds since the Unix epoch). The answer
/// tells whether the loop is to end.
pub fn handle_keys_at(
    keys: &Vec<Key>,
    scheduler: &mut Scheduler,
    app: &mut App,
    shutdown: &mut ShutdownCoordinator,
    wall: i64,
) -> (quit: bool)
    ensures
        (Handled { scheduler: final(scheduler)@, app: final(app)@, shutdown: final(shutdown)@, quit })
            == handled(old(scheduler)@, old(app)@, old(shutdown)@, keys@, wall as int),
        final(app)@.events == old(app)@.events,
        old(app)@.messages.is_prefix_of(final(app)@.messages),
        old(app)@.wf() ==> final(app)@.wf(),
{
    let mut i: usize = 0;
    assert(keys@.skip(0) =~= keys@);
    while i < keys.len()
        invariant
            i <= keys.len(),
            handled(old(scheduler)@, old(app)@, old(shutdown)@, keys@, wall as int) == handled(
                scheduler@,
                app@,
                shutdown@,
                keys@.skip(i as int),
                wall as int,
            ),
        decreases keys.len() - i,
    {
        let ghost rest = keys@.skip(i as int);
        assert(rest.first() == keys@[i as int]);
        assert(rest.drop_first() =~= keys@.skip(i + 1));
        match dispatch_key(keys[i]) {
            Command::Quit => {
                shutdown.signal();
                proof {
                    lemma_keys_leave_watchlist_alone(old(scheduler)@, old(app)@, old(shutdown)@, keys@, wall as int);
                }
                return true;
            },
            Command::ManualPoll => {
                scheduler.request_poll();
                app.append_message_at(MANUAL_POLL_NOTE, wall);
            },
            Command::Ignore => {},
        }
        i += 1;
    }
    assert(keys@.skip(i as int).len() == 0);
    proof {
        lemma_keys_leave_watchlist_alone(old(scheduler)@, old(app)@, old(shutdown)@, keys@, wall as int);
    }
    false
}

/// Handles the keys collected in one turn of the dashboard's loop, and
/// stamps what it logs with the wall clock's present reading.
pub fn handle_keys(
    keys: &Vec<Key>,
    scheduler: &mut Scheduler,
    app: &mut App,
    shutdown: &mut ShutdownCoordinator,
) -> (quit: bool)
    ensures
        exists|wall: int|
            (Handled { scheduler: final(scheduler)@, app: final(app)@, shutdown: final(shutdown)@, quit })
                == handled(old(scheduler)@, old(app)@, old(shutdown)@, keys@, wall),
        final(app)@.events == old(app)@.events,
        old(app)@.messages.is_prefix_of(final(app)@.messages),
        old(app)@.wf() ==> final(app)@.wf(),
{
    let wall = utc_now_seconds();
    handle_keys_at(keys, scheduler, app, shutdown, wall)
}

/// The dashboard never changes the watchlist, and of the scheduler only the
/// trigger slot: whatever keys are pressed, every event stays as it is, the
/// log only grows, a well-formed state stays well formed, and the cycle in
/// progress is not disturbed.
pub proof fn lemma_keys_leave_watchlist_alone(
    scheduler: SchedulerView,
    app: AppView,
    shutdown: ShutdownView,
    keys: Seq<Key>,
    wall: int,
)
    ensures
        handled(scheduler, app, shutdown, keys, wall).app.events == app.events,
        app.messages.is_prefix_of(handled(scheduler, app, shutdown, keys, wall).app.messages),
        app.wf() ==> handled(scheduler, app, shutdown, keys, wall).app.wf(),
        handled(scheduler, app, shutdown, keys, wall).scheduler == scheduler || handled(
            scheduler,
            app,
            shutdown,
            keys,
            wall,
        ).scheduler == scheduler.triggered(),
        handled(scheduler, app, shutdown, keys, wall).shutdown.done == shutdown.done,
        handled(scheduler, app, shutdown, keys, wall).quit ==> handled(
            scheduler,
            app,
            shutdown,
            keys,
            wall,
        ).shutdown.signalled,
    decreases keys.len(),
{
    if keys.len() > 0 {
        match command_for(keys.first()) {
            Command::Quit => {},
            Command::ManualPoll => {
                lemma_keys_leave_watchlist_alone(
                    scheduler.triggered(),
                    app.append(MANUAL_POLL_NOTE@, wall),
                    shutdown,
                    keys.drop_first(),
                    wall,
                );
            },
            Command::Ignore => {
                lemma_keys_leave_watchlist_alone(scheduler, app, shutdown, keys.drop_first(), wall);
            },
        }
    }
}

} // verus!
