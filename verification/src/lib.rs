//! Shared state, scheduling decisions and shutdown bookkeeping of a poller
//! that watches resale offers for a fixed list of events.
//!
//! The library holds what the program decides and remembers; the program
//! around it owns the terminal, the network and the threads.
//!
//! - [`schema`]: the watchlist and the log, and the two ways to change them.
//! - [`history`]: what holds of every sequence of such changes.
//! - [`poller_events`]: one poll, from the address asked to the result noted.
//! - [`scheduler`]: when a cycle of polls starts, goes on and ends.
//! - [`cycles`]: what holds of every course of events at the scheduler.
//! - [`dashboard`]: what the keys do.
//! - [`shutdown`]: the signal to stop and the wait for everyone.
//! - [`poller_ui`]: the lines that the dashboard shows.
//! - [`clock`], [`text`]: wall-clock readings and decimal numerals.

pub mod clock;
pub mod cycles;
pub mod dashboard;
pub mod history;
pub mod poller_events;
pub mod poller_ui;
pub mod scheduler;
pub mod schema;
pub mod shutdown;
pub mod text;
