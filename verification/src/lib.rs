//! Orchestration core of a tracker for values scraped from web pages.
//!
//! The crate holds the table of tracked items, the pools of fetches in
//! flight, and the background refresh cycle, as plain state machines with a
//! contract on every transition.  Fetching a page, showing a notification
//! and drawing the table are left to the embedding program.

pub mod channel;
pub mod clock;
pub mod extract;
pub mod ident;
pub mod pool;
pub mod row;
pub mod scheduler;
pub mod selector;
pub mod table;
pub mod tracker;
