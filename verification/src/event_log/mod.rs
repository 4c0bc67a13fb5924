//! The event log: an append-only record of what changed, read in order from a
//! cursor.

pub mod laws;
pub mod log;
pub mod query;

pub use log::EventLog;
pub use query::{validate_event_query, MAX_EVENT_LIMIT};
