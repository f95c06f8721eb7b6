//! A verified reader and writer for a constrained iCalendar dialect.
//!
//! The library tokenizes `KEY:VALUE` records out of calendar text, runs a
//! property-dispatch state machine that fills a [`Calendar`] of [`Event`]s,
//! converts the dialect's fixed date-time spelling to UTC instants, and
//! re-emits a calendar deterministically, every line CRLF-terminated.
//! Fetching text over the network and writing bytes to files are left to the
//! caller; the library works on in-memory text alone.

pub mod datetime;
pub mod tokenize;
pub mod decimal;
pub mod model;
pub mod parse;
pub mod serialize;
pub mod laws;

pub use datetime::UtcInstant;
pub use model::{Calendar, Diagnostic, DiagnosticKind, Event, FieldName, IcsError, Repeat};
pub use parse::{parse_ics, ParseOutcome};
