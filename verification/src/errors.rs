//! The failure taxonomy of the parser. Every failure is local to one
//! line and recoverable by the caller; each format failure carries the
//! offending text.

use crate::dates::Date;
use vstd::prelude::*;

verus! {

/// A malformed token or line. The payload is the raw text that failed.
#[derive(Debug, Clone, PartialEq, Eq)]
pub enum FormatError {
    /// A line that should carry a `DD/MM/YYYY` date header does not.
    Date(String),
    /// A line that should carry a `<title>:` header does not.
    Title(String),
    /// A session line whose overall shape is wrong.
    Line(String),
    /// An `HH:MM` token outside the 24-hour clock.
    Time(String),
    /// An episode token that is not an optionally signed integer.
    Episode(String),
    /// A co-watcher group that is not wrapped in a single brace pair.
    Company(String),
}

/// A session line arrived before the context held what it needs.
#[derive(Debug, Clone, PartialEq, Eq, Structural)]
pub enum MissingContext {
    /// No date header has been seen yet.
    NoCurrentDate,
    /// No title header has been seen yet.
    NoCurrentAnime,
}

/// Any failure the parsing core reports for a single line.
#[derive(Debug, Clone, PartialEq, Eq)]
pub enum ParseError {
    /// A malformed token or line.
    Format(FormatError),
    /// A session line outside a date/title context.
    MissingContext(MissingContext),
    /// A date header that does not advance the current date.
    NonMonotonicDate { new_date: Date, current: Date },
    /// No recognizer matched the line.
    UnrecognizedLine(String),
}

/// A failure of the in-memory store.
#[derive(Debug, Clone, PartialEq, Eq)]
pub enum StoreError {
    /// A show with this name is already tracked.
    DuplicateName(String),
    /// No show carries this identifier.
    UnknownId(usize),
}

} // verus!
