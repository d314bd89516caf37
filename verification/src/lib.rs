//! A verified parser for a line-oriented watch-log format.
//!
//! The log records anime-watching sessions: date headers (`DD/MM/YYYY`),
//! title headers (`<title>:`) and session lines
//! (`HH:MM - HH:MM <episode> {co-watchers}`). A mutable parsing context
//! threads the current date and show across lines and resolves sessions
//! that cross midnight. Every recognizer's behaviour is stated over the
//! character sequence of its input line and proved.
#![verifier::loop_isolation(false)]

pub mod context;
pub mod database;
pub mod dates;
pub mod elements;
pub mod errors;
pub mod parsing;
pub mod text;

