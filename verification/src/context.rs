//! The mutable state threaded across the lines of one parse session:
//! the current date, the current show, and the last entry (kept only
//! for midnight-rollover inference).

use crate::dates::{date_lt, date_wf, Date};
use crate::elements::{entry_wf, Company, WatchEntry};
use crate::errors::ParseError;
use vstd::prelude::*;

verus! {

/// Per-session parsing state. Created empty, mutated by every
/// successful date, title or session line, and discarded when the
/// session ends.
#[derive(Debug, PartialEq, Clone)]
pub struct ParsingContext {
    /// The date the next session line falls on, from the latest date
    /// header or rollover inference.
    pub current_date: Option<Date>,
    /// The show the next session line belongs to.
    pub current_anime: Option<usize>,
    /// The previous session entry, consulted only to detect that it
    /// crossed midnight.
    pub last_watch_entry: Option<WatchEntry>,
    /// The co-watcher group most recently reported to the context.
    pub last_company: Option<Company>,
}

/// Well-formed context: whatever state it holds is calendar-valid.
pub open spec fn ctx_wf(c: ParsingContext) -> bool {
    &&& (c.current_date matches Some(d) ==> date_wf(d))
    &&& (c.last_watch_entry matches Some(e) ==> entry_wf(e))
}

impl ParsingContext {
    /// A fresh context with no date, show or entry.
    pub fn new() -> (r: ParsingContext)
        ensures
            r == (ParsingContext {
                current_date: None,
                current_anime: None,
                last_watch_entry: None,
                last_company: None,
            }),
            ctx_wf(r),
    {
        ParsingContext {
            current_date: None,
            current_anime: None,
            last_watch_entry: None,
            last_company: None,
        }
    }

    /// Advances the current date. Dates must be strictly increasing; on
    /// success the pending show and entry no longer apply and are
    /// cleared. On failure the context is untouched.
    pub fn notify_new_current_date(&mut self, date: Date) -> (r: Result<(), ParseError>)
        requires
            date_wf(date),
            ctx_wf(*old(self)),
        ensures
            ctx_wf(*final(self)),
            match r {
                Ok(()) => (old(self).current_date is None || date_lt(
                    old(self).current_date->0,
                    date,
                )) && *final(self) == (ParsingContext {
                    current_date: Some(date),
                    current_anime: None,
                    last_watch_entry: None,
                    last_company: old(self).last_company,
                }),
                Err(e) => old(self).current_date matches Some(cur) && !date_lt(cur, date) && e
                    == (ParseError::NonMonotonicDate { new_date: date, current: cur }) && *final(self)
                    == *old(self),
            },
    {
        if let Some(cur) = &self.current_date {
            if !cur.lt(&date) {
                return Err(ParseError::NonMonotonicDate { new_date: date, current: *cur });
            }
        }
        self.current_date = Some(date);
        self.current_anime = None;
        self.last_watch_entry = None;
        Ok(())
    }

    /// Selects the show the following session lines belong to and
    /// resets session-continuity tracking.
    pub fn notify_new_current_anime(&mut self, anime_id: usize) -> (r: Result<(), ParseError>)
        requires
            ctx_wf(*old(self)),
        ensures
            ctx_wf(*final(self)),
            r is Ok,
            *final(self) == (ParsingContext {
                current_date: old(self).current_date,
                current_anime: Some(anime_id),
                last_watch_entry: None,
                last_company: old(self).last_company,
            }),
    {
        self.current_anime = Some(anime_id);
        self.last_watch_entry = None;
        Ok(())
    }

    /// Records a successfully parsed entry for rollover inference. The
    /// entry must belong to the currently selected show; a mismatch is
    /// a caller bug, not a format error, and is excluded up front.
    pub fn notify_new_watch_entry(&mut self, entry: WatchEntry) -> (r: Result<(), ParseError>)
        requires
            ctx_wf(*old(self)),
            entry_wf(entry),
            old(self).current_anime == Some(entry.anime_id),
        ensures
            ctx_wf(*final(self)),
            r is Ok,
            *final(self) == (ParsingContext {
                current_date: old(self).current_date,
                current_anime: old(self).current_anime,
                last_watch_entry: Some(entry),
                last_company: old(self).last_company,
            }),
    {
        self.last_watch_entry = Some(entry);
        Ok(())
    }

    /// Records the co-watcher group most recently seen.
    pub fn notify_new_company(&mut self, company: Option<Company>) -> (r: Result<(), ParseError>)
        requires
            ctx_wf(*old(self)),
        ensures
            ctx_wf(*final(self)),
            r is Ok,
            *final(self) == (ParsingContext {
                current_date: old(self).current_date,
                current_anime: old(self).current_anime,
                last_watch_entry: old(self).last_watch_entry,
                last_company: company,
            }),
    {
        self.last_company = company;
        Ok(())
    }
}

} // verus!
