//! The three line recognizers — date header, title header, watch
//! session — and the classifier that dispatches one raw line to them.
//!
//! Each recognizer's grammar is stated as spec functions over the
//! line's character sequence; the executable scanners are proved to
//! decide exactly those grammars.

use crate::context::{ctx_wf, ParsingContext};
use crate::dates::{date_lt, date_succ, date_wf, time_mins, time_wf, Date, DateTime, Time};
use crate::elements::{
    company_equiv, company_shape, entry_equiv, entry_wf, episode_num_val, episode_ok, split_names,
    Company, Episode, WatchEntry,
};
use crate::errors::{FormatError, MissingContext, ParseError};
use crate::text::{
    digit_val, is_alnum, is_delim, is_digit, is_wspace, lemma_trim_subrange, lemma_ws_end,
    read_two_digits, scan_trim_end, scan_ws, trim, trimmed_len, ws_end,
};
use vstd::prelude::*;

verus! {

/// What may follow a recognized value on its line: whitespace, then
/// either nothing or a `//` comment running to the end of the line.
pub open spec fn tail_ok(s: Seq<char>, i: int) -> bool
    recommends
        0 <= i <= s.len(),
{
    let j = ws_end(s, i);
    j == s.len() || (j + 1 < s.len() && s[j] == '/' && s[j + 1] == '/')
}

/// Decides `tail_ok` from position `i`.
fn scan_tail(s: &str, i: usize) -> (r: bool)
    requires
        i <= s@.len(),
    ensures
        r == tail_ok(s@, i as int),
{
    let n = s.unicode_len();
    let j = scan_ws(s, i);
    if j == n {
        true
    } else if j + 1 < n {
        s.get_char(j) == '/' && s.get_char(j + 1) == '/'
    } else {
        false
    }
}

/// Whether character `i` of `s` is an ASCII digit.
fn digit_at(s: &str, i: usize) -> (b: bool)
    requires
        i < s@.len(),
    ensures
        b == is_digit(s@[i as int]),
{
    let c = s.get_char(i);
    '0' <= c && c <= '9'
}

/// Value of the two digits at `i`, `i + 1`.
pub open spec fn two_digit_val(s: Seq<char>, i: int) -> int {
    10 * digit_val(s[i]) + digit_val(s[i + 1])
}

// ------------------------------------------------------------------
// Date header: `DD/MM/YYYY`, surrounded by whitespace, optionally
// followed by a comment.
// ------------------------------------------------------------------

/// The fixed `DD/MM/YYYY` picture, after leading whitespace, with an
/// acceptable tail.
pub open spec fn date_line_shape(s: Seq<char>) -> bool {
    let i = ws_end(s, 0);
    &&& i + 10 <= s.len()
    &&& is_digit(s[i]) && is_digit(s[i + 1])
    &&& s[i + 2] == '/'
    &&& is_digit(s[i + 3]) && is_digit(s[i + 4])
    &&& s[i + 5] == '/'
    &&& is_digit(s[i + 6]) && is_digit(s[i + 7]) && is_digit(s[i + 8]) && is_digit(s[i + 9])
    &&& tail_ok(s, i + 10)
}

/// The day-month-year a date line denotes.
pub open spec fn date_line_date(s: Seq<char>) -> Date {
    let i = ws_end(s, 0);
    Date {
        year: (two_digit_val(s, i + 6) * 100 + two_digit_val(s, i + 8)) as u32,
        month: two_digit_val(s, i + 3) as u8,
        day: two_digit_val(s, i) as u8,
    }
}

/// A date line is accepted exactly when it has the picture and names a
/// real calendar day.
pub open spec fn date_line_ok(s: Seq<char>) -> bool {
    date_line_shape(s) && date_wf(date_line_date(s))
}

/// The character for one decimal digit.
pub open spec fn digit_char(d: int) -> char {
    if d == 0 {
        '0'
    } else if d == 1 {
        '1'
    } else if d == 2 {
        '2'
    } else if d == 3 {
        '3'
    } else if d == 4 {
        '4'
    } else if d == 5 {
        '5'
    } else if d == 6 {
        '6'
    } else if d == 7 {
        '7'
    } else if d == 8 {
        '8'
    } else {
        '9'
    }
}

/// The canonical ten-character `DD/MM/YYYY` rendering of a date.
pub open spec fn date_line_of(day: int, month: int, year: int) -> Seq<char> {
    seq![
        digit_char(day / 10),
        digit_char(day % 10),
        '/',
        digit_char(month / 10),
        digit_char(month % 10),
        '/',
        digit_char(year / 1000),
        digit_char((year / 100) % 10),
        digit_char((year / 10) % 10),
        digit_char(year % 10),
    ]
}

/// Round trip for date headers: rendering any valid four-digit-year
/// date as `DD/MM/YYYY` yields a line the recognizer accepts, and the
/// date it returns carries the same day, month and year.
pub proof fn lemma_date_line_roundtrip(d: Date)
    requires
        date_wf(d),
        d.year <= 9999,
    ensures
        date_line_ok(date_line_of(d.day as int, d.month as int, d.year as int)),
        date_line_date(date_line_of(d.day as int, d.month as int, d.year as int)) == d,
{
    let day = d.day as int;
    let month = d.month as int;
    let year = d.year as int;
    let s = date_line_of(day, month, year);
    assert(s.len() == 10);
    assert(!is_wspace(s[0]));
    assert(ws_end(s, 0) == 0);
    assert(ws_end(s, 10) == 10);
    assert(date_line_shape(s));
    assert(two_digit_val(s, 0) == day) by {
        assert(digit_val(digit_char(day / 10)) == day / 10);
        assert(digit_val(digit_char(day % 10)) == day % 10);
    }
    assert(two_digit_val(s, 3) == month) by {
        assert(digit_val(digit_char(month / 10)) == month / 10);
        assert(digit_val(digit_char(month % 10)) == month % 10);
    }
    assert(two_digit_val(s, 6) * 100 + two_digit_val(s, 8) == year) by {
        assert(digit_val(digit_char(year / 1000)) == year / 1000);
        assert(digit_val(digit_char((year / 100) % 10)) == (year / 100) % 10);
        assert(digit_val(digit_char((year / 10) % 10)) == (year / 10) % 10);
        assert(digit_val(digit_char(year % 10)) == year % 10);
        assert((10 * (year / 1000) + (year / 100) % 10) * 100 + (10 * ((year / 10) % 10) + year
            % 10) == year) by (nonlinear_arith)
            requires
                0 <= year <= 9999,
        ;
    }
}

/// Recognizes a date-header line. Returns the calendar date exactly
/// when the line matches `DD/MM/YYYY` (plus optional comment) and the
/// digits name a real day; otherwise reports the whole line.
pub fn parse_date_line(line: &str) -> (r: Result<Date, ParseError>)
    ensures
        match r {
            Ok(d) => date_line_ok(line@) && d == date_line_date(line@) && date_wf(d),
            Err(e) => !date_line_ok(line@) && (e matches ParseError::Format(FormatError::Date(t))
                && t@ == line@),
        },
{
    let n = line.unicode_len();
    let i = scan_ws(line, 0);
    if n - i < 10 {
        return Err(ParseError::Format(FormatError::Date(line.to_owned())));
    }
    let shape_ok = digit_at(line, i) && digit_at(line, i + 1) && line.get_char(i + 2) == '/'
        && digit_at(line, i + 3) && digit_at(line, i + 4) && line.get_char(i + 5) == '/'
        && digit_at(line, i + 6) && digit_at(line, i + 7) && digit_at(line, i + 8) && digit_at(
        line,
        i + 9,
    ) && scan_tail(line, i + 10);
    if !shape_ok {
        return Err(ParseError::Format(FormatError::Date(line.to_owned())));
    }
    let day = read_two_digits(line, i);
    let month = read_two_digits(line, i + 3);
    let year = read_two_digits(line, i + 6) * 100 + read_two_digits(line, i + 8);
    match Date::from_ymd(year, month as u8, day as u8) {
        Some(d) => Ok(d),
        None => Err(ParseError::Format(FormatError::Date(line.to_owned()))),
    }
}

// ------------------------------------------------------------------
// Title header: `<title>:`, where the title starts with an
// alphanumeric character, contains no brackets or braces, and the
// colon may be followed by a comment.
// ------------------------------------------------------------------

/// Whether the line's first non-whitespace character can open a title.
pub open spec fn title_head_ok(s: Seq<char>) -> bool {
    let i = ws_end(s, 0);
    i < s.len() && is_alnum(s[i])
}

/// Whether the colon at position `j` closes a title: everything from
/// the first non-whitespace character up to `j` is bracket-free, and
/// only whitespace or a comment follows.
pub open spec fn title_valid_at(s: Seq<char>, j: int) -> bool {
    let i = ws_end(s, 0);
    &&& title_head_ok(s)
    &&& i < j < s.len()
    &&& s[j] == ':'
    &&& (forall|k: int| i <= k < j ==> !is_delim(s[k]))
    &&& tail_ok(s, j + 1)
}

/// The rightmost title-closing colon at or below `j`, if any. The
/// rightmost one is taken so that a colon inside a trailing comment
/// wins over an earlier one, as a greedy reading of the line does.
pub open spec fn title_colon(s: Seq<char>, j: int) -> Option<int>
    decreases j + 1 when j >= -1
{
    if j < 0 {
        None
    } else if title_valid_at(s, j) {
        Some(j)
    } else {
        title_colon(s, j - 1)
    }
}

/// A title line is accepted exactly when some colon closes a title.
pub open spec fn title_line_ok(s: Seq<char>) -> bool {
    title_colon(s, s.len() - 1) is Some
}

/// The title a title line denotes: the text before the chosen colon,
/// trimmed of surrounding whitespace.
pub open spec fn title_text(s: Seq<char>) -> Seq<char> {
    trim(s.subrange(ws_end(s, 0), title_colon(s, s.len() - 1)->0))
}

/// Below the first non-whitespace position no colon closes a title.
proof fn lemma_title_colon_below(s: Seq<char>, j: int)
    requires
        -1 <= j <= ws_end(s, 0),
    ensures
        title_colon(s, j) is None,
    decreases j + 1,
{
    if j >= 0 {
        lemma_title_colon_below(s, j - 1);
    }
}

/// Without an alphanumeric opening character no colon closes a title.
proof fn lemma_title_colon_no_head(s: Seq<char>, j: int)
    requires
        j >= -1,
        !title_head_ok(s),
    ensures
        title_colon(s, j) is None,
    decreases j + 1,
{
    if j >= 0 {
        lemma_title_colon_no_head(s, j - 1);
    }
}

/// Recognizes a title-header line. Returns the trimmed title exactly
/// when the line is `<title>:` with an optional trailing comment;
/// otherwise reports the whole line.
pub fn parse_title_line(line: &str) -> (r: Result<String, ParseError>)
    ensures
        match r {
            Ok(t) => title_line_ok(line@) && t@ == title_text(line@),
            Err(e) => !title_line_ok(line@) && (e matches ParseError::Format(FormatError::Title(t))
                && t@ == line@),
        },
{
    let n = line.unicode_len();
    let i = scan_ws(line, 0);
    let head_ok = i < n && {
        let c = line.get_char(i);
        ('a' <= c && c <= 'z') || ('A' <= c && c <= 'Z') || ('0' <= c && c <= '9')
    };
    if !head_ok {
        proof {
            lemma_title_colon_no_head(line@, n as int - 1);
        }
        return Err(ParseError::Format(FormatError::Title(line.to_owned())));
    }
    // First bracket or brace at or after the title's start; a valid
    // closing colon cannot lie beyond it.
    let mut fb = i;
    #[verifier::loop_isolation(true)]
    loop
        invariant
            i <= fb <= n,
            n == line@.len(),
            forall|k: int| i <= k < fb ==> !is_delim(line@[k]),
        ensures
            i <= fb <= n,
            forall|k: int| i <= k < fb ==> !is_delim(line@[k]),
            fb < n ==> is_delim(line@[fb as int]),
        decreases n - fb,
    {
        if fb == n {
            break;
        }
        let c = line.get_char(fb);
        if c == '[' || c == ']' || c == '{' || c == '}' {
            break;
        }
        fb = fb + 1;
    }
    let mut j = n - 1;
    let mut found: Option<usize> = None;
    #[verifier::loop_isolation(true)]
    loop
        invariant
            i <= j <= n - 1,
            n == line@.len(),
            i == ws_end(line@, 0),
            i < n,
            is_alnum(line@[i as int]),
            i <= fb <= n,
            forall|k: int| i <= k < fb ==> !is_delim(line@[k]),
            fb < n ==> is_delim(line@[fb as int]),
            title_colon(line@, n as int - 1) == title_colon(line@, j as int),
        ensures
            match found {
                Some(jj) => i < jj < n && title_colon(line@, n as int - 1) == Some(jj as int),
                None => title_colon(line@, n as int - 1) is None,
            },
        decreases j,
    {
        let mut ok = j > i && line.get_char(j) == ':';
        if ok && j > fb {
            ok = false;
            proof {
                assert(is_delim(line@[fb as int]));
                assert(!title_valid_at(line@, j as int));
            }
        } else if ok {
            ok = scan_tail(line, j + 1);
        }
        if ok {
            proof {
                assert(title_valid_at(line@, j as int));
            }
            found = Some(j);
            break;
        }
        proof {
            assert(!title_valid_at(line@, j as int));
        }
        if j == i {
            proof {
                lemma_title_colon_below(line@, i as int);
            }
            found = None;
            break;
        }
        j = j - 1;
    }
    match found {
        Some(jj) => {
            let b = scan_trim_end(line, i, jj);
            proof {
                lemma_ws_end(line@, 0);
                if b == i {
                    assert(is_wspace(line@[i as int]));
                    assert(false);
                }
                lemma_trim_subrange(line@, i as int, i as int, b as int, jj as int);
            }
            let t = line.substring_char(i, b);
            Ok(t.to_owned())
        },
        None => Err(ParseError::Format(FormatError::Title(line.to_owned()))),
    }
}

// ------------------------------------------------------------------
// Watch session: `HH:MM - HH:MM <episode> {co-watchers}`, anchored at
// the start of the line, the co-watcher group optional.
// ------------------------------------------------------------------

/// An `HH:MM` picture at position `i`.
pub open spec fn time2_at(s: Seq<char>, i: int) -> bool {
    &&& i + 5 <= s.len()
    &&& is_digit(s[i]) && is_digit(s[i + 1])
    &&& s[i + 2] == ':'
    &&& is_digit(s[i + 3]) && is_digit(s[i + 4])
}

/// The time of day an `HH:MM` picture denotes.
pub open spec fn time2_val(s: Seq<char>, i: int) -> Time {
    Time { hour: two_digit_val(s, i) as u8, minute: two_digit_val(s, i + 3) as u8 }
}

/// Position of the dash between the two times.
pub open spec fn watch_dash(s: Seq<char>) -> int {
    ws_end(s, 5)
}

/// Position of the end time's `HH:MM` picture.
pub open spec fn watch_end_start(s: Seq<char>) -> int {
    ws_end(s, watch_dash(s) + 1)
}

/// Position of the episode token.
pub open spec fn watch_ep_start(s: Seq<char>) -> int {
    ws_end(s, watch_end_start(s) + 5)
}

/// The `HH:MM - HH:MM` head of a session line, with at least one
/// whitespace character before the episode token.
pub open spec fn watch_head_shape(s: Seq<char>) -> bool {
    &&& time2_at(s, 0)
    &&& watch_dash(s) < s.len() && s[watch_dash(s)] == '-'
    &&& time2_at(s, watch_end_start(s))
    &&& watch_ep_start(s) > watch_end_start(s) + 5
}

/// End of the maximal run of digits and dots starting at `i`.
pub open spec fn digit_run_end(s: Seq<char>, i: int) -> int
    recommends
        0 <= i <= s.len(),
    decreases s.len() - i when 0 <= i <= s.len()
{
    if i >= s.len() {
        s.len() as int
    } else if is_digit(s[i]) || s[i] == '.' {
        digit_run_end(s, i + 1)
    } else {
        i
    }
}

/// One past the episode token: two dashes for the placeholder, else
/// the digit-and-dot run.
pub open spec fn watch_ep_end(s: Seq<char>) -> int {
    let e0 = watch_ep_start(s);
    if e0 + 2 <= s.len() && s[e0] == '-' && s[e0 + 1] == '-' {
        e0 + 2
    } else {
        digit_run_end(s, e0)
    }
}

/// The episode token of a session line: either the `--` placeholder or
/// a digit followed by at least one more digit or dot.
pub open spec fn watch_ep_shape(s: Seq<char>) -> bool {
    let e0 = watch_ep_start(s);
    ||| (e0 + 2 <= s.len() && s[e0] == '-' && s[e0 + 1] == '-')
    ||| (e0 < s.len() && is_digit(s[e0]) && watch_ep_end(s) >= e0 + 2)
}

/// The episode token's text.
pub open spec fn watch_ep_token(s: Seq<char>) -> Seq<char> {
    s.subrange(watch_ep_start(s), watch_ep_end(s))
}

/// First non-whitespace position after the episode token; a co-watcher
/// group starts here if anything is left on the line.
pub open spec fn watch_body_end(s: Seq<char>) -> int {
    ws_end(s, watch_ep_end(s))
}

/// Whether the session line carries a co-watcher group.
pub open spec fn watch_has_company(s: Seq<char>) -> bool {
    watch_body_end(s) < s.len()
}

/// The co-watcher group's text: from its opening brace to the last
/// non-whitespace character of the line.
pub open spec fn watch_company_text(s: Seq<char>) -> Seq<char> {
    s.subrange(watch_body_end(s), trimmed_len(s))
}

/// What may follow the episode token: only whitespace, or a group that
/// opens with `{` and whose closing `}` is the last non-whitespace
/// character of the line.
pub open spec fn watch_company_part_ok(s: Seq<char>) -> bool {
    if watch_body_end(s) == s.len() {
        true
    } else {
        &&& s[watch_body_end(s)] == '{'
        &&& trimmed_len(s) - 1 > watch_body_end(s)
        &&& s[trimmed_len(s) - 1] == '}'
    }
}

/// The names inside the session line's co-watcher group.
pub open spec fn watch_company_names(s: Seq<char>) -> Seq<Seq<char>> {
    let t = watch_company_text(s);
    split_names(t.subrange(1, t.len() - 1))
}

/// The overall picture of a session line.
pub open spec fn watch_line_shape(s: Seq<char>) -> bool {
    watch_head_shape(s) && watch_ep_shape(s) && watch_company_part_ok(s)
}

/// The session's start time of day.
pub open spec fn watch_start_time(s: Seq<char>) -> Time {
    time2_val(s, 0)
}

/// The session's end time of day.
pub open spec fn watch_end_time(s: Seq<char>) -> Time {
    time2_val(s, watch_end_start(s))
}

/// Both times fit the 24-hour clock.
pub open spec fn watch_times_ok(s: Seq<char>) -> bool {
    time_wf(watch_start_time(s)) && time_wf(watch_end_time(s))
}

/// A session line is accepted exactly when its picture, both times and
/// the episode token are all valid. (A co-watcher group that passed
/// the picture check always parses.)
pub open spec fn watch_line_ok(s: Seq<char>) -> bool {
    watch_line_shape(s) && watch_times_ok(s) && episode_ok(watch_ep_token(s))
}

/// Rollover rule 1: the new session starts, by time of day, strictly
/// before the previous session both started and ended. Since sessions
/// arrive in the order they were watched, such a start can only come
/// later in real time if midnight passed in between: the new session
/// already lies on the next day. (A later start that merely overlaps
/// the previous session is left on the same day.)
pub open spec fn rule1_applies(ctx: ParsingContext, s: Seq<char>) -> bool {
    ctx.last_watch_entry matches Some(le) && time_mins(le.end_time.time) > time_mins(
        watch_start_time(s),
    ) && time_mins(watch_start_time(s)) < time_mins(le.start_time.time)
}

/// Rollover rule 2: the session itself crosses midnight.
pub open spec fn rule2_applies(s: Seq<char>) -> bool {
    time_mins(watch_end_time(s)) < time_mins(watch_start_time(s))
}

/// The calendar date the session starts on: the context's date,
/// advanced by one day when rule 1 applies.
pub open spec fn watch_start_date(ctx: ParsingContext, s: Seq<char>) -> Date {
    let d0 = ctx.current_date->0;
    if rule1_applies(ctx, s) {
        date_succ(d0)
    } else {
        d0
    }
}

/// The calendar date the session ends on: one day past the start date
/// when rule 2 applies. This is also the context's date afterwards.
pub open spec fn watch_end_date(ctx: ParsingContext, s: Seq<char>) -> Date {
    if rule2_applies(s) {
        date_succ(watch_start_date(ctx, s))
    } else {
        watch_start_date(ctx, s)
    }
}

/// Everything a successful session-line parse promises: the returned
/// entry's fields, and how the context moved from `ctx` to `new_ctx`.
pub open spec fn watch_success(
    ctx: ParsingContext,
    s: Seq<char>,
    entry: WatchEntry,
    new_ctx: ParsingContext,
) -> bool {
    &&& ctx.current_date matches Some(d0)
    &&& ctx.current_anime matches Some(aid)
    &&& watch_line_ok(s)
    &&& entry.anime_id == ctx.current_anime->0
    &&& entry.start_time == (DateTime { date: watch_start_date(ctx, s), time: watch_start_time(s) })
    &&& entry.end_time == (DateTime { date: watch_end_date(ctx, s), time: watch_end_time(s) })
    &&& entry.episode.number == episode_num_val(watch_ep_token(s))
    &&& (watch_has_company(s) ==> (entry.company matches Some(c) && c@ == watch_company_names(s)))
    &&& (!watch_has_company(s) ==> entry.company is None)
    &&& entry_wf(entry)
    &&& new_ctx.current_date == Some(watch_end_date(ctx, s))
    &&& new_ctx.current_anime == ctx.current_anime
    &&& (new_ctx.last_watch_entry matches Some(le) && entry_equiv(le, entry))
    &&& new_ctx.last_company == ctx.last_company
}

/// Exactly which failure a session-line parse reports, in the order
/// the checks are made: missing context, then the line's picture, then
/// the start time, the end time, and last the episode token.
pub open spec fn watch_failure(ctx: ParsingContext, s: Seq<char>, e: ParseError) -> bool {
    if ctx.current_date is None {
        e == ParseError::MissingContext(MissingContext::NoCurrentDate)
    } else if ctx.current_anime is None {
        e == ParseError::MissingContext(MissingContext::NoCurrentAnime)
    } else if !watch_line_shape(s) {
        e matches ParseError::Format(FormatError::Line(t)) && t@ == s
    } else if !time_wf(watch_start_time(s)) {
        e matches ParseError::Format(FormatError::Time(t)) && t@ == s.subrange(0, 5)
    } else if !time_wf(watch_end_time(s)) {
        e matches ParseError::Format(FormatError::Time(t)) && t@ == s.subrange(
            watch_end_start(s),
            watch_end_start(s) + 5,
        )
    } else {
        !episode_ok(watch_ep_token(s)) && (e matches ParseError::Format(FormatError::Episode(t))
            && t@ == watch_ep_token(s))
    }
}

/// Whether character `i` of `s` is a digit or a dot.
fn digit_or_dot_at(s: &str, i: usize) -> (b: bool)
    requires
        i < s@.len(),
    ensures
        b == (is_digit(s@[i as int]) || s@[i as int] == '.'),
{
    let c = s.get_char(i);
    ('0' <= c && c <= '9') || c == '.'
}

/// Recognizes a watch-session line against the context. Requires a
/// current date and show (the ordering invariant); resolves midnight
/// crossings by the two rollover rules; on success records the entry
/// and the possibly advanced date in the context, and on any failure
/// leaves the context exactly as it was.
///
/// The year headroom in the requires only keeps the two possible
/// day advances representable; real log dates are nowhere near it.
#[verifier::rlimit(100)]
pub fn parse_watch_line(context: &mut ParsingContext, line: &str) -> (r: Result<
    WatchEntry,
    ParseError,
>)
    requires
        ctx_wf(*old(context)),
        old(context).current_date matches Some(d) ==> d.year <= u32::MAX - 2,
    ensures
        ctx_wf(*final(context)),
        match r {
            Ok(entry) => watch_success(*old(context), line@, entry, *final(context)),
            Err(e) => *final(context) == *old(context) && watch_failure(*old(context), line@, e),
        },
{
    let d0 = match context.current_date {
        Some(d) => d,
        None => {
            return Err(ParseError::MissingContext(MissingContext::NoCurrentDate));
        },
    };
    let aid = match context.current_anime {
        Some(a) => a,
        None => {
            return Err(ParseError::MissingContext(MissingContext::NoCurrentAnime));
        },
    };
    let n = line.unicode_len();
    // Start time, anchored at the very beginning of the line.
    if n < 5 || !digit_at(line, 0) || !digit_at(line, 1) || line.get_char(2) != ':' || !digit_at(
        line,
        3,
    ) || !digit_at(line, 4) {
        return Err(ParseError::Format(FormatError::Line(line.to_owned())));
    }
    // The dash separating the two times.
    let dash = scan_ws(line, 5);
    if dash == n || line.get_char(dash) != '-' {
        return Err(ParseError::Format(FormatError::Line(line.to_owned())));
    }
    // End time.
    let e = scan_ws(line, dash + 1);
    if n - e < 5 || !digit_at(line, e) || !digit_at(line, e + 1) || line.get_char(e + 2) != ':'
        || !digit_at(line, e + 3) || !digit_at(line, e + 4) {
        return Err(ParseError::Format(FormatError::Line(line.to_owned())));
    }
    // At least one whitespace character, then the episode token.
    let e0 = scan_ws(line, e + 5);
    if e0 == e + 5 {
        return Err(ParseError::Format(FormatError::Line(line.to_owned())));
    }
    let tok_end: usize;
    if e0 < n && line.get_char(e0) == '-' && e0 + 1 < n && line.get_char(e0 + 1) == '-' {
        tok_end = e0 + 2;
    } else if e0 < n && digit_at(line, e0) {
        let mut k = e0;
        while k < n && digit_or_dot_at(line, k)
            invariant
                e0 <= k <= n,
                digit_run_end(line@, e0 as int) == digit_run_end(line@, k as int),
            decreases n - k,
        {
            k = k + 1;
        }
        if k - e0 < 2 {
            return Err(ParseError::Format(FormatError::Line(line.to_owned())));
        }
        tok_end = k;
    } else {
        return Err(ParseError::Format(FormatError::Line(line.to_owned())));
    }
    // The optional co-watcher group.
    let b0 = scan_ws(line, tok_end);
    let company: Option<Company>;
    if b0 == n {
        company = None;
    } else {
        proof {
            assert(line@.subrange(0, n as int) =~= line@);
        }
        if line.get_char(b0) != '{' {
            return Err(ParseError::Format(FormatError::Line(line.to_owned())));
        }
        let t = scan_trim_end(line, 0, n);
        proof {
            if t <= b0 {
                assert(is_wspace(line@[b0 as int]));
                assert(false);
            }
        }
        if t - b0 < 2 || line.get_char(t - 1) != '}' {
            return Err(ParseError::Format(FormatError::Line(line.to_owned())));
        }
        let ctext = line.substring_char(b0, t);
        match Company::from_str(ctext) {
            Ok(c) => {
                proof {
                    let wct = watch_company_text(line@);
                    assert(ctext@.subrange(1, ctext@.len() - 1) =~= wct.subrange(
                        1,
                        wct.len() - 1,
                    ));
                }
                company = Some(c);
            },
            Err(_) => {
                proof {
                    assert(false);
                }
                return Err(ParseError::Format(FormatError::Line(line.to_owned())));
            },
        }
    }
    // Times must fit the 24-hour clock.
    let sh = read_two_digits(line, 0);
    let sm = read_two_digits(line, 3);
    if sh > 23 || sm > 59 {
        let txt = line.substring_char(0, 5);
        return Err(ParseError::Format(FormatError::Time(txt.to_owned())));
    }
    let eh = read_two_digits(line, e);
    let em = read_two_digits(line, e + 3);
    if eh > 23 || em > 59 {
        let txt = line.substring_char(e, e + 5);
        return Err(ParseError::Format(FormatError::Time(txt.to_owned())));
    }
    // The episode token must denote an integer.
    let ep_str = line.substring_char(e0, tok_end);
    let episode = match Episode::from(ep_str) {
        Ok(ep) => ep,
        Err(err) => {
            return Err(err);
        },
    };
    let start_t = Time::new(sh as u8, sm as u8);
    let end_t = Time::new(eh as u8, em as u8);
    // Rollover inference: rule 1, then rule 2; the date advances at
    // most twice.
    let mut rule1 = false;
    if let Some(le) = &context.last_watch_entry {
        let last_end = le.end_time.time.hour as u32 * 60 + le.end_time.time.minute as u32;
        let last_start = le.start_time.time.hour as u32 * 60 + le.start_time.time.minute as u32;
        let new_start = sh * 60 + sm;
        if last_end > new_start && new_start < last_start {
            rule1 = true;
        }
    }
    let d1 = if rule1 {
        d0.succ()
    } else {
        d0
    };
    let rule2 = eh * 60 + em < sh * 60 + sm;
    let start_date = d1;
    let end_date = if rule2 {
        d1.succ()
    } else {
        d1
    };
    let new_date = end_date;
    let entry = WatchEntry::new(
        aid,
        DateTime::new(start_date, start_t),
        DateTime::new(end_date, end_t),
        episode,
        company,
    );
    // Commit: advance the date if a rule fired, then record the entry.
    if rule1 || rule2 {
        match context.notify_new_current_date(new_date) {
            Ok(()) => {},
            Err(err) => {
                proof {
                    assert(false);
                }
                return Err(err);
            },
        }
        match context.notify_new_current_anime(aid) {
            Ok(()) => {},
            Err(err) => {
                proof {
                    assert(false);
                }
                return Err(err);
            },
        }
    }
    let stored = entry.clone();
    match context.notify_new_watch_entry(stored) {
        Ok(()) => {},
        Err(err) => {
            proof {
                assert(false);
            }
            return Err(err);
        },
    }
    Ok(entry)
}

// ------------------------------------------------------------------
// Line classifier.
// ------------------------------------------------------------------

/// True when `line` consists of whitespace only; the classifier skips
/// such lines.
pub fn line_is_blank(line: &str) -> (r: bool)
    ensures
        r == (ws_end(line@, 0) == line@.len()),
{
    let n = line.unicode_len();
    let i = scan_ws(line, 0);
    i == n
}

/// Decides whether a line has the session-line picture, without
/// touching any context.
fn watch_shape_check(line: &str) -> (b: bool)
    ensures
        b == watch_line_shape(line@),
{
    let n = line.unicode_len();
    if n < 5 || !digit_at(line, 0) || !digit_at(line, 1) || line.get_char(2) != ':' || !digit_at(
        line,
        3,
    ) || !digit_at(line, 4) {
        return false;
    }
    let dash = scan_ws(line, 5);
    if dash == n || line.get_char(dash) != '-' {
        return false;
    }
    let e = scan_ws(line, dash + 1);
    if n - e < 5 || !digit_at(line, e) || !digit_at(line, e + 1) || line.get_char(e + 2) != ':'
        || !digit_at(line, e + 3) || !digit_at(line, e + 4) {
        return false;
    }
    let e0 = scan_ws(line, e + 5);
    if e0 == e + 5 {
        return false;
    }
    let tok_end: usize;
    if e0 < n && line.get_char(e0) == '-' && e0 + 1 < n && line.get_char(e0 + 1) == '-' {
        tok_end = e0 + 2;
    } else if e0 < n && digit_at(line, e0) {
        let mut k = e0;
        while k < n && digit_or_dot_at(line, k)
            invariant
                e0 <= k <= n,
                digit_run_end(line@, e0 as int) == digit_run_end(line@, k as int),
            decreases n - k,
        {
            k = k + 1;
        }
        if k - e0 < 2 {
            return false;
        }
        tok_end = k;
    } else {
        return false;
    }
    let b0 = scan_ws(line, tok_end);
    if b0 == n {
        return true;
    }
    proof {
        assert(line@.subrange(0, n as int) =~= line@);
    }
    if line.get_char(b0) != '{' {
        return false;
    }
    let t = scan_trim_end(line, 0, n);
    proof {
        if t <= b0 {
            assert(is_wspace(line@[b0 as int]));
            assert(false);
        }
    }
    t - b0 >= 2 && line.get_char(t - 1) == '}'
}

/// One classified input line.
#[derive(Debug, PartialEq)]
pub enum ParsedLine {
    /// A whitespace-only line; nothing to record.
    Blank,
    /// A date header; the context has been advanced to this date.
    DateHeader(Date),
    /// A title header. The caller resolves the show handle in the
    /// store and then selects it in the context.
    Title(String),
    /// A session line; the entry has been recorded in the context.
    Watch(WatchEntry),
}

/// Classifies one raw line: blank lines are skipped, then the date,
/// title and session recognizers are tried in that fixed order and
/// the first match wins. A date header advances the context; a title
/// is only surfaced (the caller selects the show); a session line is
/// parsed against the context. A line of no recognizable form is
/// reported as unrecognized, while a session-shaped line keeps its
/// specific failure.
#[verifier::rlimit(60)]
pub fn parse_line(context: &mut ParsingContext, line: &str) -> (r: Result<ParsedLine, ParseError>)
    requires
        ctx_wf(*old(context)),
        old(context).current_date matches Some(d) ==> d.year <= u32::MAX - 2,
    ensures
        ctx_wf(*final(context)),
        match r {
            Ok(pl) => match pl {
                ParsedLine::Blank => ws_end(line@, 0) == line@.len() && *final(context)
                    == *old(context),
                ParsedLine::DateHeader(d) => {
                    &&& ws_end(line@, 0) != line@.len()
                    &&& date_line_ok(line@)
                    &&& d == date_line_date(line@)
                    &&& (old(context).current_date is None || date_lt(
                        old(context).current_date->0,
                        d,
                    ))
                    &&& *final(context) == (ParsingContext {
                        current_date: Some(d),
                        current_anime: None,
                        last_watch_entry: None,
                        last_company: old(context).last_company,
                    })
                },
                ParsedLine::Title(t) => {
                    &&& ws_end(line@, 0) != line@.len()
                    &&& !date_line_ok(line@)
                    &&& title_line_ok(line@)
                    &&& t@ == title_text(line@)
                    &&& *final(context) == *old(context)
                },
                ParsedLine::Watch(entry) => {
                    &&& ws_end(line@, 0) != line@.len()
                    &&& !date_line_ok(line@)
                    &&& !title_line_ok(line@)
                    &&& watch_success(*old(context), line@, entry, *final(context))
                },
            },
            Err(e) => {
                &&& ws_end(line@, 0) != line@.len()
                &&& *final(context) == *old(context)
                &&& if date_line_ok(line@) {
                    &&& old(context).current_date matches Some(cur) && !date_lt(
                        cur,
                        date_line_date(line@),
                    )
                    &&& e == (ParseError::NonMonotonicDate {
                        new_date: date_line_date(line@),
                        current: old(context).current_date->0,
                    })
                } else {
                    &&& !title_line_ok(line@)
                    &&& if !watch_line_shape(line@) {
                        e matches ParseError::UnrecognizedLine(t) && t@ == line@
                    } else {
                        watch_failure(*old(context), line@, e)
                    }
                }
            },
        },
{
    if line_is_blank(line) {
        return Ok(ParsedLine::Blank);
    }
    match parse_date_line(line) {
        Ok(d) => {
            return match context.notify_new_current_date(d) {
                Ok(()) => Ok(ParsedLine::DateHeader(d)),
                Err(e) => Err(e),
            };
        },
        Err(_) => {},
    }
    match parse_title_line(line) {
        Ok(t) => {
            return Ok(ParsedLine::Title(t));
        },
        Err(_) => {},
    }
    if !watch_shape_check(line) {
        return Err(ParseError::UnrecognizedLine(line.to_owned()));
    }
    match parse_watch_line(context, line) {
        Ok(entry) => Ok(ParsedLine::Watch(entry)),
        Err(e) => Err(e),
    }
}

} // verus!
