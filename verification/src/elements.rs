//! The domain value types a log line parses into: episode numbers,
//! co-watcher groups and watch entries.

use crate::dates::{dt_le, dt_wf, DateTime};
use crate::errors::{FormatError, ParseError};
use crate::text::{
    all_digits, dec_val, find_char, lemma_dec_val_prefix_le, lemma_find_char_unique,
    lemma_trim_subrange, scan_to_char, scan_trim_end, trim,
};
use vstd::prelude::*;

verus! {

/// The textual form of an episode number: an optional leading `-`,
/// then one or more ASCII digits, nothing else.
pub open spec fn episode_num_shape(s: Seq<char>) -> bool {
    if s.len() > 0 && s[0] == '-' {
        s.len() >= 2 && all_digits(s.skip(1))
    } else {
        s.len() >= 1 && all_digits(s)
    }
}

/// The signed value an episode token denotes.
pub open spec fn episode_num_val(s: Seq<char>) -> int {
    if s.len() > 0 && s[0] == '-' {
        -dec_val(s.skip(1))
    } else {
        dec_val(s)
    }
}

/// An episode token parses exactly when it has the integer shape and
/// its value fits the stored width.
pub open spec fn episode_ok(s: Seq<char>) -> bool {
    episode_num_shape(s) && i32::MIN <= episode_num_val(s) <= i32::MAX
}

/// Episode parsing is invariant to leading zeros: inserting a `0`
/// after the optional sign leaves both the shape and the denoted
/// value unchanged, so `"007"` and `"7"` (or `"-01"` and `"-1"`)
/// parse to the same episode.
pub proof fn lemma_episode_leading_zero(s: Seq<char>)
    requires
        episode_num_shape(s),
    ensures
        ({
            let padded = if s[0] == '-' {
                seq!['-', '0'] + s.skip(1)
            } else {
                seq!['0'] + s
            };
            episode_num_shape(padded) && episode_num_val(padded) == episode_num_val(s)
        }),
{
    if s[0] == '-' {
        let padded = seq!['-', '0'] + s.skip(1);
        assert(padded[0] == '-');
        assert(padded.skip(1) =~= seq!['0'] + s.skip(1));
        assert(all_digits(padded.skip(1))) by {
            assert(forall|k: int|
                1 <= k < padded.skip(1).len() ==> padded.skip(1)[k] == s.skip(1)[k - 1]);
        }
        crate::text::lemma_dec_val_leading_zero(s.skip(1));
    } else {
        let padded = seq!['0'] + s;
        assert(padded[0] == '0');
        assert(all_digits(padded)) by {
            assert(forall|k: int| 1 <= k < padded.len() ==> padded[k] == s[k - 1]);
        }
        crate::text::lemma_dec_val_leading_zero(s);
    }
}

/// An episode number. Negative numbers cover pre-air specials;
/// fractional episodes are deliberately rejected.
#[derive(Debug, PartialEq, Eq, Structural, Clone, Copy)]
pub struct Episode {
    pub number: i32,
}

impl Episode {
    /// Parses an episode token: an optional `-`, then digits. Leading
    /// zeros are accepted and normalized away; a decimal point or any
    /// other stray character is refused.
    pub fn from(ep_str: &str) -> (r: Result<Episode, ParseError>)
        ensures
            match r {
                Ok(ep) => episode_ok(ep_str@) && ep.number == episode_num_val(ep_str@),
                Err(e) => !episode_ok(ep_str@) && (e matches ParseError::Format(
                    FormatError::Episode(t),
                ) && t@ == ep_str@),
            },
    {
        let n = ep_str.unicode_len();
        let neg = n > 0 && ep_str.get_char(0) == '-';
        let start: usize = if neg {
            1
        } else {
            0
        };
        let ghost digits = ep_str@.skip(start as int);
        if start >= n {
            return Err(ParseError::Format(FormatError::Episode(ep_str.to_owned())));
        }
        let mut acc: u64 = 0;
        let mut j = start;
        while j < n
            invariant
                start <= j <= n,
                n == ep_str@.len(),
                start == 1 ==> ep_str@[0] == '-',
                digits == ep_str@.skip(start as int),
                all_digits(ep_str@.subrange(start as int, j as int)),
                acc == dec_val(ep_str@.subrange(start as int, j as int)),
                acc <= 0x8000_0000u64,
            decreases n - j,
        {
            let c = ep_str.get_char(j);
            if !('0' <= c && c <= '9') {
                proof {
                    assert(!all_digits(digits)) by {
                        assert(digits[j - start] == ep_str@[j as int]);
                    }
                }
                return Err(ParseError::Format(FormatError::Episode(ep_str.to_owned())));
            }
            let d = (c as u32 - '0' as u32) as u64;
            let next = acc * 10 + d;
            proof {
                let pre = ep_str@.subrange(start as int, j as int);
                let cur = ep_str@.subrange(start as int, j + 1);
                assert(cur.drop_last() =~= pre);
                assert(cur.last() == ep_str@[j as int]);
                assert(all_digits(cur)) by {
                    assert(forall|k: int| 0 <= k < pre.len() ==> cur[k] == pre[k]);
                }
            }
            if next > 0x8000_0000u64 {
                proof {
                    if start == 0 {
                        assert(digits =~= ep_str@);
                    }
                    if episode_num_shape(ep_str@) {
                        let cur = ep_str@.subrange(start as int, j + 1);
                        assert(digits.take(j + 1 - start) =~= cur);
                        lemma_dec_val_prefix_le(digits, j + 1 - start, digits.len() as int);
                        assert(digits.take(digits.len() as int) =~= digits);
                        assert(dec_val(digits) >= next);
                    }
                }
                return Err(ParseError::Format(FormatError::Episode(ep_str.to_owned())));
            }
            acc = next;
            j = j + 1;
        }
        proof {
            assert(ep_str@.subrange(start as int, n as int) =~= digits);
            if start == 0 {
                assert(digits =~= ep_str@);
            }
            assert(episode_num_shape(ep_str@));
        }
        if neg {
            if acc == 0x8000_0000u64 {
                Ok(Episode { number: i32::MIN })
            } else {
                Ok(Episode { number: -((acc as u32) as i32) })
            }
        } else {
            if acc > i32::MAX as u64 {
                return Err(ParseError::Format(FormatError::Episode(ep_str.to_owned())));
            }
            Ok(Episode { number: acc as i32 })
        }
    }
}

/// The textual form of a co-watcher group: wrapped in one brace pair.
pub open spec fn company_shape(s: Seq<char>) -> bool {
    s.len() >= 2 && s[0] == '{' && s[s.len() - 1] == '}'
}

/// The names inside a group's braces: the comma-separated pieces,
/// each trimmed of surrounding whitespace, with empty pieces dropped.
pub open spec fn split_names(s: Seq<char>) -> Seq<Seq<char>>
    decreases s.len()
        via split_names_dec
{
    let c = find_char(s, ',', 0);
    if c >= s.len() {
        if trim(s).len() == 0 {
            Seq::empty()
        } else {
            seq![trim(s)]
        }
    } else {
        let head = trim(s.take(c));
        let rest = split_names(s.skip(c + 1));
        if head.len() == 0 {
            rest
        } else {
            seq![head] + rest
        }
    }
}

#[via_fn]
proof fn split_names_dec(s: Seq<char>) {
    crate::text::lemma_find_char(s, ',', 0);
}

/// The co-watchers named on a session line, in source order, not
/// deduplicated.
#[derive(Debug, PartialEq, Eq)]
pub struct Company {
    pub names: Vec<String>,
}

impl Clone for Company {
    /// Cloning keeps the names.
    fn clone(&self) -> (res: Self)
        ensures
            res@ == self@,
    {
        let res = Company { names: self.names.clone() };
        proof {
            assert(res.names@ =~= self.names@);
            assert(res@ =~= self@);
        }
        res
    }
}

impl View for Company {
    type V = Seq<Seq<char>>;

    open spec fn view(&self) -> Seq<Seq<char>> {
        self.names@.map_values(|n: String| n@)
    }
}

impl Company {
    /// Parses a brace-wrapped, comma-separated group of names. Each
    /// name is trimmed of surrounding whitespace; empty entries (and so
    /// a trailing comma, or the empty group `{}`) are dropped.
    pub fn from_str(company_str: &str) -> (r: Result<Company, ParseError>)
        ensures
            match r {
                Ok(c) => company_shape(company_str@) && c@ == split_names(
                    company_str@.subrange(1, company_str@.len() - 1),
                ),
                Err(e) => !company_shape(company_str@) && (e matches ParseError::Format(
                    FormatError::Company(t),
                ) && t@ == company_str@),
            },
    {
        let n = company_str.unicode_len();
        if n < 2 || company_str.get_char(0) != '{' || company_str.get_char(n - 1) != '}' {
            return Err(ParseError::Format(FormatError::Company(company_str.to_owned())));
        }
        let ghost interior = company_str@.subrange(1, n - 1);
        let hi = n - 1;
        let mut names: Vec<String> = Vec::new();
        let mut pos: usize = 1;
        proof {
            assert(interior.skip(1 - 1) =~= interior);
            assert(names@.map_values(|nm: String| nm@) + split_names(interior) =~= split_names(
                interior,
            ));
        }
        #[verifier::loop_isolation(true)]
        loop
            invariant_except_break
                split_names(interior) == names@.map_values(|nm: String| nm@) + split_names(
                    interior.skip(pos - 1),
                ),
            invariant
                1 <= pos <= hi,
                hi == n - 1,
                n == company_str@.len(),
                interior == company_str@.subrange(1, n - 1),
            ensures
                split_names(interior) == names@.map_values(|nm: String| nm@),
            decreases hi - pos,
        {
            let ghost tail = interior.skip(pos - 1);
            let c = scan_to_char(company_str, ',', pos, hi);
            proof {
                assert(tail =~= company_str@.subrange(pos as int, hi as int));
                assert forall|k: int| 0 <= k < c - pos implies tail[k] != ',' by {
                    assert(tail[k] == company_str@[k + pos]);
                }
                if c < hi {
                    assert(tail[c - pos] == company_str@[c as int]);
                }
                lemma_find_char_unique(tail, ',', 0, c - pos);
            }
            let b = scan_trim_end(company_str, pos, c);
            let mut a = pos;
            #[verifier::loop_isolation(true)]
            loop
                invariant
                    pos <= a <= b <= n,
                    n == company_str@.len(),
                    forall|k: int| pos <= k < a ==> crate::text::is_wspace(company_str@[k]),
                ensures
                    pos <= a <= b,
                    forall|k: int| pos <= k < a ==> crate::text::is_wspace(company_str@[k]),
                    a < b ==> !crate::text::is_wspace(company_str@[a as int]),
                decreases b - a,
            {
                if a == b {
                    break;
                }
                let ch = company_str.get_char(a);
                if !(ch == ' ' || ch == '\t' || ch == '\n' || ch == '\r' || ch == '\u{000B}' || ch
                    == '\u{000C}') {
                    break;
                }
                a = a + 1;
            }
            let ghost head = trim(tail.take(c - pos));
            proof {
                lemma_trim_subrange(company_str@, pos as int, a as int, b as int, c as int);
                assert(tail.take(c - pos) =~= company_str@.subrange(pos as int, c as int));
                assert(head == company_str@.subrange(a as int, b as int));
            }
            if a < b {
                let piece = company_str.substring_char(a, b);
                let name = piece.to_owned();
                let ghost prev = names@;
                names.push(name);
                proof {
                    assert(names@.map_values(|nm: String| nm@) =~= prev.map_values(
                        |nm: String| nm@,
                    ) + seq![head]);
                }
            }
            if c == hi {
                proof {
                    assert(tail.take(c - pos) =~= tail);
                    if head.len() == 0 {
                        assert(a == b);
                        assert(split_names(tail) =~= Seq::<Seq<char>>::empty());
                    } else {
                        assert(split_names(tail) =~= seq![head]);
                    }
                    assert(split_names(interior) =~= names@.map_values(|nm: String| nm@));
                }
                break;
            }
            proof {
                assert(tail.skip(c - pos + 1) =~= interior.skip(c + 1 - 1));
                let rest = split_names(tail.skip(c - pos + 1));
                if head.len() == 0 {
                    assert(a == b);
                    assert(split_names(tail) == rest);
                } else {
                    assert(split_names(tail) == seq![head] + rest);
                }
                assert(names@.map_values(|nm: String| nm@) + split_names(interior.skip(c + 1 - 1))
                    =~= split_names(interior));
            }
            pos = c + 1;
        }
        Ok(Company { names })
    }

    /// The parsed names, in source order.
    pub fn iter(&self) -> (r: &Vec<String>)
        ensures
            r == &self.names,
    {
        &self.names
    }
}

/// Two optional co-watcher groups that carry the same names.
pub open spec fn company_equiv(a: Option<Company>, b: Option<Company>) -> bool {
    match (a, b) {
        (Option::None, Option::None) => true,
        (Option::Some(x), Option::Some(y)) => x@ == y@,
        _ => false,
    }
}

/// Two entries that agree on every observable field; companies are
/// compared by the names they carry.
pub open spec fn entry_equiv(a: WatchEntry, b: WatchEntry) -> bool {
    &&& a.anime_id == b.anime_id
    &&& a.start_time == b.start_time
    &&& a.end_time == b.end_time
    &&& a.episode == b.episode
    &&& company_equiv(a.company, b.company)
}

/// One contiguous watching interval: a show, a resolved start and end
/// timestamp, the episode, and the optional co-watchers.
#[derive(Debug, PartialEq, Eq)]
pub struct WatchEntry {
    pub anime_id: usize,
    pub start_time: DateTime,
    pub end_time: DateTime,
    pub episode: Episode,
    pub company: Option<Company>,
}

impl Clone for WatchEntry {
    /// Cloning keeps every field; the company keeps its names.
    fn clone(&self) -> (res: Self)
        ensures
            entry_equiv(res, *self),
    {
        WatchEntry {
            anime_id: self.anime_id,
            start_time: self.start_time,
            end_time: self.end_time,
            episode: self.episode,
            company: match &self.company {
                Some(c) => Some(c.clone()),
                None => None,
            },
        }
    }
}

/// A well-formed entry: both timestamps are calendar-valid and the
/// interval does not run backwards.
pub open spec fn entry_wf(e: WatchEntry) -> bool {
    dt_wf(e.start_time) && dt_wf(e.end_time) && dt_le(e.start_time, e.end_time)
}

impl WatchEntry {
    /// Builds an entry; the interval must not run backwards.
    pub fn new(
        anime_id: usize,
        start_time: DateTime,
        end_time: DateTime,
        episode: Episode,
        company: Option<Company>,
    ) -> (r: WatchEntry)
        requires
            dt_wf(start_time),
            dt_wf(end_time),
            dt_le(start_time, end_time),
        ensures
            r == (WatchEntry { anime_id, start_time, end_time, episode, company }),
            entry_wf(r),
    {
        WatchEntry { anime_id, start_time, end_time, episode, company }
    }
}

} // verus!
