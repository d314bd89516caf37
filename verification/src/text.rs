//! Character classes and scanning primitives shared by the line
//! recognizers, together with the spec-level functions that the public
//! contracts are stated over.

use vstd::prelude::*;

verus! {

/// Whitespace, as the log grammar understands it: the ASCII whitespace
/// characters.
pub open spec fn is_wspace(c: char) -> bool {
    c == ' ' || c == '\t' || c == '\n' || c == '\r' || c == '\u{000B}' || c == '\u{000C}'
}

/// ASCII decimal digit.
pub open spec fn is_digit(c: char) -> bool {
    '0' <= c && c <= '9'
}

/// Numeric value of an ASCII digit.
pub open spec fn digit_val(c: char) -> int {
    c as int - '0' as int
}

/// ASCII letter or digit; a title must begin with one of these.
pub open spec fn is_alnum(c: char) -> bool {
    ('a' <= c && c <= 'z') || ('A' <= c && c <= 'Z') || is_digit(c)
}

/// Brackets and braces, the characters a title may not contain.
pub open spec fn is_delim(c: char) -> bool {
    c == '[' || c == ']' || c == '{' || c == '}'
}

/// Index of the first non-whitespace character of `s` at or after `i`
/// (`s.len()` when the rest of `s` is whitespace).
pub open spec fn ws_end(s: Seq<char>, i: int) -> int
    recommends
        0 <= i <= s.len(),
    decreases s.len() - i when 0 <= i <= s.len()
{
    if i >= s.len() {
        s.len() as int
    } else if is_wspace(s[i]) {
        ws_end(s, i + 1)
    } else {
        i
    }
}

/// The characteristic properties of `ws_end`.
pub proof fn lemma_ws_end(s: Seq<char>, i: int)
    requires
        0 <= i <= s.len(),
    ensures
        i <= ws_end(s, i) <= s.len(),
        forall|k: int| i <= k < ws_end(s, i) ==> is_wspace(s[k]),
        ws_end(s, i) < s.len() ==> !is_wspace(s[ws_end(s, i)]),
    decreases s.len() - i,
{
    if i < s.len() && is_wspace(s[i]) {
        lemma_ws_end(s, i + 1);
    }
}

/// `ws_end` is determined by its characteristic properties.
pub proof fn lemma_ws_end_unique(s: Seq<char>, i: int, r: int)
    requires
        0 <= i <= r <= s.len(),
        forall|k: int| i <= k < r ==> is_wspace(s[k]),
        r < s.len() ==> !is_wspace(s[r]),
    ensures
        ws_end(s, i) == r,
    decreases r - i,
{
    if i < r {
        lemma_ws_end_unique(s, i + 1, r);
    }
}

/// Length of `s` once trailing whitespace is removed; equivalently, one
/// past the last non-whitespace character (0 when `s` is all whitespace).
pub open spec fn trimmed_len(s: Seq<char>) -> int
    decreases s.len(),
{
    if s.len() == 0 {
        0
    } else if is_wspace(s[s.len() - 1]) {
        trimmed_len(s.drop_last())
    } else {
        s.len() as int
    }
}

/// `trimmed_len` is determined by its characteristic properties.
pub proof fn lemma_trimmed_len_unique(s: Seq<char>, t: int)
    requires
        0 <= t <= s.len(),
        forall|k: int| t <= k < s.len() ==> is_wspace(s[k]),
        t > 0 ==> !is_wspace(s[t - 1]),
    ensures
        trimmed_len(s) == t,
    decreases s.len(),
{
    if s.len() > 0 {
        if t < s.len() {
            assert(is_wspace(s[s.len() - 1]));
            assert forall|k: int| t <= k < s.drop_last().len() implies is_wspace(
                s.drop_last()[k],
            ) by {
                assert(s.drop_last()[k] == s[k]);
            }
            if t > 0 {
                assert(s.drop_last()[t - 1] == s[t - 1]);
            }
            lemma_trimmed_len_unique(s.drop_last(), t);
        }
    }
}

/// `s` with surrounding whitespace removed.
pub open spec fn trim(s: Seq<char>) -> Seq<char> {
    let t = s.take(trimmed_len(s));
    t.subrange(ws_end(t, 0), t.len() as int)
}

/// A subrange of `s` whose ends carry no whitespace is its own trim:
/// `trim(s[lo..hi]) == s[a..b]` when `[lo..a)` and `[b..hi)` are all
/// whitespace and the characters at `a` and `b - 1` are not.
pub proof fn lemma_trim_subrange(s: Seq<char>, lo: int, a: int, b: int, hi: int)
    requires
        0 <= lo <= a <= b <= hi <= s.len(),
        forall|k: int| lo <= k < a ==> is_wspace(s[k]),
        forall|k: int| b <= k < hi ==> is_wspace(s[k]),
        a < b ==> !is_wspace(s[a]) && !is_wspace(s[b - 1]),
        a == b ==> a == lo,
    ensures
        trim(s.subrange(lo, hi)) == s.subrange(a, b),
{
    let sub = s.subrange(lo, hi);
    assert forall|k: int| b - lo <= k < sub.len() implies is_wspace(sub[k]) by {
        assert(sub[k] == s[k + lo]);
    }
    if b > lo {
        assert(sub[b - lo - 1] == s[b - 1]);
    }
    if a == b {
        lemma_trimmed_len_unique(sub, 0);
        assert(sub.take(0) =~= Seq::<char>::empty());
        assert(trim(sub) =~= s.subrange(a, b));
    } else {
        lemma_trimmed_len_unique(sub, b - lo);
        let t = sub.take(b - lo);
        assert forall|k: int| 0 <= k < a - lo implies is_wspace(t[k]) by {
            assert(t[k] == s[k + lo]);
        }
        assert(t[a - lo] == s[a]);
        lemma_ws_end_unique(t, 0, a - lo);
        assert(t.subrange(a - lo, t.len() as int) =~= s.subrange(a, b));
    }
}

/// First position at or after `i` holding character `c`
/// (`s.len()` when there is none).
pub open spec fn find_char(s: Seq<char>, c: char, i: int) -> int
    recommends
        0 <= i <= s.len(),
    decreases s.len() - i when 0 <= i <= s.len()
{
    if i >= s.len() {
        s.len() as int
    } else if s[i] == c {
        i
    } else {
        find_char(s, c, i + 1)
    }
}

/// The characteristic properties of `find_char`.
pub proof fn lemma_find_char(s: Seq<char>, c: char, i: int)
    requires
        0 <= i <= s.len(),
    ensures
        i <= find_char(s, c, i) <= s.len(),
        forall|k: int| i <= k < find_char(s, c, i) ==> s[k] != c,
        find_char(s, c, i) < s.len() ==> s[find_char(s, c, i)] == c,
    decreases s.len() - i,
{
    if i < s.len() && s[i] != c {
        lemma_find_char(s, c, i + 1);
    }
}

/// `find_char` is determined by its characteristic properties.
pub proof fn lemma_find_char_unique(s: Seq<char>, c: char, i: int, r: int)
    requires
        0 <= i <= r <= s.len(),
        forall|k: int| i <= k < r ==> s[k] != c,
        r < s.len() ==> s[r] == c,
    ensures
        find_char(s, c, i) == r,
    decreases r - i,
{
    if i < r {
        lemma_find_char_unique(s, c, i + 1, r);
    }
}

/// Value of a run of decimal digits, most significant first.
pub open spec fn dec_val(s: Seq<char>) -> int
    decreases s.len(),
{
    if s.len() == 0 {
        0
    } else {
        dec_val(s.drop_last()) * 10 + digit_val(s.last())
    }
}

/// Every character of `s` is a decimal digit.
pub open spec fn all_digits(s: Seq<char>) -> bool {
    forall|k: int| 0 <= k < s.len() ==> is_digit(s[k])
}

/// A digit run has a non-negative value.
pub proof fn lemma_dec_val_nonneg(s: Seq<char>)
    requires
        all_digits(s),
    ensures
        dec_val(s) >= 0,
    decreases s.len(),
{
    if s.len() > 0 {
        assert(all_digits(s.drop_last())) by {
            assert(forall|k: int|
                0 <= k < s.len() - 1 ==> s.drop_last()[k] == s[k]);
        }
        lemma_dec_val_nonneg(s.drop_last());
    }
}

/// Extending a digit run to the right can only increase its value.
pub proof fn lemma_dec_val_prefix_le(s: Seq<char>, i: int, j: int)
    requires
        all_digits(s),
        0 <= i <= j <= s.len(),
    ensures
        dec_val(s.take(i)) <= dec_val(s.take(j)),
    decreases j - i,
{
    if i < j {
        lemma_dec_val_prefix_le(s, i, j - 1);
        let p = s.take(j - 1);
        let q = s.take(j);
        assert(q.drop_last() =~= p);
        assert(all_digits(p)) by {
            assert(forall|k: int| 0 <= k < p.len() ==> p[k] == s[k]);
        }
        lemma_dec_val_nonneg(p);
        assert(is_digit(q.last()));
    }
}

/// Prepending the digit `0` leaves the value of a digit run unchanged.
pub proof fn lemma_dec_val_leading_zero(s: Seq<char>)
    ensures
        dec_val(seq!['0'] + s) == dec_val(s),
    decreases s.len(),
{
    let z = seq!['0'] + s;
    if s.len() == 0 {
        assert(z.len() == 1);
        assert(z.drop_last() =~= Seq::<char>::empty());
        assert(z.last() == '0');
        assert(dec_val(z) == dec_val(z.drop_last()) * 10 + digit_val(z.last()));
        assert(dec_val(z.drop_last()) == 0);
        assert(digit_val('0') == 0);
    } else {
        lemma_dec_val_leading_zero(s.drop_last());
        assert(z.drop_last() =~= seq!['0'] + s.drop_last());
        assert(z.last() == s.last());
        assert(dec_val(z) == dec_val(z.drop_last()) * 10 + digit_val(z.last()));
        assert(dec_val(s) == dec_val(s.drop_last()) * 10 + digit_val(s.last()));
    }
}

/// First non-whitespace position at or after `i`, computed over `s`.
pub fn scan_ws(s: &str, i: usize) -> (r: usize)
    requires
        i <= s@.len(),
    ensures
        r == ws_end(s@, i as int),
        i <= r <= s@.len(),
{
    let n = s.unicode_len();
    let mut j = i;
    loop
        invariant
            i <= j <= n,
            ws_end(s@, i as int) == ws_end(s@, j as int),
        decreases n - j,
    {
        if j == n {
            break;
        }
        let c = s.get_char(j);
        if !(c == ' ' || c == '\t' || c == '\n' || c == '\r' || c == '\u{000B}' || c
            == '\u{000C}') {
            break;
        }
        j = j + 1;
    }
    j
}

/// First position of `c` at or after `i` but before `hi`, or `hi`.
pub fn scan_to_char(s: &str, c: char, i: usize, hi: usize) -> (r: usize)
    requires
        i <= hi <= s@.len(),
    ensures
        i <= r <= hi,
        forall|k: int| i <= k < r ==> s@[k] != c,
        r < hi ==> s@[r as int] == c,
{
    let mut j = i;
    loop
        invariant
            i <= j <= hi,
            forall|k: int| i <= k < j ==> s@[k] != c,
        decreases hi - j,
    {
        if j == hi {
            break;
        }
        if s.get_char(j) == c {
            break;
        }
        j = j + 1;
    }
    j
}

/// One past the last non-whitespace character of `s` before `hi`,
/// leaving at least `lo`; matches `trimmed_len` on `s[lo..hi]`.
pub fn scan_trim_end(s: &str, lo: usize, hi: usize) -> (r: usize)
    requires
        lo <= hi <= s@.len(),
    ensures
        lo <= r <= hi,
        r - lo == trimmed_len(s@.subrange(lo as int, hi as int)),
        forall|k: int| r <= k < hi ==> is_wspace(s@[k]),
        r > lo ==> !is_wspace(s@[r - 1]),
{
    let mut j = hi;
    loop
        invariant
            lo <= j <= hi,
            forall|k: int| j <= k < hi ==> is_wspace(s@[k]),
        decreases j,
    {
        if j == lo {
            break;
        }
        let c = s.get_char(j - 1);
        if !(c == ' ' || c == '\t' || c == '\n' || c == '\r' || c == '\u{000B}' || c
            == '\u{000C}') {
            break;
        }
        j = j - 1;
    }
    proof {
        let sub = s@.subrange(lo as int, hi as int);
        assert forall|k: int| j - lo <= k < sub.len() implies is_wspace(sub[k]) by {
            assert(sub[k] == s@[k + lo]);
        }
        if j > lo {
            assert(sub[j - lo - 1] == s@[j - 1]);
        }
        lemma_trimmed_len_unique(sub, j - lo);
    }
    j
}

/// Reads the two-digit number at positions `i`, `i + 1`.
pub fn read_two_digits(s: &str, i: usize) -> (r: u32)
    requires
        i + 2 <= s@.len(),
        is_digit(s@[i as int]),
        is_digit(s@[i as int + 1]),
    ensures
        r == 10 * digit_val(s@[i as int]) + digit_val(s@[i as int + 1]),
        r <= 99,
{
    let n = s.unicode_len();
    let c0 = s.get_char(i);
    let c1 = s.get_char(i + 1);
    let d0 = c0 as u32 - '0' as u32;
    let d1 = c1 as u32 - '0' as u32;
    10 * d0 + d1
}

/// True when the characters of `a` and `b` agree.
pub fn str_eq(a: &str, b: &str) -> (r: bool)
    ensures
        r == (a@ == b@),
{
    let na = a.unicode_len();
    let nb = b.unicode_len();
    if na != nb {
        return false;
    }
    let mut j: usize = 0;
    loop
        invariant
            j <= na,
            na == a@.len() == b@.len(),
            forall|k: int| 0 <= k < j ==> a@[k] == b@[k],
        decreases na - j,
    {
        if j == na {
            break;
        }
        if a.get_char(j) != b.get_char(j) {
            return false;
        }
        j = j + 1;
    }
    proof {
        assert(a@ =~= b@);
    }
    true
}

} // verus!
