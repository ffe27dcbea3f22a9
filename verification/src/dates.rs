//! Calendar dates as the library stores them: `YYYY-MM-DD` text, read
//! through chrono, and counted as day numbers.

use vstd::prelude::*;

verus! {

/// The day number (1 January of year 1 is day 1) of the calendar date that
/// chrono reads from `s` with the format `%Y-%m-%d`; `None` when chrono
/// rejects the text.
pub uninterp spec fn ymd_days(s: Seq<char>) -> Option<int>;

/// `NaiveDate::parse_from_str(s, "%Y-%m-%d")` followed by
/// `Datelike::num_days_from_ce`: the result is exactly the named
/// `ymd_days(s)`; nothing more is stated of chrono's parser.
#[verifier::external_body]
fn parse_ymd(s: &str) -> (r: Option<i32>)
    ensures
        match r {
            Some(d) => ymd_days(s@) == Some(d as int),
            None => ymd_days(s@).is_none(),
        },
{
    match chrono::NaiveDate::parse_from_str(s, "%Y-%m-%d") {
        Ok(d) => Some(chrono::Datelike::num_days_from_ce(&d)),
        Err(_) => None,
    }
}

/// The day number of a `YYYY-MM-DD` date, if it is one.
pub fn day_number(s: &str) -> (r: Option<i32>)
    ensures
        match r {
            Some(d) => ymd_days(s@) == Some(d as int),
            None => ymd_days(s@).is_none(),
        },
{
    parse_ymd(s)
}

/// Bytes that `c` takes in UTF-8.
pub open spec fn char_width(c: char) -> nat {
    let u = c as u32;
    if u < 0x80 {
        1
    } else if u < 0x800 {
        2
    } else if u < 0x10000 {
        3
    } else {
        4
    }
}

/// Bytes that `s` takes in UTF-8.
pub open spec fn utf8_len(s: Seq<char>) -> nat
    decreases s.len(),
{
    if s.len() == 0 { 0 } else { utf8_len(s.drop_last()) + char_width(s.last()) }
}

/// The number of leading characters of `s` that fit in `budget` bytes.
pub open spec fn chars_within(s: Seq<char>, budget: nat) -> nat
    decreases s.len(),
{
    if s.len() == 0 {
        0
    } else if char_width(s[0]) <= budget {
        1 + chars_within(s.drop_first(), (budget - char_width(s[0])) as nat)
    } else {
        0
    }
}

/// Whether cutting `s` after `n` bytes falls between characters (or `s` is
/// no longer than that) — when slicing `&s[..n]` does not panic.
pub open spec fn cut_fits(s: Seq<char>, n: nat) -> bool {
    utf8_len(s) <= n || utf8_len(s.take(chars_within(s, n) as int)) == n
}

/// The date part of a stored timestamp: its first ten bytes
/// (`&s[..s.len().min(10)]`).
pub open spec fn date_prefix(s: Seq<char>) -> Seq<char> {
    s.take(chars_within(s, 10) as int)
}

proof fn lemma_utf8_len_prefix(s: Seq<char>, k: int)
    requires
        0 <= k < s.len(),
    ensures
        utf8_len(s.take(k + 1)) == utf8_len(s.take(k)) + char_width(s[k]),
{
    assert(s.take(k + 1).drop_last() =~= s.take(k));
}

proof fn lemma_chars_within(s: Seq<char>, budget: nat, k: int, used: nat)
    requires
        0 <= k <= s.len(),
        used == utf8_len(s.take(k)),
        used <= budget,
    ensures
        chars_within(s, budget) == k + chars_within(s.skip(k), (budget - used) as nat),
    decreases k,
{
    if k > 0 {
        let t = s.drop_first();
        assert(s.take(k) =~= seq![s[0]] + t.take(k - 1));
        lemma_utf8_len_front(s.take(k));
        assert(s.take(k).drop_first() =~= t.take(k - 1));
        assert(s.take(k)[0] == s[0]);
        lemma_chars_within(t, (budget - char_width(s[0])) as nat, k - 1, (used - char_width(s[0])) as nat);
        assert(t.skip(k - 1) =~= s.skip(k));
    } else {
        assert(s.skip(0) =~= s);
    }
}

proof fn lemma_utf8_len_front(s: Seq<char>)
    requires
        s.len() > 0,
    ensures
        utf8_len(s) == char_width(s[0]) + utf8_len(s.drop_first()),
    decreases s.len(),
{
    if s.len() > 1 {
        lemma_utf8_len_front(s.drop_last());
        assert(s.drop_last().drop_first() =~= s.drop_first().drop_last());
        assert(s.drop_first().last() == s.last());
        assert(s.drop_last()[0] == s[0]);
        assert(utf8_len(s.drop_first()) == utf8_len(s.drop_first().drop_last()) + char_width(s.drop_first().last()));
    } else {
        assert(s.drop_first().len() == 0);
        assert(utf8_len(s.drop_first()) == 0);
        assert(utf8_len(s.drop_last()) == 0);
    }
}

/// `&s[..s.len().min(10)]`: the first ten bytes of a stored timestamp.
pub fn date_part(s: &str) -> (r: String)
    requires
        cut_fits(s@, 10),
    ensures
        r@ == date_prefix(s@),
{
    byte_prefix(s, 10)
}

/// `&s[..s.len().min(limit)]`: the longest prefix of `s` within `limit`
/// bytes, which is cut between characters.
pub fn byte_prefix(s: &str, limit: usize) -> (r: String)
    requires
        cut_fits(s@, limit as nat),
    ensures
        r@ == s@.take(chars_within(s@, limit as nat) as int),
{
    let n = s.unicode_len();
    let mut k: usize = 0;
    let mut used: usize = 0;
    while k < n && char_width_exec(s.get_char(k)) <= limit - used
        invariant
            n == s@.len(),
            k <= n,
            used == utf8_len(s@.take(k as int)),
            used <= limit,
        decreases n - k,
    {
        proof {
            lemma_utf8_len_prefix(s@, k as int);
        }
        used = used + char_width_exec(s.get_char(k));
        k = k + 1;
    }
    proof {
        lemma_chars_within(s@, limit as nat, k as int, used as nat);
        let rest = s@.skip(k as int);
        if k < n {
            assert(rest[0] == s@[k as int]);
            assert(chars_within(rest, (limit - used) as nat) == 0);
        } else {
            assert(rest.len() == 0);
        }
    }
    s.substring_char(0, k).to_string()
}

/// The UTF-8 length of `s` in bytes (`str::len`).
pub fn utf8_length(s: &str) -> (n: u128)
    ensures
        n == utf8_len(s@),
{
    let m = s.unicode_len();
    let mut k: usize = 0;
    let mut used: u128 = 0;
    while k < m
        invariant
            m == s@.len(),
            k <= m,
            used == utf8_len(s@.take(k as int)),
            used <= 4 * k,
        decreases m - k,
    {
        proof {
            lemma_utf8_len_prefix(s@, k as int);
        }
        used = used + char_width_exec(s.get_char(k)) as u128;
        k = k + 1;
    }
    assert(s@.take(m as int) =~= s@);
    used
}

/// Executable `char_width`.
pub fn char_width_exec(c: char) -> (w: usize)
    ensures
        w == char_width(c),
{
    let u = c as u32;
    if u < 0x80 {
        1
    } else if u < 0x800 {
        2
    } else if u < 0x10000 {
        3
    } else {
        4
    }
}

/// Days from the stored date `added_at` to day `today`, never negative;
/// `i64::MAX` when the date cannot be read.
pub open spec fn days_since_spec(added_at: Seq<char>, today: int) -> int {
    match ymd_days(date_prefix(added_at)) {
        Some(d) => if today - d > 0 { today - d } else { 0 },
        None => i64::MAX as int,
    }
}

/// How many days ago a game was added (today given as a day number).
pub fn days_since(added_at: &str, today: i32) -> (r: i64)
    requires
        cut_fits(added_at@, 10),
    ensures
        r == days_since_spec(added_at@, today as int),
{
    let part = date_part(added_at);
    match parse_ymd(part.as_str()) {
        Some(d) => {
            let diff = today as i64 - d as i64;
            if diff > 0 { diff } else { 0 }
        },
        None => i64::MAX,
    }
}

/// The instant chrono reads from an RFC 3339 timestamp, as Unix seconds and
/// the nanoseconds past that second; `None` when chrono rejects the text.
pub uninterp spec fn rfc3339_instant(s: Seq<char>) -> Option<(int, int)>;

/// `DateTime::parse_from_rfc3339(s)` followed by `timestamp()` and
/// `timestamp_subsec_nanos()`: the result is exactly the named
/// `rfc3339_instant(s)`; nothing more is stated of chrono's parser.
#[verifier::external_body]
fn parse_rfc3339(s: &str) -> (r: Option<(i64, u32)>)
    ensures
        match r {
            Some(v) => rfc3339_instant(s@) == Some((v.0 as int, v.1 as int)),
            None => rfc3339_instant(s@).is_none(),
        },
{
    match chrono::DateTime::parse_from_rfc3339(s) {
        Ok(d) => Some((d.timestamp(), d.timestamp_subsec_nanos())),
        Err(_) => None,
    }
}

/// An RFC 3339 timestamp as Unix seconds and nanoseconds, if it is one.
pub fn instant_of(s: &str) -> (r: Option<(i64, u32)>)
    ensures
        match r {
            Some(v) => rfc3339_instant(s@) == Some((v.0 as int, v.1 as int)),
            None => rfc3339_instant(s@).is_none(),
        },
{
    parse_rfc3339(s)
}

/// Whole hours from instant `a` to instant `b` (each Unix seconds and
/// nanoseconds), rounded toward zero as `TimeDelta::num_hours` does.
pub open spec fn whole_hours(a: (int, int), b: (int, int)) -> int {
    let ns = (b.0 * 1_000_000_000 + b.1) - (a.0 * 1_000_000_000 + a.1);
    let secs = if ns >= 0 { ns / 1_000_000_000 } else { -((-ns) / 1_000_000_000) };
    if secs >= 0 { secs / 3600 } else { -((-secs) / 3600) }
}

/// Executable `whole_hours`.
pub fn hours_between(a: (i64, u32), b: (i64, u32)) -> (h: i64)
    ensures
        h == whole_hours((a.0 as int, a.1 as int), (b.0 as int, b.1 as int)),
{
    let ns: i128 = (b.0 as i128 * 1_000_000_000 + b.1 as i128) - (a.0 as i128 * 1_000_000_000 + a.1 as i128);
    let secs: i128 = if ns >= 0 { ns / 1_000_000_000 } else { -((-ns) / 1_000_000_000) };
    let h: i128 = if secs >= 0 { secs / 3600 } else { -((-secs) / 3600) };
    h as i64
}

} // verus!
