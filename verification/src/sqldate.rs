//! The month SQLite's `strftime('%m', t)` reads from a stored timestamp
//! text: the accepted forms (`YYYY-MM-DD`, an optional time `HH:MM[:SS[.F…]]`
//! after spaces or `T`, an optional zone `Z` or `±HH:MM`, a time alone) and
//! the calendar arithmetic on Julian day milliseconds.

use vstd::prelude::*;

verus! {

/// The character at `i`, or NUL past the end (where the text ends for C).
pub open spec fn ch(t: Seq<char>, i: int) -> char {
    if 0 <= i < t.len() { t[i] } else { '\0' }
}

/// An ASCII digit.
pub open spec fn is_dig(c: char) -> bool {
    '0' <= c && c <= '9'
}

/// A digit's value.
pub open spec fn dval(c: char) -> int {
    c as int - '0' as int
}

/// The two digits at `i` as a number.
pub open spec fn two(t: Seq<char>, i: int) -> int {
    10 * dval(ch(t, i)) + dval(ch(t, i + 1))
}

/// Two digits at `i` reading as a number in `lo..=hi`.
pub open spec fn two_in(t: Seq<char>, i: int, lo: int, hi: int) -> bool {
    is_dig(ch(t, i)) && is_dig(ch(t, i + 1)) && lo <= two(t, i) <= hi
}

/// SQLite's white space: space and `\t \n \v \f \r`.
pub open spec fn is_space(c: char) -> bool {
    c == ' ' || ('\t' <= c && c <= '\r')
}

/// The first position from `i` on that is not white space.
pub open spec fn skip_spaces(t: Seq<char>, i: int) -> int
    decreases t.len() - i,
{
    if 0 <= i < t.len() && is_space(t[i]) { skip_spaces(t, i + 1) } else { i }
}

/// The first position from `i` on that is neither white space nor `T`.
pub open spec fn skip_spaces_t(t: Seq<char>, i: int) -> int
    decreases t.len() - i,
{
    if 0 <= i < t.len() && (is_space(t[i]) || t[i] == 'T') { skip_spaces_t(t, i + 1) } else { i }
}

/// The first position from `i` on that is not a digit.
pub open spec fn skip_digits(t: Seq<char>, i: int) -> int
    decreases t.len() - i,
{
    if 0 <= i < t.len() && is_dig(t[i]) { skip_digits(t, i + 1) } else { i }
}

/// A digit of the run from `f` up to `e`, 0 past the run.
pub open spec fn run_digit(t: Seq<char>, p: int, e: int) -> int {
    if p < e { dval(ch(t, p)) } else { 0 }
}

/// The zone from `i`: spaces, then `Z`/`z` or `±HH:MM` (hours up to 14),
/// spaces, and the end; its offset in minutes (0 without a zone).
pub open spec fn zone_at(t: Seq<char>, i: int) -> Option<int> {
    let j = skip_spaces(t, i);
    let c = ch(t, j);
    if c == '-' || c == '+' {
        if two_in(t, j + 1, 0, 14) && ch(t, j + 3) == ':' && two_in(t, j + 4, 0, 59) && ch(t, skip_spaces(t, j + 6))
            == '\0' {
            let mins = two(t, j + 4) + 60 * two(t, j + 1);
            Some(if c == '-' { -mins } else { mins })
        } else {
            None
        }
    } else if c == 'Z' || c == 'z' {
        if ch(t, skip_spaces(t, j + 1)) == '\0' { Some(0) } else { None }
    } else if c == '\0' {
        Some(0)
    } else {
        None
    }
}

/// The time of day from `i` — `HH:MM` (hours up to 24), optionally `:SS`
/// and a fraction, then the zone — as milliseconds into the day (the
/// fraction rounded to whole milliseconds, half up) and the zone offset.
pub open spec fn time_at(t: Seq<char>, i: int) -> Option<(int, int)> {
    if two_in(t, i, 0, 24) && ch(t, i + 2) == ':' && two_in(t, i + 3, 0, 59) {
        let base = 3600000 * two(t, i) + 60000 * two(t, i + 3);
        let j = i + 5;
        if ch(t, j) == ':' {
            if two_in(t, j + 1, 0, 59) {
                let k = j + 3;
                let secs = 1000 * two(t, j + 1);
                if ch(t, k) == '.' && is_dig(ch(t, k + 1)) {
                    let f = k + 1;
                    let e = skip_digits(t, f);
                    let ms = 100 * run_digit(t, f, e) + 10 * run_digit(t, f + 1, e) + run_digit(t, f + 2, e) + if run_digit(
                        t,
                        f + 3,
                        e,
                    ) >= 5 {
                        1int
                    } else {
                        0int
                    };
                    match zone_at(t, e) {
                        Some(z) => Some((base + secs + ms, z)),
                        None => None,
                    }
                } else {
                    match zone_at(t, k) {
                        Some(z) => Some((base + secs, z)),
                        None => None,
                    }
                }
            } else {
                None
            }
        } else {
            match zone_at(t, j) {
                Some(z) => Some((base, z)),
                None => None,
            }
        }
    } else {
        None
    }
}

/// The four digits at `i` as a number.
pub open spec fn four(t: Seq<char>, i: int) -> int {
    1000 * dval(ch(t, i)) + 100 * dval(ch(t, i + 1)) + 10 * dval(ch(t, i + 2)) + dval(ch(t, i + 3))
}

/// A date `[-]YYYY-MM-DD` (month 1–12, day 1–31), then spaces or `T`, then
/// a time or the end: year, month, day and the time if any.
pub open spec fn date_at(t: Seq<char>) -> Option<(int, int, int, Option<(int, int)>)> {
    let b: int = if ch(t, 0) == '-' { 1 } else { 0 };
    if is_dig(ch(t, b)) && is_dig(ch(t, b + 1)) && is_dig(ch(t, b + 2)) && is_dig(ch(t, b + 3)) && ch(t, b + 4) == '-'
        && two_in(t, b + 5, 1, 12) && ch(t, b + 7) == '-' && two_in(t, b + 8, 1, 31) {
        let y = if b == 1 { -four(t, b) } else { four(t, b) };
        let j = skip_spaces_t(t, b + 10);
        match time_at(t, j) {
            Some(tm) => Some((y, two(t, b + 5), two(t, b + 8), Some(tm))),
            None => if ch(t, j) == '\0' { Some((y, two(t, b + 5), two(t, b + 8), None)) } else { None },
        }
    } else {
        None
    }
}

/// Division rounding toward zero, as C divides (`b > 0`).
pub open spec fn tdiv(a: int, b: int) -> int {
    if a >= 0 { a / b } else { -((-a) / b) }
}

/// The largest Julian day SQLite accepts, in milliseconds.
pub const MAX_JULIAN_MS: i64 = 464269060799999;

/// SQLite's Julian day in milliseconds of a date, a time in milliseconds
/// into the day and a zone offset in minutes (Meeus' formula, Gregorian).
pub open spec fn julian_ms(y: int, m: int, d: int, ms: int, tz: int) -> int {
    let yy = if m <= 2 { y - 1 } else { y };
    let mm = if m <= 2 { m + 12 } else { m };
    let a = tdiv(yy, 100);
    let b = 2 - a + tdiv(a, 4);
    let x1 = tdiv(36525 * (yy + 4716), 100);
    let x2 = tdiv(306001 * (mm + 1), 10000);
    (x1 + x2 + d + b) * 86400000 - 131716800000 + ms - tz * 60000
}

/// The month of a Julian day in milliseconds, as SQLite computes it.
pub open spec fn month_of_julian(j: int) -> int {
    let z = (j + 43200000) / 86400000;
    let a0 = tdiv(4 * z - 7468865, 146097);
    let a = z + 1 + a0 - tdiv(a0, 4);
    let b = a + 1524;
    let c = tdiv(20 * b - 2442, 7305);
    let d = tdiv(36525 * (c % 32768), 100);
    let e = tdiv(10000 * (b - d), 306001);
    if e < 14 { e - 1 } else { e - 13 }
}

/// SQLite's month of a valid Julian day lies in 1..=12.
proof fn lemma_month_of_julian_range(j: int)
    requires
        0 <= j <= MAX_JULIAN_MS,
    ensures
        1 <= month_of_julian(j) <= 12,
{
    let z = (j + 43200000) / 86400000;
    assert(0 <= z <= 5373485);
    let a0 = tdiv(4 * z - 7468865, 146097);
    assert(-52 <= a0 <= 100);
    let a = z + 1 + a0 - tdiv(a0, 4);
    let b = a + 1524;
    assert(1400 <= b <= 5375200);
    let c = tdiv(20 * b - 2442, 7305);
    assert(20 * b - 2442 > 0);
    assert(7305 * c <= 20 * b - 2442 < 7305 * c + 7305);
    assert(0 <= c < 32768);
    assert(c % 32768 == c);
    let d = tdiv(36525 * (c % 32768), 100);
    assert(100 * d <= 36525 * c < 100 * d + 100);
    assert(123 <= b - d <= 488);
    let e = tdiv(10000 * (b - d), 306001);
    assert(4 <= e <= 15);
}

/// The month `strftime('%m', t)` gives for a text `t`, or `None` where it
/// gives NULL: the date's own month when it has no zone and a day up to 28,
/// else the month of the normalized instant (an over-long day, an hour 24
/// or a zone offset can move it); a time alone counts from 2000-01-01.
/// (`now` and bare numbers, which SQLite also reads, are not covered: no
/// text in a year's range has those forms.)
#[verifier::opaque]
pub open spec fn sqlite_month(t: Seq<char>) -> Option<int> {
    match date_at(t) {
        Some((y, m, d, tm)) => {
            let ms = match tm { Some(x) => x.0, None => 0 };
            let tz = match tm { Some(x) => x.1, None => 0 };
            if y < -4713 {
                None
            } else {
                let j = julian_ms(y, m, d, ms, tz);
                if j < 0 || j > MAX_JULIAN_MS {
                    None
                } else if tz != 0 || d > 28 {
                    Some(month_of_julian(j))
                } else {
                    Some(m)
                }
            }
        },
        None => match time_at(t, 0) {
            Some((ms, tz)) => {
                let j = julian_ms(2000, 1, 1, ms, tz);
                if j < 0 || j > MAX_JULIAN_MS { None } else { Some(month_of_julian(j)) }
            },
            None => None,
        },
    }
}

// ── Executable reading ──────────────────────────────────────────────────────

/// The character at `i + k`, NUL past the end.
fn at(t: &str, n: usize, i: usize, k: usize) -> (c: char)
    requires
        n == t@.len(),
    ensures
        c == ch(t@, i + k),
{
    if i < n && k < n - i {
        t.get_char(i + k)
    } else {
        '\0'
    }
}

fn is_dig_x(c: char) -> (b: bool)
    ensures
        b == is_dig(c),
{
    '0' <= c && c <= '9'
}

fn is_space_x(c: char) -> (b: bool)
    ensures
        b == is_space(c),
{
    c == ' ' || ('\t' <= c && c <= '\r')
}

fn dval_x(c: char) -> (v: i64)
    requires
        is_dig(c),
    ensures
        v == dval(c),
        0 <= v <= 9,
{
    c as i64 - '0' as i64
}

/// The two digits at `i + k`, when both are digits.
fn two_x(t: &str, n: usize, i: usize, k: usize) -> (r: Option<i64>)
    requires
        n == t@.len(),
    ensures
        r is Some <==> (is_dig(ch(t@, i + k)) && is_dig(ch(t@, i + k + 1))),
        r matches Some(v) ==> v == two(t@, i + k) && 0 <= v <= 99,
{
    let a = at(t, n, i, k);
    if !is_dig_x(a) {
        return None;
    }
    if k == usize::MAX {
        assert(ch(t@, i + k + 1) == '\0');
        return None;
    }
    let b = at(t, n, i, k + 1);
    if !is_dig_x(b) {
        return None;
    }
    Some(10 * dval_x(a) + dval_x(b))
}

fn skip_spaces_x(t: &str, n: usize, i: usize) -> (r: usize)
    requires
        n == t@.len(),
    ensures
        r == skip_spaces(t@, i as int),
        r >= i,
{
    let mut j = i;
    while j < n
        invariant
            n == t@.len(),
            i <= j,
            skip_spaces(t@, j as int) == skip_spaces(t@, i as int),
        ensures
            i <= j,
            skip_spaces(t@, j as int) == skip_spaces(t@, i as int),
            skip_spaces(t@, j as int) == j as int,
        decreases n - j,
    {
        let c = t.get_char(j);
        if !is_space_x(c) {
            break;
        }
        j = j + 1;
    }
    j
}

fn skip_spaces_t_x(t: &str, n: usize, i: usize) -> (r: usize)
    requires
        n == t@.len(),
    ensures
        r == skip_spaces_t(t@, i as int),
        r >= i,
{
    let mut j = i;
    while j < n
        invariant
            n == t@.len(),
            i <= j,
            skip_spaces_t(t@, j as int) == skip_spaces_t(t@, i as int),
        ensures
            i <= j,
            skip_spaces_t(t@, j as int) == skip_spaces_t(t@, i as int),
            skip_spaces_t(t@, j as int) == j as int,
        decreases n - j,
    {
        let c = t.get_char(j);
        if !(is_space_x(c) || c == 'T') {
            break;
        }
        j = j + 1;
    }
    j
}

fn skip_digits_x(t: &str, n: usize, i: usize) -> (r: usize)
    requires
        n == t@.len(),
    ensures
        r == skip_digits(t@, i as int),
        r >= i,
        forall|p: int| i <= p < r ==> is_dig(#[trigger] ch(t@, p)),
{
    let mut j = i;
    while j < n
        invariant
            n == t@.len(),
            i <= j,
            skip_digits(t@, j as int) == skip_digits(t@, i as int),
            forall|p: int| i <= p < j ==> is_dig(#[trigger] ch(t@, p)),
        ensures
            i <= j,
            skip_digits(t@, j as int) == skip_digits(t@, i as int),
            skip_digits(t@, j as int) == j as int,
            forall|p: int| i <= p < j ==> is_dig(#[trigger] ch(t@, p)),
        decreases n - j,
    {
        let c = t.get_char(j);
        if !is_dig_x(c) {
            break;
        }
        assert(is_dig(ch(t@, j as int)));
        j = j + 1;
    }
    j
}

fn zone_x(t: &str, n: usize, i: usize) -> (r: Option<i64>)
    requires
        n == t@.len(),
    ensures
        match r {
            Some(z) => zone_at(t@, i as int) == Some(z as int) && -899 <= z <= 899,
            None => zone_at(t@, i as int) is None,
        },
{
    let j = skip_spaces_x(t, n, i);
    let c = at(t, n, j, 0);
    if c == '-' || c == '+' {
        let hh = two_x(t, n, j, 1);
        let mm = two_x(t, n, j, 4);
        if let (Some(h), Some(m)) = (hh, mm) {
            if h <= 14 && at(t, n, j, 3) == ':' && m <= 59 {
                if j <= n && 6 <= n - j {
                    let e = skip_spaces_x(t, n, j + 6);
                    if at(t, n, e, 0) == '\0' {
                        let mins = m + 60 * h;
                        return Some(if c == '-' { -mins } else { mins });
                    }
                } else {
                    assert(ch(t@, j + 4) == '\0' || ch(t@, j + 5) == '\0');
                }
            }
        }
        None
    } else if c == 'Z' || c == 'z' {
        if j < n {
            let e = skip_spaces_x(t, n, j + 1);
            if at(t, n, e, 0) == '\0' {
                return Some(0);
            }
            None
        } else {
            assert(ch(t@, j as int) == '\0');
            None
        }
    } else if c == '\0' {
        Some(0)
    } else {
        None
    }
}

fn run_digit_x(t: &str, n: usize, f: usize, k: usize, e: usize) -> (v: i64)
    requires
        n == t@.len(),
        f <= e,
        forall|p: int| f <= p < e ==> is_dig(#[trigger] ch(t@, p)),
    ensures
        v == run_digit(t@, f + k, e as int),
        0 <= v <= 9,
{
    if k < e - f {
        let c = at(t, n, f, k);
        dval_x(c)
    } else {
        0
    }
}

fn time_x(t: &str, n: usize, i: usize) -> (r: Option<(i64, i64)>)
    requires
        n == t@.len(),
    ensures
        match r {
            Some(x) => time_at(t@, i as int) == Some((x.0 as int, x.1 as int)) && 0 <= x.0 <= 90000000 && -899 <= x.1
                <= 899,
            None => time_at(t@, i as int) is None,
        },
{
    let hh = two_x(t, n, i, 0);
    let mi = two_x(t, n, i, 3);
    let (h, m) = match (hh, mi) {
        (Some(h), Some(m)) => (h, m),
        _ => return None,
    };
    if !(h <= 24 && at(t, n, i, 2) == ':' && m <= 59) {
        return None;
    }
    let base = 3600000 * h + 60000 * m;
    if !(i <= n && 5 <= n - i) {
        assert(ch(t@, i + 3) == '\0' || ch(t@, i + 4) == '\0');
        return None;
    }
    let j = i + 5;
    if at(t, n, j, 0) == ':' {
        let ss = two_x(t, n, j, 1);
        let s = match ss {
            Some(s) => s,
            None => return None,
        };
        if s > 59 {
            return None;
        }
        assert(j + 2 < n);
        let k = j + 3;
        let secs = 1000 * s;
        if at(t, n, k, 0) == '.' && is_dig_x(at(t, n, k, 1)) {
            let f = k + 1;
            let e = skip_digits_x(t, n, f);
            let d0 = run_digit_x(t, n, f, 0, e);
            let d1 = run_digit_x(t, n, f, 1, e);
            let d2 = run_digit_x(t, n, f, 2, e);
            let d3 = run_digit_x(t, n, f, 3, e);
            let ms = 100 * d0 + 10 * d1 + d2 + if d3 >= 5 { 1 } else { 0 };
            match zone_x(t, n, e) {
                Some(z) => Some((base + secs + ms, z)),
                None => None,
            }
        } else {
            match zone_x(t, n, k) {
                Some(z) => Some((base + secs, z)),
                None => None,
            }
        }
    } else {
        match zone_x(t, n, j) {
            Some(z) => Some((base, z)),
            None => None,
        }
    }
}

fn date_x(t: &str, n: usize) -> (r: Option<(i64, i64, i64, Option<(i64, i64)>)>)
    requires
        n == t@.len(),
    ensures
        match r {
            Some(x) => date_at(t@) == Some((x.0 as int, x.1 as int, x.2 as int, match x.3 {
                Some(p) => Some((p.0 as int, p.1 as int)),
                None => None,
            })) && -9999 <= x.0 <= 9999 && 1 <= x.1 <= 12 && 1 <= x.2 <= 31 && (x.3 matches Some(p) ==> 0 <= p.0
                <= 90000000 && -899 <= p.1 <= 899),
            None => date_at(t@) is None,
        },
{
    let b: usize = if at(t, n, 0, 0) == '-' { 1 } else { 0 };
    let y4 = two_x(t, n, b, 0);
    let y2 = two_x(t, n, b, 2);
    let mo = two_x(t, n, b, 5);
    let dy = two_x(t, n, b, 8);
    let (yh, yl, m, d) = match (y4, y2, mo, dy) {
        (Some(a), Some(c), Some(m), Some(d)) => (a, c, m, d),
        _ => return None,
    };
    if !(at(t, n, b, 4) == '-' && 1 <= m && m <= 12 && at(t, n, b, 7) == '-' && 1 <= d && d <= 31) {
        return None;
    }
    assert(four(t@, b as int) == 100 * two(t@, b as int) + two(t@, b + 2));
    let yv = 100 * yh + yl;
    let y = if b == 1 { -yv } else { yv };
    assert(b + 9 < n);
    let j = skip_spaces_t_x(t, n, b + 10);
    match time_x(t, n, j) {
        Some(tm) => Some((y, m, d, Some(tm))),
        None => {
            if at(t, n, j, 0) == '\0' {
                Some((y, m, d, None))
            } else {
                None
            }
        },
    }
}

fn tdiv_x(a: i64, b: i64) -> (q: i64)
    requires
        b > 0,
        a > i64::MIN,
    ensures
        q == tdiv(a as int, b as int),
{
    if a >= 0 {
        a / b
    } else {
        -((-a) / b)
    }
}

fn julian_x(y: i64, m: i64, d: i64, ms: i64, tz: i64) -> (j: i64)
    requires
        -4713 <= y <= 9999,
        1 <= m <= 12,
        1 <= d <= 31,
        0 <= ms <= 90000000,
        -899 <= tz <= 899,
    ensures
        j == julian_ms(y as int, m as int, d as int, ms as int, tz as int),
{
    let yy = if m <= 2 { y - 1 } else { y };
    let mm = if m <= 2 { m + 12 } else { m };
    let a = tdiv_x(yy, 100);
    assert(-48 <= a <= 100) by {
        assert(-4714 <= yy <= 9999);
    }
    let b = 2 - a + tdiv_x(a, 4);
    let x1 = tdiv_x(36525 * (yy + 4716), 100);
    let x2 = tdiv_x(306001 * (mm + 1), 10000);
    assert(0 <= x1 <= 36525 * 14715int / 100);
    assert(0 <= x2 <= 306001 * 15int / 10000);
    (x1 + x2 + d + b) * 86400000 - 131716800000 + ms - tz * 60000
}

fn month_of_julian_x(j: i64) -> (m: i64)
    requires
        0 <= j <= MAX_JULIAN_MS,
    ensures
        m == month_of_julian(j as int),
{
    let z = (j + 43200000) / 86400000;
    assert(0 <= z <= 5373485);
    let a0 = tdiv_x(4 * z - 7468865, 146097);
    assert(-52 <= a0 <= 100);
    let a = z + 1 + a0 - tdiv_x(a0, 4);
    let b = a + 1524;
    let c = tdiv_x(20 * b - 2442, 7305);
    assert(-10 <= c <= 20000);
    let d = tdiv_x(36525 * (c % 32768), 100);
    assert(0 <= d <= 36525 * 32768int / 100);
    let e = tdiv_x(10000 * (b - d), 306001);
    if e < 14 {
        e - 1
    } else {
        e - 13
    }
}

/// `strftime('%m', t)` read as an integer, `None` where SQLite gives NULL.
pub fn sqlite_month_exec(t: &str) -> (m: Option<i64>)
    ensures
        m matches Some(v) ==> 1 <= v <= 12,
        match m {
            Some(v) => sqlite_month(t@) == Some(v as int),
            None => sqlite_month(t@) is None,
        },
{
    reveal(sqlite_month);
    let n = t.unicode_len();
    match date_x(t, n) {
        Some((y, m, d, tm)) => {
            let (ms, tz) = match tm {
                Some(x) => x,
                None => (0, 0),
            };
            if y < -4713 {
                return None;
            }
            let j = julian_x(y, m, d, ms, tz);
            if j < 0 || j > MAX_JULIAN_MS {
                None
            } else if tz != 0 || d > 28 {
                proof {
                    lemma_month_of_julian_range(j as int);
                }
                Some(month_of_julian_x(j))
            } else {
                Some(m)
            }
        },
        None => match time_x(t, n, 0) {
            Some((ms, tz)) => {
                let j = julian_x(2000, 1, 1, ms, tz);
                if j < 0 || j > MAX_JULIAN_MS {
                    None
                } else {
                    proof {
                        lemma_month_of_julian_range(j as int);
                    }
                    Some(month_of_julian_x(j))
                }
            },
            None => None,
        },
    }
}

} // verus!
