//! Decimal and hexadecimal rendering and parsing of integers, specified
//! exactly as Rust's `{}` / `{:016x}` formatting and `str::parse` /
//! `from_str_radix` behave.

use vstd::prelude::*;

verus! {

/// The character of a digit value (lower-case letters past 9).
pub open spec fn digit_char_of(d: nat) -> char {
    if d == 0 { '0' }
    else if d == 1 { '1' }
    else if d == 2 { '2' }
    else if d == 3 { '3' }
    else if d == 4 { '4' }
    else if d == 5 { '5' }
    else if d == 6 { '6' }
    else if d == 7 { '7' }
    else if d == 8 { '8' }
    else if d == 9 { '9' }
    else if d == 10 { 'a' }
    else if d == 11 { 'b' }
    else if d == 12 { 'c' }
    else if d == 13 { 'd' }
    else if d == 14 { 'e' }
    else { 'f' }
}

/// Executable digit rendering.
pub fn digit_char(d: u64) -> (c: char)
    requires
        d < 16,
    ensures
        c == digit_char_of(d as nat),
{
    if d == 0 { '0' }
    else if d == 1 { '1' }
    else if d == 2 { '2' }
    else if d == 3 { '3' }
    else if d == 4 { '4' }
    else if d == 5 { '5' }
    else if d == 6 { '6' }
    else if d == 7 { '7' }
    else if d == 8 { '8' }
    else if d == 9 { '9' }
    else if d == 10 { 'a' }
    else if d == 11 { 'b' }
    else if d == 12 { 'c' }
    else if d == 13 { 'd' }
    else if d == 14 { 'e' }
    else { 'f' }
}

/// Decimal digits of a natural number, no leading zeros (`"0"` for zero).
pub open spec fn dec_nat(n: nat) -> Seq<char>
    decreases n,
{
    if n < 10 {
        seq![digit_char_of(n)]
    } else {
        dec_nat(n / 10).push(digit_char_of(n % 10))
    }
}

/// Decimal rendering of an integer, as `{}` formats it.
pub open spec fn dec_int(n: int) -> Seq<char> {
    if n < 0 {
        seq!['-'] + dec_nat((-n) as nat)
    } else {
        dec_nat(n as nat)
    }
}

/// Appends `c` to `s` (`String::push`).
#[verifier::external_body]
pub(crate) fn push_char(s: &mut String, c: char)
    ensures
        final(s)@ == old(s)@.push(c),
{
    s.push(c);
}

/// Appends `t` to `s` (`String::push_str`).
pub fn push_str(s: &mut String, t: &str)
    ensures
        final(s)@ == old(s)@ + t@,
{
    s.append(t);
}

proof fn lemma_dec_nat_step(n: nat)
    requires
        n >= 10,
    ensures
        dec_nat(n) == dec_nat(n / 10).push(digit_char_of(n % 10)),
{
}

/// Appends the decimal rendering of `n` to `out`.
pub fn push_u64(out: &mut String, n: u64)
    ensures
        final(out)@ == old(out)@ + dec_nat(n as nat),
{
    // Collect digits least-significant first.
    let mut digits: Vec<char> = Vec::new();
    let mut v: u64 = n;
    while v >= 10
        invariant
            v <= n,
            dec_nat(n as nat) == dec_nat(v as nat) + digits@.reverse(),
        decreases v,
    {
        let d = v % 10;
        let c = digit_char(d);
        proof {
            lemma_dec_nat_step(v as nat);
            assert(digits@.push(c).reverse() =~= seq![c] + digits@.reverse());
            assert(dec_nat(v as nat) == dec_nat((v / 10) as nat).push(c));
            assert(dec_nat((v / 10) as nat).push(c) + digits@.reverse() =~= dec_nat(
                (v / 10) as nat,
            ) + (seq![c] + digits@.reverse()));
        }
        digits.push(c);
        v = v / 10;
    }
    let c0 = digit_char(v);
    push_char(out, c0);
    assert(dec_nat(v as nat) == seq![c0]);
    let mut k: usize = digits.len();
    while k > 0
        invariant
            k <= digits.len(),
            out@ == old(out)@ + dec_nat(v as nat) + digits@.subrange(k as int, digits@.len() as int).reverse(),
            dec_nat(n as nat) == dec_nat(v as nat) + digits@.reverse(),
        decreases k,
    {
        let ghost before = out@;
        let c = digits[k - 1];
        push_char(out, c);
        proof {
            let len = digits@.len() as int;
            assert(digits@.subrange(k - 1, len).reverse() =~= digits@.subrange(k as int, len).reverse().push(c));
        }
        k = k - 1;
    }
    assert(digits@.subrange(0, digits@.len() as int) =~= digits@);
}

/// Appends the decimal rendering of `n` to `out`.
pub fn push_i64(out: &mut String, n: i64)
    ensures
        final(out)@ == old(out)@ + dec_int(n as int),
{
    if n < 0 {
        push_char(out, '-');
        let mag: u64 = ((-(n + 1)) as u64) + 1;
        push_u64(out, mag);
        assert(mag as int == -n);
    } else {
        push_u64(out, n as u64);
    }
}

/// `n.to_string()` for `u64`.
pub fn fmt_u64(n: u64) -> (s: String)
    ensures
        s@ == dec_nat(n as nat),
{
    let mut s = String::new();
    push_u64(&mut s, n);
    assert(s@ =~= dec_nat(n as nat));
    s
}

/// `n.to_string()` for `i64`.
pub fn fmt_i64(n: i64) -> (s: String)
    ensures
        s@ == dec_int(n as int),
{
    let mut s = String::new();
    push_i64(&mut s, n);
    assert(s@ =~= dec_int(n as int));
    s
}

/// `char::to_digit(radix)` for radix 10 or 16.
pub open spec fn digit_value(c: char, radix: nat) -> Option<nat> {
    let u = c as u32;
    let v: int = if 0x30 <= u && u <= 0x39 {
        u - 0x30
    } else if 0x61 <= u && u <= 0x7A {
        u - 0x61 + 10
    } else if 0x41 <= u && u <= 0x5A {
        u - 0x41 + 10
    } else {
        99
    };
    if v < radix {
        Some(v as nat)
    } else {
        None
    }
}

/// All characters are digits of `radix`.
pub open spec fn all_digits(s: Seq<char>, radix: nat) -> bool {
    forall|i: int| 0 <= i < s.len() ==> (#[trigger] digit_value(s[i], radix)) is Some
}

/// The value of a digit string (most significant first).
pub open spec fn digits_value(s: Seq<char>, radix: nat) -> nat
    decreases s.len(),
{
    if s.len() == 0 {
        0
    } else {
        digits_value(s.drop_last(), radix) * radix + digit_value(s.last(), radix).unwrap_or(0)
    }
}

/// The integer `str::parse` / `from_str_radix` read from `s`, before the
/// range check of the target type: an optional `+` (or `-` when `signed`)
/// followed by at least one digit of `radix`, and nothing else.
pub open spec fn parse_radix(s: Seq<char>, radix: nat, signed: bool) -> Option<int> {
    if s.len() == 0 {
        None
    } else if s.len() == 1 && (s[0] == '+' || s[0] == '-') {
        None
    } else {
        let neg = signed && s[0] == '-';
        let digits = if s[0] == '+' || neg { s.drop_first() } else { s };
        if all_digits(digits, radix) {
            let v = digits_value(digits, radix) as int;
            Some(if neg { -v } else { v })
        } else {
            None
        }
    }
}

/// `s.parse::<i64>()`: `Some` exactly when the text is a decimal number in range.
pub open spec fn parse_i64_spec(s: Seq<char>) -> Option<int> {
    match parse_radix(s, 10, true) {
        Some(v) => if i64::MIN <= v <= i64::MAX { Some(v) } else { None },
        None => None,
    }
}

/// `s.parse::<i32>()`.
pub open spec fn parse_i32_spec(s: Seq<char>) -> Option<int> {
    match parse_radix(s, 10, true) {
        Some(v) => if i32::MIN <= v <= i32::MAX { Some(v) } else { None },
        None => None,
    }
}

/// `u64::from_str_radix(s, 16)`.
pub open spec fn parse_hex_u64_spec(s: Seq<char>) -> Option<int> {
    match parse_radix(s, 16, false) {
        Some(v) => if 0 <= v <= u64::MAX { Some(v) } else { None },
        None => None,
    }
}

fn digit_of(c: char, radix: u64) -> (r: Option<u64>)
    requires
        radix == 10 || radix == 16,
    ensures
        r matches Some(v) ==> digit_value(c, radix as nat) == Some(v as nat),
        r is None ==> digit_value(c, radix as nat) is None,
{
    let u = c as u32;
    let v: u64 = if 0x30 <= u && u <= 0x39 {
        (u - 0x30) as u64
    } else if 0x61 <= u && u <= 0x7A {
        (u - 0x61 + 10) as u64
    } else if 0x41 <= u && u <= 0x5A {
        (u - 0x41 + 10) as u64
    } else {
        99
    };
    if v < radix {
        Some(v)
    } else {
        None
    }
}

proof fn lemma_digits_value_push(s: Seq<char>, c: char, radix: nat)
    ensures
        digits_value(s.push(c), radix) == digits_value(s, radix) * radix + digit_value(c, radix).unwrap_or(0),
{
    assert(s.push(c).drop_last() =~= s);
}

/// Reads the magnitude of a digit string, or `None` when it has a non-digit
/// or exceeds `limit`.
fn read_magnitude(s: &str, start: usize, radix: u64, limit: u64) -> (r: Option<u64>)
    requires
        radix == 10 || radix == 16,
        start <= s@.len(),
        limit >= 16,
    ensures
        ({
            let d = s@.skip(start as int);
            &&& r matches Some(v) ==> all_digits(d, radix as nat) && v == digits_value(d, radix as nat) && v <= limit
            &&& r is None ==> !all_digits(d, radix as nat) || digits_value(d, radix as nat) > limit
        }),
{
    let n = s.unicode_len();
    let ghost d = s@.skip(start as int);
    let mut acc: u64 = 0;
    let mut i: usize = start;
    let mut over = false;
    while i < n
        invariant
            n == s@.len(),
            start <= i <= n,
            d == s@.skip(start as int),
            radix == 10 || radix == 16,
            limit >= 16,
            all_digits(d.take(i - start), radix as nat),
            !over ==> acc == digits_value(d.take(i - start), radix as nat) && acc <= limit,
            over ==> digits_value(d.take(i - start), radix as nat) > limit,
        decreases n - i,
    {
        let c = s.get_char(i);
        match digit_of(c, radix) {
            None => {
                proof {
                    assert(d[i - start] == c);
                    assert(!all_digits(d, radix as nat));
                }
                return None;
            }
            Some(dv) => {
                proof {
                    assert(d.take(i - start + 1) =~= d.take(i - start).push(c));
                    lemma_digits_value_push(d.take(i - start), c, radix as nat);
                    assert forall|j: int| 0 <= j < d.take(i - start + 1).len() implies
                        (#[trigger] digit_value(d.take(i - start + 1)[j], radix as nat)) is Some by {
                        if j < i - start {
                            assert(d.take(i - start + 1)[j] == d.take(i - start)[j]);
                        }
                    }
                }
                if !over {
                    if acc > (limit - dv) / radix {
                        proof {
                            let a = acc as int;
                            let lim = limit as int;
                            let dd = dv as int;
                            let rr = radix as int;
                            assert(a * rr + dd > lim) by (nonlinear_arith)
                                requires a > (lim - dd) / rr, rr > 0, lim >= 0, dd >= 0, dd < rr;
                        }
                        over = true;
                    } else {
                        proof {
                            let a = acc as int;
                            let lim = limit as int;
                            let dd = dv as int;
                            let rr = radix as int;
                            assert(a * rr + dd <= lim) by (nonlinear_arith)
                                requires a <= (lim - dd) / rr, rr > 0, lim >= dd, dd >= 0;
                        }
                        acc = acc * radix + dv;
                    }
                } else {
                    proof {
                        let p = digits_value(d.take(i - start), radix as nat) as int;
                        let rr = radix as int;
                        assert(p * rr >= p) by (nonlinear_arith)
                            requires rr >= 1, p >= 0;
                    }
                }
            }
        }
        i = i + 1;
    }
    proof {
        assert(d.take(i - start) =~= d);
    }
    if over {
        None
    } else {
        Some(acc)
    }
}

/// `s.parse::<i64>().ok()`.
pub fn parse_i64(s: &str) -> (r: Option<i64>)
    ensures
        r matches Some(v) ==> parse_i64_spec(s@) == Some(v as int),
        r is None ==> parse_i64_spec(s@) is None,
{
    let n = s.unicode_len();
    if n == 0 {
        return None;
    }
    let c0 = s.get_char(0);
    if n == 1 && (c0 == '+' || c0 == '-') {
        return None;
    }
    let neg = c0 == '-';
    let start: usize = if c0 == '+' || neg { 1 } else { 0 };
    proof {
        assert(s@.skip(1) =~= s@.drop_first());
        assert(s@.skip(0) =~= s@);
    }
    let limit: u64 = if neg { 0x8000_0000_0000_0000u64 } else { 0x7FFF_FFFF_FFFF_FFFFu64 };
    match read_magnitude(s, start, 10, limit) {
        None => None,
        Some(m) => {
            if neg {
                if m == 0x8000_0000_0000_0000u64 {
                    Some(i64::MIN)
                } else {
                    Some(-(m as i64))
                }
            } else {
                Some(m as i64)
            }
        },
    }
}

/// `s.parse::<i32>().ok()`.
pub fn parse_i32(s: &str) -> (r: Option<i32>)
    ensures
        r matches Some(v) ==> parse_i32_spec(s@) == Some(v as int),
        r is None ==> parse_i32_spec(s@) is None,
{
    match parse_i64(s) {
        None => None,
        Some(v) => {
            if -2147483648 <= v && v <= 2147483647 {
                Some(v as i32)
            } else {
                None
            }
        },
    }
}

/// `u64::from_str_radix(s, 16).ok()`.
pub fn parse_hex_u64(s: &str) -> (r: Option<u64>)
    ensures
        r matches Some(v) ==> parse_hex_u64_spec(s@) == Some(v as int),
        r is None ==> parse_hex_u64_spec(s@) is None,
{
    let n = s.unicode_len();
    if n == 0 {
        return None;
    }
    let c0 = s.get_char(0);
    if n == 1 && (c0 == '+' || c0 == '-') {
        return None;
    }
    let start: usize = if c0 == '+' { 1 } else { 0 };
    proof {
        assert(s@.skip(1) =~= s@.drop_first());
        assert(s@.skip(0) =~= s@);
    }
    read_magnitude(s, start, 16, u64::MAX)
}

/// 16 to the power `k`.
pub open spec fn pow16(k: nat) -> nat
    decreases k,
{
    if k == 0 { 1 } else { 16 * pow16((k - 1) as nat) }
}

/// `format!("{:016x}", h)` for a 64-bit value: sixteen lower-case hex digits.
pub open spec fn hex16(h: nat) -> Seq<char> {
    Seq::new(16, |i: int| digit_char_of((h / pow16((15 - i) as nat)) % 16))
}

pub proof fn lemma_pow16_step(k: nat)
    ensures
        pow16(k + 1) == 16 * pow16(k),
        pow16(k) >= 1,
    decreases k,
{
    if k > 0 {
        lemma_pow16_step((k - 1) as nat);
    }
}

/// The 16-digit lower-case hexadecimal rendering of `h`.
pub fn fmt_hex16(h: u64) -> (s: String)
    ensures
        s@ == hex16(h as nat),
{
    let mut digits: Vec<char> = Vec::new();
    let mut v: u64 = h;
    let mut j: usize = 0;
    assert(pow16(0) == 1);
    assert(h as nat / 1 == h as nat);
    while j < 16
        invariant
            j <= 16,
            digits@.len() == j,
            v as nat == h as nat / pow16(j as nat),
            forall|k: int| 0 <= k < j ==> #[trigger] digits@[k] == digit_char_of((h as nat / pow16(k as nat)) % 16),
        decreases 16 - j,
    {
        let c = digit_char(v % 16);
        proof {
            lemma_pow16_step(j as nat);
            vstd::arithmetic::div_mod::lemma_div_denominator(h as int, pow16(j as nat) as int, 16);
            assert(pow16(j as nat) * 16 == 16 * pow16(j as nat)) by (nonlinear_arith);
        }
        digits.push(c);
        v = v / 16;
        j = j + 1;
    }
    let mut s = String::new();
    let mut k: usize = 16;
    while k > 0
        invariant
            k <= 16,
            digits@.len() == 16,
            s@.len() == 16 - k,
            forall|i: int| 0 <= i < 16 - k ==> #[trigger] s@[i] == digits@[15 - i],
            forall|m: int| 0 <= m < 16 ==> #[trigger] digits@[m] == digit_char_of((h as nat / pow16(m as nat)) % 16),
        decreases k,
    {
        push_char(&mut s, digits[k - 1]);
        k = k - 1;
    }
    proof {
        assert forall|i: int| 0 <= i < 16 implies s@[i] == #[trigger] hex16(h as nat)[i] by {
            assert(s@[i] == digits@[15 - i]);
        }
        assert(s@ =~= hex16(h as nat));
    }
    s
}

/// `w` lower-case hex digits of `h` (its last `w` digits), as
/// `format!("{:0w$x}", h)` writes a value below `16^w`.
pub open spec fn hex_width(h: nat, w: nat) -> Seq<char> {
    Seq::new(w, |i: int| digit_char_of((h / pow16((w - 1 - i) as nat)) % 16))
}

/// The `w`-digit lower-case hexadecimal rendering of `h`.
pub fn fmt_hex_width(h: u64, w: usize) -> (s: String)
    requires
        w <= 16,
    ensures
        s@ == hex_width(h as nat, w as nat),
{
    let mut digits: Vec<char> = Vec::new();
    let mut v: u64 = h;
    let mut j: usize = 0;
    assert(pow16(0) == 1);
    assert(h as nat / 1 == h as nat);
    while j < w
        invariant
            j <= w <= 16,
            digits@.len() == j,
            v as nat == h as nat / pow16(j as nat),
            forall|k: int| 0 <= k < j ==> #[trigger] digits@[k] == digit_char_of((h as nat / pow16(k as nat)) % 16),
        decreases w - j,
    {
        let c = digit_char(v % 16);
        proof {
            lemma_pow16_step(j as nat);
            vstd::arithmetic::div_mod::lemma_div_denominator(h as int, pow16(j as nat) as int, 16);
            assert(pow16(j as nat) * 16 == 16 * pow16(j as nat)) by (nonlinear_arith);
        }
        digits.push(c);
        v = v / 16;
        j = j + 1;
    }
    let mut s = String::new();
    let mut k: usize = w;
    while k > 0
        invariant
            k <= w <= 16,
            digits@.len() == w,
            s@.len() == w - k,
            forall|i: int| 0 <= i < w - k ==> #[trigger] s@[i] == digits@[w - 1 - i],
            forall|m: int| 0 <= m < w ==> #[trigger] digits@[m] == digit_char_of((h as nat / pow16(m as nat)) % 16),
        decreases k,
    {
        push_char(&mut s, digits[k - 1]);
        k = k - 1;
    }
    proof {
        assert forall|i: int| 0 <= i < w implies s@[i] == #[trigger] hex_width(h as nat, w as nat)[i] by {
            assert(s@[i] == digits@[w - 1 - i]);
        }
        assert(s@ =~= hex_width(h as nat, w as nat));
    }
    s
}

} // verus!
