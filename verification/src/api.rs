//! Metadata providers (RAWG first, IGDB as fallback): request texts,
//! rate limiting and the retry policy, as decisions the network layer
//! carries out.

use vstd::prelude::*;
use crate::numfmt::{dec_int, push_i64, push_str};
use vstd::string::StringSliceAdditionalSpecFns;

verus! {

/// Requests allowed per minute by the RAWG client.
pub const MAX_REQUESTS_PER_MINUTE: u32 = 10;

/// First backoff step, in milliseconds.
pub const INITIAL_BACKOFF_MS: u64 = 1000;

/// Longest backoff, in milliseconds.
pub const MAX_BACKOFF_MS: u64 = 16000;

/// Attempts before a request is given up.
pub const MAX_RETRIES: u32 = 3;

/// Base address of the RAWG API.
pub const RAWG_API_BASE: &'static str = "https://api.rawg.io/api";

/// Address of the IGDB games endpoint.
pub const IGDB_GAMES_URL: &'static str = "https://api.igdb.com/v4/games";

/// `2^k`.
pub open spec fn pow2(k: nat) -> nat
    decreases k,
{
    if k == 0 { 1 } else { 2 * pow2((k - 1) as nat) }
}

/// Backoff before retry number `attempt`: 1 s doubled per attempt (at most
/// four doublings), never above 16 s.
pub open spec fn backoff_ms(attempt: nat) -> nat {
    let e: nat = if attempt < 4 { attempt } else { 4 };
    let d: nat = INITIAL_BACKOFF_MS as nat * pow2(e);
    if d < MAX_BACKOFF_MS { d } else { MAX_BACKOFF_MS as nat }
}

/// Exponential backoff delay, in milliseconds.
pub fn backoff_delay(attempt: u32) -> (ms: u64)
    ensures
        ms == backoff_ms(attempt as nat),
{
    let e: u32 = if attempt < 4 { attempt } else { 4 };
    let mut p: u64 = 1;
    let mut k: u32 = 0;
    while k < e
        invariant
            k <= e <= 4,
            p == pow2(k as nat),
            p <= 16,
        decreases e - k,
    {
        proof {
            reveal_with_fuel(pow2, 5);
            assert(k < 4);
            assert(k == 0 || k == 1 || k == 2 || k == 3);
        }
        p = p * 2;
        k = k + 1;
    }
    let d = INITIAL_BACKOFF_MS * p;
    if d < MAX_BACKOFF_MS { d } else { MAX_BACKOFF_MS }
}

/// What a provider answered to one request.
#[derive(Clone, Copy, Debug, PartialEq, Eq, Structural)]
pub enum Reply {
    /// A success status: the body is to be read.
    Success,
    /// Status 429.
    TooManyRequests,
    /// Any other failure status.
    ErrorStatus,
    /// The request could not be sent.
    SendFailed,
}

/// What to do next after a reply.
#[derive(Clone, Copy, Debug, PartialEq, Eq, Structural)]
pub enum NextStep {
    /// Read the response body.
    ReadBody,
    /// Wait `delay_ms`, then try again; `attempts` failures so far.
    Retry { attempts: u32, delay_ms: u64 },
    /// Give up after `attempts` failures of this kind.
    GiveUp { attempts: u32 },
    /// Report the error status at once.
    Fail,
}

/// The retry policy: a success is read, an error status other than 429 is
/// reported, and a 429 or a failed send counts an attempt — the request is
/// given up at three, else retried after the backoff for that count.
pub open spec fn next_step_spec(attempts: int, reply: Reply) -> NextStep {
    match reply {
        Reply::Success => NextStep::ReadBody,
        Reply::ErrorStatus => NextStep::Fail,
        _ => if attempts + 1 >= MAX_RETRIES {
            NextStep::GiveUp { attempts: (attempts + 1) as u32 }
        } else {
            NextStep::Retry { attempts: (attempts + 1) as u32, delay_ms: backoff_ms((attempts + 1) as nat) as u64 }
        },
    }
}

/// Decide what follows a reply, given the failures counted so far.
pub fn next_step(attempts: u32, reply: Reply) -> (s: NextStep)
    requires
        attempts < MAX_RETRIES,
    ensures
        s == next_step_spec(attempts as int, reply),
{
    match reply {
        Reply::Success => NextStep::ReadBody,
        Reply::ErrorStatus => NextStep::Fail,
        _ => {
            let a = attempts + 1;
            if a >= MAX_RETRIES {
                NextStep::GiveUp { attempts: a }
            } else {
                NextStep::Retry { attempts: a, delay_ms: backoff_delay(a) }
            }
        },
    }
}

/// The two metadata providers.
#[derive(Clone, Copy, Debug, PartialEq, Eq, Structural)]
pub enum Provider {
    Rawg,
    Igdb,
}

/// The provider's name as error messages spell it.
pub open spec fn provider_label(p: Provider) -> Seq<char> {
    match p {
        Provider::Rawg => "RAWG"@,
        Provider::Igdb => "IGDB"@,
    }
}

fn push_label(out: &mut String, p: Provider)
    ensures
        final(out)@ == old(out)@ + provider_label(p),
{
    match p {
        Provider::Rawg => push_str(out, "RAWG"),
        Provider::Igdb => push_str(out, "IGDB"),
    }
}

/// The message for a request given up: after repeated 429s it names the
/// rate limit, after failed sends it quotes the last send error.
pub fn give_up_message(p: Provider, send_error: Option<&str>) -> (m: String)
    ensures
        m@ == match send_error {
            None => provider_label(p) + " API rate limit exceeded after retries"@,
            Some(e) => provider_label(p) + " API request failed after retries: "@ + e@,
        },
{
    let mut m = String::new();
    push_label(&mut m, p);
    match send_error {
        None => push_str(&mut m, " API rate limit exceeded after retries"),
        Some(e) => {
            push_str(&mut m, " API request failed after retries: ");
            push_str(&mut m, e);
        },
    }
    m
}

/// The message for an error status (`status` as the HTTP layer prints it).
pub fn status_error_message(p: Provider, status: &str) -> (m: String)
    ensures
        m@ == provider_label(p) + " API error: "@ + status@,
{
    let mut m = String::new();
    push_label(&mut m, p);
    push_str(&mut m, " API error: ");
    push_str(&mut m, status);
    m
}

/// The message for a body that could not be read.
pub fn parse_error_message(p: Provider, err: &str) -> (m: String)
    ensures
        m@ == "Failed to parse "@ + provider_label(p) + " response: "@ + err@,
{
    let mut m = String::new();
    push_str(&mut m, "Failed to parse ");
    push_label(&mut m, p);
    push_str(&mut m, " response: ");
    push_str(&mut m, err);
    m
}

/// A byte that URL encoding keeps as is: ASCII letters, digits, `-`, `_`,
/// `.` and `~`.
pub open spec fn url_safe(b: u8) -> bool {
    (0x30 <= b <= 0x39) || (0x41 <= b <= 0x5A) || (0x61 <= b <= 0x7A) || b == 0x2D || b == 0x5F || b == 0x2E
        || b == 0x7E
}

/// Upper-case hexadecimal digit.
pub open spec fn hex_upper(d: int) -> char {
    if d < 10 { ((0x30 + d) as u8) as char } else { ((0x41 + d - 10) as u8) as char }
}

/// How URL encoding writes one byte.
pub open spec fn url_byte(b: u8) -> Seq<char> {
    if url_safe(b) { seq![b as char] } else { seq!['%', hex_upper(b as int / 16), hex_upper(b as int % 16)] }
}

/// Percent-encoding of a byte string.
pub open spec fn url_encoded(bytes: Seq<u8>) -> Seq<char>
    decreases bytes.len(),
{
    if bytes.len() == 0 { Seq::empty() } else { url_encoded(bytes.drop_last()) + url_byte(bytes.last()) }
}

/// `urlencoding::encode`: its documentation promises that every byte of the
/// UTF-8 text is percent-encoded except ASCII alphanumerics and `-`, `_`,
/// `.`, `~`, and its source writes the hex digits in upper case.
#[verifier::external_body]
fn url_encode(s: &str) -> (r: String)
    ensures
        r@ == url_encoded(s.spec_bytes()),
{
    urlencoding::encode(s).into_owned()
}

/// The RAWG search address for `query`.
pub fn rawg_search_url(api_key: &str, query: &str) -> (u: String)
    ensures
        u@ == RAWG_API_BASE@ + "/games?key="@ + api_key@ + "&search="@ + url_encoded(query.spec_bytes())
            + "&page_size=10"@,
{
    let mut u = String::new();
    push_str(&mut u, RAWG_API_BASE);
    push_str(&mut u, "/games?key=");
    push_str(&mut u, api_key);
    push_str(&mut u, "&search=");
    let q = url_encode(query);
    push_str(&mut u, q.as_str());
    push_str(&mut u, "&page_size=10");
    u
}

/// The RAWG address of one game.
pub fn rawg_game_url(api_key: &str, game_id: i64) -> (u: String)
    ensures
        u@ == RAWG_API_BASE@ + "/games/"@ + dec_int(game_id as int) + "?key="@ + api_key@,
{
    let mut u = String::new();
    push_str(&mut u, RAWG_API_BASE);
    push_str(&mut u, "/games/");
    push_i64(&mut u, game_id);
    push_str(&mut u, "?key=");
    push_str(&mut u, api_key);
    u
}

/// `s` without its double quotes.
pub open spec fn without_quotes(s: Seq<char>) -> Seq<char> {
    s.filter(|c: char| c != '"')
}

/// The IGDB query body for a title search (double quotes dropped from the
/// title so it cannot end the quoted search term).
pub fn igdb_search_body(query: &str) -> (b: String)
    ensures
        b@ == "search \""@ + without_quotes(query@)
            + "\"; fields name,summary,cover.url,genres.name,release_dates.date,release_dates.human,rating; limit 10;"@,
{
    let mut b = String::new();
    push_str(&mut b, "search \"");
    let n = query.unicode_len();
    let ghost start = b@;
    let mut i: usize = 0;
    while i < n
        invariant
            n == query@.len(),
            i <= n,
            b@ == start + without_quotes(query@.take(i as int)),
        decreases n - i,
    {
        let c = query.get_char(i);
        proof {
            reveal(Seq::filter);
            assert(query@.take(i as int + 1).drop_last() =~= query@.take(i as int));
        }
        if c != '"' {
            crate::numfmt::push_char(&mut b, c);
        }
        i = i + 1;
    }
    assert(query@.take(n as int) =~= query@);
    push_str(&mut b, "\"; fields name,summary,cover.url,genres.name,release_dates.date,release_dates.human,rating; limit 10;");
    b
}

/// The IGDB authorization header value.
pub fn bearer(access_token: &str) -> (h: String)
    ensures
        h@ == "Bearer "@ + access_token@,
{
    let mut h = String::new();
    push_str(&mut h, "Bearer ");
    push_str(&mut h, access_token);
    h
}

/// The RAWG client's request window: requests counted since the window
/// opened, times in milliseconds on the client's own clock.
#[derive(Clone, Copy, Debug, PartialEq, Eq, Structural)]
pub struct RateWindow {
    pub request_count: u32,
    pub window_start_ms: u64,
    pub last_request_ms: Option<u64>,
}

/// A window of one minute.
pub const WINDOW_MS: u64 = 60000;

/// A fresh limiter opened at `now`.
pub fn new_rate_window(now_ms: u64) -> (w: RateWindow)
    ensures
        w == (RateWindow { request_count: 0, window_start_ms: now_ms, last_request_ms: None }),
{
    RateWindow { request_count: 0, window_start_ms: now_ms, last_request_ms: None }
}

/// The limiter's decision at `now`: a window a minute old starts afresh;
/// then, below ten requests the request goes out at once and is counted,
/// at ten the caller waits for the rest of the minute.
pub open spec fn rate_check_spec(w: RateWindow, now: int) -> (RateWindow, Option<int>) {
    let w1 = if now - w.window_start_ms >= WINDOW_MS {
        RateWindow { request_count: 0, window_start_ms: now as u64, last_request_ms: w.last_request_ms }
    } else {
        w
    };
    if w1.request_count >= MAX_REQUESTS_PER_MINUTE {
        (w1, Some(WINDOW_MS - (now - w1.window_start_ms)))
    } else {
        (RateWindow { request_count: (w1.request_count + 1) as u32, window_start_ms: w1.window_start_ms, last_request_ms: Some(now as u64) }, None)
    }
}

/// One check of the RAWG limiter at `now` (not before the window opened).
pub fn rate_check(w: RateWindow, now_ms: u64) -> (r: (RateWindow, Option<u64>))
    requires
        now_ms >= w.window_start_ms,
        w.request_count <= MAX_REQUESTS_PER_MINUTE,
    ensures
        r.0 == rate_check_spec(w, now_ms as int).0,
        match r.1 {
            Some(d) => rate_check_spec(w, now_ms as int).1 == Some(d as int),
            None => rate_check_spec(w, now_ms as int).1.is_none(),
        },
        r.0.request_count <= MAX_REQUESTS_PER_MINUTE,
{
    let w1 = if now_ms - w.window_start_ms >= WINDOW_MS {
        RateWindow { request_count: 0, window_start_ms: now_ms, last_request_ms: w.last_request_ms }
    } else {
        w
    };
    if w1.request_count >= MAX_REQUESTS_PER_MINUTE {
        (w1, Some(WINDOW_MS - (now_ms - w1.window_start_ms)))
    } else {
        (RateWindow { request_count: w1.request_count + 1, window_start_ms: w1.window_start_ms, last_request_ms: Some(now_ms) }, None)
    }
}

/// After waiting out a full window: this request opens a new one.
pub fn after_wait(now_ms: u64) -> (w: RateWindow)
    ensures
        w == (RateWindow { request_count: 1, window_start_ms: now_ms, last_request_ms: Some(now_ms) }),
{
    RateWindow { request_count: 1, window_start_ms: now_ms, last_request_ms: Some(now_ms) }
}

/// Least spacing between IGDB requests (four per second).
pub const IGDB_MIN_INTERVAL_MS: u64 = 250;

/// How long an IGDB request waits: the rest of 250 ms since the previous
/// one, nothing for the first request or after a longer pause.
pub open spec fn igdb_wait_spec(last: Option<u64>, now: int) -> int {
    match last {
        Some(l) => if now - l < IGDB_MIN_INTERVAL_MS { IGDB_MIN_INTERVAL_MS - (now - l) } else { 0 },
        None => 0,
    }
}

/// The IGDB spacing decision.
pub fn igdb_wait(last_request_ms: Option<u64>, now_ms: u64) -> (d: u64)
    requires
        match last_request_ms {
            Some(l) => l <= now_ms,
            None => true,
        },
    ensures
        d == igdb_wait_spec(last_request_ms, now_ms as int),
{
    match last_request_ms {
        Some(l) => if now_ms - l < IGDB_MIN_INTERVAL_MS { IGDB_MIN_INTERVAL_MS - (now_ms - l) } else { 0 },
        None => 0,
    }
}

} // verus!
