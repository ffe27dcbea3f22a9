//! Recommendations: which unplayed games in the library to try next.
//!
//! Four strategies score a candidate between 0 and 1 — genre affinity
//! weighted by playtime, a plain genre match, backlog age and recency of
//! purchase — and a combiner weights them 40/25/20/15 and ranks the
//! candidates.  Scores are exact fractions here; ranking compares them on a
//! common denominator, so no rounding can reorder two candidates.

use vstd::prelude::*;
use crate::background::{first_with_id, lemma_first_with_id};
use crate::text::{comma_tokens, split_trimmed, text_eq};
use crate::numfmt::{dec_int, push_i64, push_str};
use crate::dates::{cut_fits, days_since, days_since_spec};
use crate::background::dup_opt_string;
use crate::order::{sort_by_text, sort_desc_by_key, stable_by_text, stable_desc};

verus! {

/// An exact fraction `num / den`.
#[derive(Clone, Copy, Debug, PartialEq, Eq, Structural)]
pub struct Fraction {
    pub num: i128,
    pub den: i128,
}

/// `num / den` as a pair of mathematical integers.
pub open spec fn frac(num: int, den: int) -> (int, int) {
    (num, den)
}

impl Fraction {
    /// The fraction as a pair of integers.
    pub open spec fn pair(self) -> (int, int) {
        (self.num as int, self.den as int)
    }
}

/// A library game considered for recommendation.
pub struct Candidate {
    pub id: String,
    pub title: String,
    pub cover_path: Option<String>,
    pub genre: Option<String>,
    pub developer: Option<String>,
    pub publisher: Option<String>,
    pub status: String,
    pub total_playtime: i64,
    pub added_at: String,
    pub launch_count: i64,
}

/// What the strategies know of the player: seconds played per genre (one
/// entry per genre), the lifetime total, and the share of the library that
/// is completed.
pub struct UserContext {
    pub genre_playtime: Vec<(String, i64)>,
    pub total_playtime_secs: i64,
    pub completion_rate: Fraction,
}

/// The genre names of a playtime table.
pub open spec fn genre_keys(m: Seq<(String, i64)>) -> Seq<Seq<char>> {
    m.map_values(|e: (String, i64)| e.0@)
}

/// Seconds recorded for genre `g` (the first entry with that name), if any.
pub open spec fn playtime_of(m: Seq<(String, i64)>, g: Seq<char>) -> Option<i64> {
    let p = first_with_id(genre_keys(m), g);
    if p < m.len() { Some(m[p].1) } else { None }
}

/// Look up the seconds recorded for a genre.
pub fn lookup_playtime(m: &Vec<(String, i64)>, g: &str) -> (r: Option<i64>)
    ensures
        r == playtime_of(m@, g@),
{
    let mut i: usize = 0;
    while i < m.len()
        invariant
            i <= m@.len(),
            forall|j: int| 0 <= j < i ==> #[trigger] genre_keys(m@)[j] != g@,
        decreases m@.len() - i,
    {
        if text_eq(m[i].0.as_str(), g) {
            proof {
                lemma_first_with_id(genre_keys(m@), g@, i as int);
            }
            return Some(m[i].1);
        }
        i = i + 1;
    }
    proof {
        lemma_first_with_id(genre_keys(m@), g@, m@.len() as int);
    }
    None
}

/// Seconds recorded for the genres among `toks` (genres with no entry add
/// nothing).
pub open spec fn tokens_playtime(m: Seq<(String, i64)>, toks: Seq<Seq<char>>) -> int
    decreases toks.len(),
{
    if toks.len() == 0 {
        0
    } else {
        tokens_playtime(m, toks.drop_last()) + match playtime_of(m, toks.last()) {
            Some(p) => p as int,
            None => 0,
        }
    }
}

/// Whether some genre among `toks` has an entry.
pub open spec fn any_known(m: Seq<(String, i64)>, toks: Seq<Seq<char>>) -> bool {
    exists|i: int| 0 <= i < toks.len() && (#[trigger] playtime_of(m, toks[i])).is_some()
}

/// Content-based score: the share of all playtime spent in the candidate's
/// genres, at most 1; 0 without a genre or without any playtime.
pub open spec fn content_score(genre: Option<Seq<char>>, m: Seq<(String, i64)>, total: int) -> (int, int) {
    match genre {
        None => frac(0, 1),
        Some(g) => if total == 0 {
            frac(0, 1)
        } else {
            let pt = tokens_playtime(m, comma_tokens(g));
            let (n, d) = if total > 0 { (pt, total) } else { (-pt, -total) };
            if n >= d { frac(1, 1) } else { frac(n, d) }
        },
    }
}

/// Genre-match score: 1 when any of the candidate's genres has been played,
/// 0.5 for a player with no genre history, 0.3 for a game without genre.
pub open spec fn genre_score(genre: Option<Seq<char>>, m: Seq<(String, i64)>) -> (int, int) {
    match genre {
        None => frac(3, 10),
        Some(g) => if m.len() == 0 {
            frac(1, 2)
        } else if any_known(m, comma_tokens(g)) {
            frac(1, 1)
        } else {
            frac(0, 1)
        },
    }
}

proof fn lemma_playtime_found(m: Seq<(String, i64)>, g: Seq<char>)
    ensures
        playtime_of(m, g).is_some() <==> exists|j: int| 0 <= j < m.len() && (#[trigger] m[j]).0@ == g,
{
    let ids = genre_keys(m);
    if exists|j: int| 0 <= j < m.len() && (#[trigger] m[j]).0@ == g {
        let j = choose|j: int| 0 <= j < m.len() && (#[trigger] m[j]).0@ == g;
        lemma_first_index_found(ids, g, j);
    } else {
        assert forall|i: int| 0 <= i < ids.len() implies #[trigger] ids[i] != g by {
            assert(ids[i] == m[i].0@);
        }
        lemma_first_with_id(ids, g, ids.len() as int);
    }
}

proof fn lemma_first_index_found(ids: Seq<Seq<char>>, g: Seq<char>, j: int)
    requires
        0 <= j < ids.len(),
        ids[j] == g,
    ensures
        first_with_id(ids, g) <= j,
    decreases j,
{
    if ids[0] != g {
        assert(ids.drop_first()[j - 1] == g);
        lemma_first_index_found(ids.drop_first(), g, j - 1);
    }
}

/// A candidate matches the player's genres when any one of its genres — any
/// comma-separated, trimmed name, at any position — has an entry in a
/// non-empty genre history: the genre-match score is then 1, and otherwise 0.
pub proof fn lemma_genre_match_any_genre(g: Seq<char>, m: Seq<(String, i64)>)
    requires
        m.len() > 0,
    ensures
        genre_score(Some(g), m) == if exists|i: int, j: int|
            #![trigger comma_tokens(g)[i], m[j]]
            0 <= i < comma_tokens(g).len() && 0 <= j < m.len() && m[j].0@ == comma_tokens(g)[i] {
            (1int, 1int)
        } else {
            (0int, 1int)
        },
{
    let toks = comma_tokens(g);
    if exists|i: int, j: int|
        #![trigger toks[i], m[j]]
        0 <= i < toks.len() && 0 <= j < m.len() && m[j].0@ == toks[i] {
        let (i, j) = choose|i: int, j: int|
            #![trigger toks[i], m[j]]
            0 <= i < toks.len() && 0 <= j < m.len() && m[j].0@ == toks[i];
        lemma_playtime_found(m, toks[i]);
        assert(playtime_of(m, toks[i]).is_some());
    } else {
        assert forall|i: int| 0 <= i < toks.len() implies (#[trigger] playtime_of(m, toks[i])).is_none() by {
            lemma_playtime_found(m, toks[i]);
            if playtime_of(m, toks[i]).is_some() {
                let j = choose|j: int| 0 <= j < m.len() && (#[trigger] m[j]).0@ == toks[i];
                assert(0 <= i < toks.len() && 0 <= j < m.len() && m[j].0@ == toks[i]);
            }
        }
    }
}

/// The genre-match score does not depend on how the candidate's genres are
/// ordered: two genre strings with the same genre names score the same.
pub proof fn lemma_genre_match_order_free(g1: Seq<char>, g2: Seq<char>, m: Seq<(String, i64)>)
    requires
        forall|t: Seq<char>| comma_tokens(g1).contains(t) <==> comma_tokens(g2).contains(t),
    ensures
        genre_score(Some(g1), m) == genre_score(Some(g2), m),
{
    if m.len() > 0 {
        let t1 = comma_tokens(g1);
        let t2 = comma_tokens(g2);
        if any_known(m, t1) {
            let i = choose|i: int| 0 <= i < t1.len() && (#[trigger] playtime_of(m, t1[i])).is_some();
            assert(t1.contains(t1[i]));
            let k = choose|k: int| 0 <= k < t2.len() && t2[k] == t1[i];
            assert(playtime_of(m, t2[k]).is_some());
        }
        if any_known(m, t2) {
            let i = choose|i: int| 0 <= i < t2.len() && (#[trigger] playtime_of(m, t2[i])).is_some();
            assert(t2.contains(t2[i]));
            let k = choose|k: int| 0 <= k < t1.len() && t1[k] == t2[i];
            assert(playtime_of(m, t1[k]).is_some());
        }
    }
}

/// Backlog score: 1 for a game never launched nor played, 0.5 for one
/// launched without recorded playtime, 0 otherwise.
pub open spec fn backlog_score(playtime: int, launches: int) -> (int, int) {
    if playtime == 0 && launches == 0 {
        frac(1, 1)
    } else if playtime == 0 {
        frac(1, 2)
    } else {
        frac(0, 1)
    }
}

/// Recency score by days since the game was added: 1 within a week, then
/// linear to 0.5 at 30 days and to 0 at 365 days.
pub open spec fn recency_score(days: int) -> (int, int) {
    if days <= 7 {
        frac(1, 1)
    } else if days <= 30 {
        frac(53 - days, 46)
    } else if days <= 365 {
        frac(365 - days, 670)
    } else {
        frac(0, 1)
    }
}

/// Seconds recorded for genre `g`, 0 when it has no entry.
pub open spec fn playtime_or_zero(m: Seq<(String, i64)>, g: Seq<char>) -> int {
    match playtime_of(m, g) {
        Some(p) => p as int,
        None => 0,
    }
}

/// Position of the genre among `toks` with the most recorded seconds; the
/// last such one on ties (as `Iterator::max_by_key`).
pub open spec fn best_token_index(m: Seq<(String, i64)>, toks: Seq<Seq<char>>) -> int
    decreases toks.len(),
{
    if toks.len() <= 1 {
        0
    } else {
        let p = best_token_index(m, toks.drop_last());
        if playtime_or_zero(m, toks.last()) >= playtime_or_zero(m, toks[p]) {
            toks.len() - 1
        } else {
            p
        }
    }
}

/// Integer division rounding toward zero, as Rust's `/` on integers.
pub open spec fn div_trunc(a: int, b: int) -> int {
    if a >= 0 { a / b } else { -((-a) / b) }
}

/// Why the content-based strategy picked the game.
pub open spec fn content_reason(genre: Option<Seq<char>>, m: Seq<(String, i64)>) -> Seq<char> {
    match genre {
        None => "Matches your library style"@,
        Some(g) => {
            let toks = comma_tokens(g);
            let best = if toks.len() == 0 { g } else { toks[best_token_index(m, toks)] };
            let pt = playtime_or_zero(m, best);
            if pt == 0 {
                "A "@ + best + " game you haven't tried yet"@
            } else {
                "You've spent "@ + dec_int(div_trunc(pt, 3600)) + "h in "@ + best + " — give this one a go"@
            }
        },
    }
}

/// Why the genre-match strategy picked the game.
pub open spec fn genre_reason(genre: Option<Seq<char>>) -> Seq<char> {
    match genre {
        Some(g) => "In your favourite genre: "@ + g,
        None => "Something different to explore"@,
    }
}

/// Why the backlog strategy picked the game.
pub open spec fn backlog_reason(title: Seq<char>, launches: int) -> Seq<char> {
    if launches == 0 {
        "\""@ + title + "\" is sitting untouched in your library"@
    } else {
        "You started \""@ + title + "\" but never logged any playtime"@
    }
}

/// Why the recency strategy picked the game.
pub open spec fn recency_reason(title: Seq<char>, days: int) -> Seq<char> {
    if days <= 7 {
        "You added \""@ + title + "\" this week — give it a try!"@
    } else if days <= 30 {
        "Recently added to your library"@
    } else {
        "Been in your library for a while, still unplayed"@
    }
}

/// Optional string contents.
pub open spec fn opt_view(o: Option<String>) -> Option<Seq<char>> {
    match o {
        Some(s) => Some(s@),
        None => None,
    }
}

/// Sum the recorded seconds of the genres in `toks`.
fn sum_tokens(m: &Vec<(String, i64)>, toks: &Vec<String>) -> (r: i128)
    ensures
        r == tokens_playtime(m@, toks@.map_values(|t: String| t@)),
        -(toks@.len() as int) * 0x8000_0000_0000_0000 <= r <= (toks@.len() as int) * 0x7fff_ffff_ffff_ffff,
{
    let ghost tv = toks@.map_values(|t: String| t@);
    let mut acc: i128 = 0;
    let mut i: usize = 0;
    while i < toks.len()
        invariant
            i <= toks@.len(),
            tv == toks@.map_values(|t: String| t@),
            acc == tokens_playtime(m@, tv.take(i as int)),
            -(i as int) * 0x8000_0000_0000_0000 <= acc <= (i as int) * 0x7fff_ffff_ffff_ffff,
        decreases toks@.len() - i,
    {
        proof {
            assert(tv.take(i as int + 1).drop_last() =~= tv.take(i as int));
            assert(tv.take(i as int + 1).last() == toks@[i as int]@);
        }
        match lookup_playtime(m, toks[i].as_str()) {
            Some(p) => {
                acc = acc + p as i128;
            },
            None => {},
        }
        i = i + 1;
    }
    assert(tv.take(toks@.len() as int) =~= tv);
    acc
}

/// Scores a game by the share of playtime spent in its genres.
#[derive(Clone, Copy, Debug)]
pub struct ContentBasedStrategy;

impl ContentBasedStrategy {
    /// The strategy's name in a recommendation's breakdown.
    pub fn name(&self) -> (r: &'static str)
        ensures
            r@ == "content_based"@,
    {
        "content_based"
    }

    /// Content-based strategy score (`content_based`).
    pub fn score(&self, c: &Candidate, ctx: &UserContext) -> (s: Fraction)
        ensures
            s.pair() == content_score(opt_view(c.genre), ctx.genre_playtime@, ctx.total_playtime_secs as int),
    {
        match &c.genre {
            None => Fraction { num: 0, den: 1 },
            Some(g) => {
                if ctx.total_playtime_secs == 0 {
                    return Fraction { num: 0, den: 1 };
                }
                let toks = split_trimmed(g.as_str());
                let pt = sum_tokens(&ctx.genre_playtime, &toks);
                let tl = toks.len();
                assert(tl == toks@.len());
                let total = ctx.total_playtime_secs as i128;
                let (n, d) = if total > 0 { (pt, total) } else { (-pt, -total) };
                if n >= d {
                    Fraction { num: 1, den: 1 }
                } else {
                    Fraction { num: n, den: d }
                }
            },
        }
    }

    /// The content-based strategy's explanation.
    pub fn explain(&self, c: &Candidate, ctx: &UserContext) -> (r: String)
        ensures
            r@ == content_reason(opt_view(c.genre), ctx.genre_playtime@),
    {
        match &c.genre {
            None => "Matches your library style".to_string(),
            Some(g) => {
                let toks = split_trimmed(g.as_str());
                let ghost tv = toks@.map_values(|t: String| t@);
                let m = &ctx.genre_playtime;
                let mut r = String::new();
                if toks.len() == 0 {
                    r.append(g.as_str());
                } else {
                    let mut best: usize = 0;
                    let mut best_pt: i64 = match lookup_playtime(m, toks[0].as_str()) {
                        Some(p) => p,
                        None => 0,
                    };
                    let mut i: usize = 1;
                    proof {
                        assert(tv.take(1).len() == 1);
                    }
                    while i < toks.len()
                        invariant
                            1 <= i <= toks@.len(),
                            tv == toks@.map_values(|t: String| t@),
                            best < i,
                            best as int == best_token_index(m@, tv.take(i as int)),
                            best_pt as int == playtime_or_zero(m@, tv[best as int]),
                        decreases toks@.len() - i,
                    {
                        let p = match lookup_playtime(m, toks[i].as_str()) {
                            Some(p) => p,
                            None => 0,
                        };
                        proof {
                            let t = tv.take(i as int + 1);
                            assert(t.drop_last() =~= tv.take(i as int));
                            assert(t.last() == tv[i as int]);
                            assert(tv.take(i as int)[best as int] == tv[best as int]);
                        }
                        if p >= best_pt {
                            best = i;
                            best_pt = p;
                        }
                        i = i + 1;
                    }
                    proof {
                        assert(tv.take(toks@.len() as int) =~= tv);
                    }
                    r.append(toks[best].as_str());
                }
                let best_name = r;
                let pt = match lookup_playtime(m, best_name.as_str()) {
                    Some(p) => p,
                    None => 0,
                };
                let mut out = String::new();
                if pt == 0 {
                    push_str(&mut out, "A ");
                    push_str(&mut out, best_name.as_str());
                    push_str(&mut out, " game you haven't tried yet");
                } else {
                    let hours: i64 = if pt >= 0 { pt / 3600 } else { -((-(pt as i128)) / 3600) as i64 };
                    push_str(&mut out, "You've spent ");
                    push_i64(&mut out, hours);
                    push_str(&mut out, "h in ");
                    push_str(&mut out, best_name.as_str());
                    push_str(&mut out, " — give this one a go");
                }
                out
            },
        }
    }
}

/// Scores a game by whether one of its genres has been played.
#[derive(Clone, Copy, Debug)]
pub struct GenreStrategy;

impl GenreStrategy {
    /// The strategy's name in a recommendation's breakdown.
    pub fn name(&self) -> (r: &'static str)
        ensures
            r@ == "genre_match"@,
    {
        "genre_match"
    }

    /// Genre-match strategy score (`genre_match`).
    pub fn score(&self, c: &Candidate, ctx: &UserContext) -> (s: Fraction)
        ensures
            s.pair() == genre_score(opt_view(c.genre), ctx.genre_playtime@),
    {
        match &c.genre {
            None => Fraction { num: 3, den: 10 },
            Some(g) => {
                if ctx.genre_playtime.len() == 0 {
                    return Fraction { num: 1, den: 2 };
                }
                let toks = split_trimmed(g.as_str());
                let ghost tv = toks@.map_values(|t: String| t@);
                let mut i: usize = 0;
                while i < toks.len()
                    invariant
                        i <= toks@.len(),
                        tv == toks@.map_values(|t: String| t@),
                        tv == comma_tokens(g@),
                        opt_view(c.genre) == Some(g@),
                        ctx.genre_playtime@.len() > 0,
                        forall|j: int| 0 <= j < i ==> (#[trigger] playtime_of(ctx.genre_playtime@, tv[j])).is_none(),
                    decreases toks@.len() - i,
                {
                    if lookup_playtime(&ctx.genre_playtime, toks[i].as_str()).is_some() {
                        assert(playtime_of(ctx.genre_playtime@, tv[i as int]).is_some());
                        assert(any_known(ctx.genre_playtime@, comma_tokens(g@)));
                        return Fraction { num: 1, den: 1 };
                    }
                    i = i + 1;
                }
                Fraction { num: 0, den: 1 }
            },
        }
    }

    /// The genre-match strategy's explanation.
    pub fn explain(&self, c: &Candidate, _ctx: &UserContext) -> (r: String)
        ensures
            r@ == genre_reason(opt_view(c.genre)),
    {
        match &c.genre {
            Some(g) => {
                let mut out = String::new();
                push_str(&mut out, "In your favourite genre: ");
                push_str(&mut out, g.as_str());
                out
            },
            None => "Something different to explore".to_string(),
        }
    }
}

/// Scores a game by how untouched it is in the backlog.
#[derive(Clone, Copy, Debug)]
pub struct PlaytimeStrategy;

impl PlaytimeStrategy {
    /// The strategy's name in a recommendation's breakdown.
    pub fn name(&self) -> (r: &'static str)
        ensures
            r@ == "unplayed_backlog"@,
    {
        "unplayed_backlog"
    }

    /// Backlog strategy score (`unplayed_backlog`).
    pub fn score(&self, c: &Candidate, _ctx: &UserContext) -> (s: Fraction)
        ensures
            s.pair() == backlog_score(c.total_playtime as int, c.launch_count as int),
    {
        if c.total_playtime == 0 && c.launch_count == 0 {
            Fraction { num: 1, den: 1 }
        } else if c.total_playtime == 0 {
            Fraction { num: 1, den: 2 }
        } else {
            Fraction { num: 0, den: 1 }
        }
    }

    /// The backlog strategy's explanation.
    pub fn explain(&self, c: &Candidate, _ctx: &UserContext) -> (r: String)
        ensures
            r@ == backlog_reason(c.title@, c.launch_count as int),
    {
        let mut out = String::new();
        if c.launch_count == 0 {
            push_str(&mut out, "\"");
            push_str(&mut out, c.title.as_str());
            push_str(&mut out, "\" is sitting untouched in your library");
        } else {
            push_str(&mut out, "You started \"");
            push_str(&mut out, c.title.as_str());
            push_str(&mut out, "\" but never logged any playtime");
        }
        out
    }
}

/// Scores a game by how recently it was added.
#[derive(Clone, Copy, Debug)]
pub struct RecencyStrategy;

impl RecencyStrategy {
    /// The strategy's name in a recommendation's breakdown.
    pub fn name(&self) -> (r: &'static str)
        ensures
            r@ == "recently_added"@,
    {
        "recently_added"
    }

    /// Recency strategy score (`recently_added`); `today` is a day number.
    pub fn score(&self, c: &Candidate, today: i32) -> (s: Fraction)
        requires
            cut_fits(c.added_at@, 10),
        ensures
            s.pair() == recency_score(days_since_spec(c.added_at@, today as int)),
    {
        let d = days_since(c.added_at.as_str(), today);
        if d <= 7 {
            Fraction { num: 1, den: 1 }
        } else if d <= 30 {
            Fraction { num: 53 - d as i128, den: 46 }
        } else if d <= 365 {
            Fraction { num: 365 - d as i128, den: 670 }
        } else {
            Fraction { num: 0, den: 1 }
        }
    }

    /// The recency strategy's explanation; `today` is a day number.
    pub fn explain(&self, c: &Candidate, today: i32) -> (r: String)
        requires
            cut_fits(c.added_at@, 10),
        ensures
            r@ == recency_reason(c.title@, days_since_spec(c.added_at@, today as int)),
    {
        let d = days_since(c.added_at.as_str(), today);
        if d <= 7 {
            let mut out = String::new();
            push_str(&mut out, "You added \"");
            push_str(&mut out, c.title.as_str());
            push_str(&mut out, "\" this week — give it a try!");
            out
        } else if d <= 30 {
            "Recently added to your library".to_string()
        } else {
            "Been in your library for a while, still unplayed".to_string()
        }
    }
}

/// Common denominator of the non-content strategy scores (10, 2, 46 and 670
/// all divide it).
pub const SCORE_UNIT: u128 = 15410;

/// Denominator on which content scores of one player are counted: the
/// absolute lifetime playtime (1 without playtime).
pub open spec fn content_den(total: int) -> int {
    if total == 0 {
        1
    } else if total > 0 {
        total
    } else {
        -total
    }
}

/// The content score clamped to 0..1, as a numerator over `content_den`.
pub open spec fn content_units(genre: Option<Seq<char>>, m: Seq<(String, i64)>, total: int) -> int {
    match genre {
        None => 0,
        Some(g) => if total == 0 {
            0
        } else {
            let pt = tokens_playtime(m, comma_tokens(g));
            let n = if total > 0 { pt } else { -pt };
            if n < 0 {
                0
            } else if n > content_den(total) {
                content_den(total)
            } else {
                n
            }
        },
    }
}

/// A score in `SCORE_UNIT`ths.
pub open spec fn units(f: (int, int)) -> int {
    SCORE_UNIT * f.0 / f.1
}

/// Every strategy counts toward the composite with a score between 0 and
/// 1: the content share is clamped to `0..=content_den`, and the genre,
/// backlog and recency scores lie between 0 and `SCORE_UNIT` units, for
/// any candidate, player profile and day.
pub proof fn lemma_strategy_scores_in_unit_range(c: Candidate, ctx: UserContext, today: int)
    ensures
        0 <= content_units(opt_view(c.genre), ctx.genre_playtime@, ctx.total_playtime_secs as int) <= content_den(
            ctx.total_playtime_secs as int,
        ),
        0 <= units(genre_score(opt_view(c.genre), ctx.genre_playtime@)) <= SCORE_UNIT,
        0 <= units(backlog_score(c.total_playtime as int, c.launch_count as int)) <= SCORE_UNIT,
        0 <= units(recency_score(days_since_spec(c.added_at@, today))) <= SCORE_UNIT,
{
    let d = days_since_spec(c.added_at@, today);
    assert(d >= 0);
    assert(15410 * 3 / 10 == 4623);
    assert(15410 * 1 / 2 == 7705);
    assert(15410 * 1 / 1 == 15410);
    assert(15410 * 0 / 1 == 0);
    if 7 < d && d <= 30 {
        let x = 53 - d;
        assert(15410 * x / 46 == 335 * x) by (nonlinear_arith);
    } else if 30 < d && d <= 365 {
        let x = 365 - d;
        assert(15410 * x / 670 == 23 * x) by (nonlinear_arith);
    }
}

/// Strategy weights: content, genre, backlog, recency.
pub struct Weights {
    pub content: u32,
    pub genre: u32,
    pub backlog: u32,
    pub recency: u32,
}

impl Weights {
    pub open spec fn total(self) -> int {
        self.content + self.genre + self.backlog + self.recency
    }
}

/// The weighted contributions of the four strategies to a candidate's score,
/// all counted in `1 / (SCORE_UNIT * content_den)`.
pub open spec fn contributions(w: Weights, c: Candidate, ctx: UserContext, today: int) -> Seq<int> {
    let total = ctx.total_playtime_secs as int;
    let m = ctx.genre_playtime@;
    let d = content_den(total);
    seq![
        w.content * SCORE_UNIT * content_units(opt_view(c.genre), m, total),
        w.genre * units(genre_score(opt_view(c.genre), m)) * d,
        w.backlog * units(backlog_score(c.total_playtime as int, c.launch_count as int)) * d,
        w.recency * units(recency_score(days_since_spec(c.added_at@, today))) * d
    ]
}

/// Sum of the weighted contributions: the composite score is this over
/// `total weight * SCORE_UNIT * content_den`.
pub open spec fn composite(ws: Seq<int>) -> int {
    ws[0] + ws[1] + ws[2] + ws[3]
}

/// The strategy with the largest weighted contribution — the first of equal
/// ones — provided it is above 0.
pub open spec fn best_index(ws: Seq<int>) -> Option<int>
    decreases ws.len(),
{
    if ws.len() == 0 {
        None
    } else {
        let p = best_index(ws.drop_last());
        let pv = match p {
            Some(i) => ws[i],
            None => 0,
        };
        if ws.last() > pv { Some(ws.len() - 1) } else { p }
    }
}

/// The explanation shown for a recommendation.
pub open spec fn reason_for(w: Weights, c: Candidate, ctx: UserContext, today: int) -> Seq<char> {
    match best_index(contributions(w, c, ctx, today)) {
        Some(i) => if i == 0 {
            content_reason(opt_view(c.genre), ctx.genre_playtime@)
        } else if i == 1 {
            genre_reason(opt_view(c.genre))
        } else if i == 2 {
            backlog_reason(c.title@, c.launch_count as int)
        } else {
            recency_reason(c.title@, days_since_spec(c.added_at@, today))
        },
        None => "Worth a look from your backlog"@,
    }
}

/// One strategy's part in a recommendation.
pub struct StrategyContribution {
    pub strategy: String,
    pub score: Fraction,
    pub weight: u32,
}

/// A recommended game with its composite score and explanation.
pub struct RecommendationResult {
    pub game_id: String,
    pub title: String,
    pub cover_path: Option<String>,
    pub genre: Option<String>,
    pub developer: Option<String>,
    pub status: String,
    pub score: Fraction,
    pub reason: String,
    pub strategy_contributions: Vec<StrategyContribution>,
}

/// A non-negative score `n / d` rounded to thousandths (half up), as the
/// numerator over 1000; 0 without weight.
pub open spec fn thousandths(n: int, d: int) -> int {
    if d > 0 { (2000 * n + d) / (2 * d) } else { 0 }
}

/// A contribution record with the given name, raw score and weight.
pub open spec fn contribution_is(k: StrategyContribution, name: Seq<char>, score: (int, int), weight: u32) -> bool {
    k.strategy@ == name && k.score.pair() == score && k.weight == weight
}

/// `r` is the recommendation the combiner with weights `w` makes of `c`.
pub open spec fn result_for(r: RecommendationResult, w: Weights, c: Candidate, ctx: UserContext, today: int) -> bool {
    let total = ctx.total_playtime_secs as int;
    let m = ctx.genre_playtime@;
    let ks = r.strategy_contributions@;
    &&& r.game_id@ == c.id@
    &&& r.title@ == c.title@
    &&& opt_view(r.cover_path) == opt_view(c.cover_path)
    &&& opt_view(r.genre) == opt_view(c.genre)
    &&& opt_view(r.developer) == opt_view(c.developer)
    &&& r.status@ == c.status@
    &&& r.score.pair() == (thousandths(composite(contributions(w, c, ctx, today)), w.total() * SCORE_UNIT * content_den(total)), 1000int)
    &&& r.reason@ == reason_for(w, c, ctx, today)
    &&& ks.len() == 4
    &&& contribution_is(ks[0], "content_based"@, (content_units(opt_view(c.genre), m, total), content_den(total)), w.content)
    &&& contribution_is(ks[1], "genre_match"@, genre_score(opt_view(c.genre), m), w.genre)
    &&& contribution_is(ks[2], "unplayed_backlog"@, backlog_score(c.total_playtime as int, c.launch_count as int), w.backlog)
    &&& contribution_is(ks[3], "recently_added"@, recency_score(days_since_spec(c.added_at@, today)), w.recency)
}

proof fn lemma_mul_bound(a: int, b: int, x: int, y: int)
    by (nonlinear_arith)
    requires
        0 <= a <= x,
        0 <= b <= y,
    ensures
        0 <= a * b <= x * y,
{
}

/// A strategy score in `SCORE_UNIT`ths.
fn units_of(f: Fraction) -> (u: u128)
    requires
        f.den == 1 || f.den == 2 || f.den == 10 || f.den == 46 || f.den == 670,
        0 <= f.num <= f.den,
    ensures
        u == units(f.pair()),
        u <= SCORE_UNIT,
{
    let n = f.num as u128;
    if f.den == 1 {
        assert(15410 * n / 1 == 15410 * n);
        15410 * n
    } else if f.den == 2 {
        assert(15410 * n / 2 == 7705 * n) by (nonlinear_arith) requires n <= 2;
        7705 * n
    } else if f.den == 10 {
        assert(15410 * n / 10 == 1541 * n) by (nonlinear_arith) requires n <= 10;
        1541 * n
    } else if f.den == 46 {
        assert(15410 * n / 46 == 335 * n) by (nonlinear_arith) requires n <= 46;
        335 * n
    } else {
        assert(15410 * n / 670 == 23 * n) by (nonlinear_arith) requires n <= 670;
        23 * n
    }
}

impl Candidate {
    /// The content score clamped to 0..1, counted over `content_den`.
    fn content_units_exec(&self, ctx: &UserContext) -> (r: (u128, u128))
        ensures
            r.0 == content_units(opt_view(self.genre), ctx.genre_playtime@, ctx.total_playtime_secs as int),
            r.1 == content_den(ctx.total_playtime_secs as int),
            r.0 <= r.1,
            1 <= r.1 <= 0x8000_0000_0000_0000,
    {
        let total = ctx.total_playtime_secs as i128;
        let d: i128 = if total == 0 { 1 } else if total > 0 { total } else { -total };
        match &self.genre {
            None => (0, d as u128),
            Some(g) => {
                if total == 0 {
                    return (0, 1);
                }
                let toks = split_trimmed(g.as_str());
                let pt = sum_tokens(&ctx.genre_playtime, &toks);
                let tl = toks.len();
                assert(tl == toks@.len());
                let n = if total > 0 { pt } else { -pt };
                let c = if n < 0 { 0 } else if n > d { d } else { n };
                (c as u128, d as u128)
            },
        }
    }
}

/// The composite numerators of a list of candidates.
pub open spec fn candidate_keys(w: Weights, cs: Seq<Candidate>, ctx: UserContext, today: int) -> Seq<int> {
    cs.map_values(|c: Candidate| composite(contributions(w, c, ctx, today)))
}

/// Positions whose key is above 0, in order.
pub open spec fn positive_positions(keys: Seq<int>) -> Seq<int>
    decreases keys.len(),
{
    if keys.len() == 0 {
        Seq::empty()
    } else {
        positive_positions(keys.drop_last()) + if keys.last() > 0 {
            seq![keys.len() - 1]
        } else {
            Seq::empty()
        }
    }
}

/// The keys at the given positions.
pub open spec fn keys_at(keys: Seq<int>, pos: Seq<int>) -> Seq<u128> {
    pos.map_values(|i: int| keys[i] as u128)
}

/// Every candidate's stored date can be cut to its date part.
pub open spec fn dates_cut(cs: Seq<Candidate>) -> bool {
    forall|i: int| 0 <= i < cs.len() ==> cut_fits((#[trigger] cs[i]).added_at@, 10)
}

/// How a combiner weighs the four strategies.
pub struct StrategyCombiner {
    weights: Weights,
}

impl StrategyCombiner {
    /// The weights in use.
    pub closed spec fn weights(&self) -> Weights {
        self.weights
    }

    /// A combiner with the given weights (content, genre, backlog, recency).
    pub fn new(weights: Weights) -> (c: Self)
        ensures
            c.weights() == weights,
    {
        StrategyCombiner { weights }
    }

    /// The production weights: content 40, genre 25, backlog 20, recency 15.
    pub fn default_combiner() -> (c: Self)
        ensures
            c.weights() == (Weights { content: 40, genre: 25, backlog: 20, recency: 15 }),
    {
        StrategyCombiner { weights: Weights { content: 40, genre: 25, backlog: 20, recency: 15 } }
    }

    /// Score one candidate: its composite numerator and its recommendation.
    pub fn score_candidate(&self, c: &Candidate, ctx: &UserContext, today: i32) -> (r: (u128, RecommendationResult))
        requires
            cut_fits(c.added_at@, 10),
        ensures
            r.0 == composite(contributions(self.weights(), *c, *ctx, today as int)),
            result_for(r.1, self.weights(), *c, *ctx, today as int),
    {
        let w = &self.weights;
        let ghost ws = contributions(*w, *c, *ctx, today as int);
        let (cu, d) = c.content_units_exec(ctx);
        let gf = GenreStrategy.score(c, ctx);
        let bf = PlaytimeStrategy.score(c, ctx);
        let rf = RecencyStrategy.score(c, today);
        let gu = units_of(gf);
        let bu = units_of(bf);
        let ru = units_of(rf);
        proof {
            lemma_mul_bound(w.content as int, SCORE_UNIT as int, 0xffff_ffff, SCORE_UNIT as int);
            lemma_mul_bound(w.content as int * SCORE_UNIT, cu as int, 0xffff_ffff * SCORE_UNIT, 0x8000_0000_0000_0000);
            lemma_mul_bound(w.genre as int, gu as int, 0xffff_ffff, SCORE_UNIT as int);
            lemma_mul_bound(w.genre as int * gu, d as int, 0xffff_ffff * SCORE_UNIT, 0x8000_0000_0000_0000);
            lemma_mul_bound(w.backlog as int, bu as int, 0xffff_ffff, SCORE_UNIT as int);
            lemma_mul_bound(w.backlog as int * bu, d as int, 0xffff_ffff * SCORE_UNIT, 0x8000_0000_0000_0000);
            lemma_mul_bound(w.recency as int, ru as int, 0xffff_ffff, SCORE_UNIT as int);
            lemma_mul_bound(w.recency as int * ru, d as int, 0xffff_ffff * SCORE_UNIT, 0x8000_0000_0000_0000);
        }
        let cw = w.content as u128 * SCORE_UNIT * cu;
        let gw = w.genre as u128 * gu * d;
        let bw = w.backlog as u128 * bu * d;
        let rw = w.recency as u128 * ru * d;
        let key = cw + gw + bw + rw;
        assert(ws == seq![cw as int, gw as int, bw as int, rw as int]);
        let mut best: u128 = 0;
        let mut which: usize = 4;
        if cw > best {
            best = cw;
            which = 0;
        }
        if gw > best {
            best = gw;
            which = 1;
        }
        if bw > best {
            best = bw;
            which = 2;
        }
        if rw > best {
            which = 3;
        }
        proof {
            reveal_with_fuel(best_index, 5);
            assert(ws.drop_last() =~= seq![cw as int, gw as int, bw as int]);
            assert(ws.drop_last().drop_last() =~= seq![cw as int, gw as int]);
            assert(ws.drop_last().drop_last().drop_last() =~= seq![cw as int]);
            assert(ws.drop_last().drop_last().drop_last().drop_last() =~= Seq::<int>::empty());
            if which == 4 {
                assert(best_index(ws) == None::<int>);
            } else {
                assert(best_index(ws) == Some(which as int));
            }
        }
        let reason = if which == 0 {
            ContentBasedStrategy.explain(c, ctx)
        } else if which == 1 {
            GenreStrategy.explain(c, ctx)
        } else if which == 2 {
            PlaytimeStrategy.explain(c, ctx)
        } else if which == 3 {
            RecencyStrategy.explain(c, today)
        } else {
            "Worth a look from your backlog".to_string()
        };
        let wsum = w.content as u128 + w.genre as u128 + w.backlog as u128 + w.recency as u128;
        proof {
            lemma_mul_bound(wsum as int, SCORE_UNIT as int, 4 * 0xffff_ffffint, SCORE_UNIT as int);
            lemma_mul_bound(wsum as int * SCORE_UNIT, d as int, 4 * 0xffff_ffffint * SCORE_UNIT, 0x8000_0000_0000_0000);
        }
        let den = wsum * SCORE_UNIT * d;
        assert(key <= 4 * (0xffff_ffffint * SCORE_UNIT * 0x8000_0000_0000_0000));
        let rounded: u128 = if den > 0 { (2000 * key + den) / (2 * den) } else { 0 };
        assert(rounded <= 2000 * key + den) by {
            if den > 0 {
                assert((2000 * key + den) / (2 * den) <= 2000 * key + den) by (nonlinear_arith)
                    requires den > 0;
            }
        }
        let mut ks: Vec<StrategyContribution> = Vec::new();
        ks.push(StrategyContribution { strategy: "content_based".to_string(), score: Fraction { num: cu as i128, den: d as i128 }, weight: w.content });
        ks.push(StrategyContribution { strategy: "genre_match".to_string(), score: gf, weight: w.genre });
        ks.push(StrategyContribution { strategy: "unplayed_backlog".to_string(), score: bf, weight: w.backlog });
        ks.push(StrategyContribution { strategy: "recently_added".to_string(), score: rf, weight: w.recency });
        let result = RecommendationResult {
            game_id: c.id.clone(),
            title: c.title.clone(),
            cover_path: dup_opt_string(&c.cover_path),
            genre: dup_opt_string(&c.genre),
            developer: dup_opt_string(&c.developer),
            status: c.status.clone(),
            score: Fraction { num: rounded as i128, den: 1000 },
            reason,
            strategy_contributions: ks,
        };
        (key, result)
    }

    /// Score every candidate, drop those scoring 0, order the rest by
    /// score (highest first, ties in candidate order) and keep the first
    /// `limit`.
    pub fn rank(&self, candidates: &Vec<Candidate>, ctx: &UserContext, today: i32, limit: usize) -> (r: Vec<RecommendationResult>)
        requires
            dates_cut(candidates@),
        ensures
            ({
                let keys = candidate_keys(self.weights(), candidates@, *ctx, today as int);
                let kept = positive_positions(keys);
                exists|order: Seq<usize>| #[trigger] stable_desc(keys_at(keys, kept), order)
                    && r@.len() == (if limit < kept.len() { limit as int } else { kept.len() as int })
                    && forall|j: int| 0 <= j < r@.len() ==> result_for(#[trigger] r@[j], self.weights(), candidates@[kept[order[j] as int]], *ctx, today as int)
            }),
    {
        let ghost keys_all = candidate_keys(self.weights(), candidates@, *ctx, today as int);
        let mut keys: Vec<u128> = Vec::new();
        let mut pos: Vec<usize> = Vec::new();
        let mut i: usize = 0;
        while i < candidates.len()
            invariant
                i <= candidates@.len(),
                dates_cut(candidates@),
                keys_all == candidate_keys(self.weights(), candidates@, *ctx, today as int),
                pos@.map_values(|p: usize| p as int) == positive_positions(keys_all.take(i as int)),
                keys@ == keys_at(keys_all, positive_positions(keys_all.take(i as int))),
                forall|j: int| 0 <= j < pos@.len() ==> #[trigger] pos@[j] < i,
            decreases candidates@.len() - i,
        {
            assert(cut_fits(candidates@[i as int].added_at@, 10));
            let (k, _) = self.score_candidate(&candidates[i], ctx, today);
            let ghost old_pos = pos@;
            let ghost t = keys_all.take(i as int + 1);
            proof {
                assert(t.drop_last() =~= keys_all.take(i as int));
                assert(t.last() == keys_all[i as int]);
                assert(keys_all[i as int] == k);
            }
            if k > 0 {
                keys.push(k);
                pos.push(i);
                proof {
                    assert(pos@.map_values(|p: usize| p as int) =~= old_pos.map_values(|p: usize| p as int).push(i as int));
                    assert(positive_positions(t) =~= positive_positions(keys_all.take(i as int)).push(i as int));
                    assert(keys@ =~= keys_at(keys_all, positive_positions(t)));
                }
            } else {
                proof {
                    assert(positive_positions(t) =~= positive_positions(keys_all.take(i as int)));
                }
            }
            i = i + 1;
        }
        proof {
            assert(keys_all.take(candidates@.len() as int) =~= keys_all);
        }
        let ghost kept = positive_positions(keys_all);
        let order = sort_desc_by_key(&keys);
        let n = if limit < order.len() { limit } else { order.len() };
        let mut out: Vec<RecommendationResult> = Vec::new();
        let mut j: usize = 0;
        while j < n
            invariant
                n <= order@.len(),
                order@.len() == keys@.len(),
                keys@.len() == pos@.len(),
                pos@.map_values(|p: usize| p as int) == kept,
                forall|q: int| 0 <= q < pos@.len() ==> #[trigger] pos@[q] < candidates@.len(),
                stable_desc(keys@, order@),
                dates_cut(candidates@),
                j <= n,
                out@.len() == j,
                forall|q: int| 0 <= q < j ==> result_for(#[trigger] out@[q], self.weights(), candidates@[kept[order@[q] as int]], *ctx, today as int),
            decreases n - j,
        {
            let o = order[j];
            assert(o < pos@.len());
            let p = pos[o];
            assert(kept[o as int] == p);
            assert(cut_fits(candidates@[p as int].added_at@, 10));
            let (_, res) = self.score_candidate(&candidates[p], ctx, today);
            out.push(res);
            j = j + 1;
        }
        assert(stable_desc(keys_at(keys_all, kept), order@));
        out
    }
}

impl Candidate {
    /// A field-by-field copy.
    pub fn duplicate(&self) -> (r: Candidate)
        ensures
            r == *self,
    {
        Candidate {
            id: self.id.clone(),
            title: self.title.clone(),
            cover_path: dup_opt_string(&self.cover_path),
            genre: dup_opt_string(&self.genre),
            developer: dup_opt_string(&self.developer),
            publisher: dup_opt_string(&self.publisher),
            status: self.status.clone(),
            total_playtime: self.total_playtime,
            added_at: self.added_at.clone(),
            launch_count: self.launch_count,
        }
    }
}

/// A game that can be recommended: unplayed, or marked playing without any
/// recorded playtime.
pub open spec fn is_candidate(c: Candidate) -> bool {
    c.status@ == "unplayed"@ || (c.status@ == "playing"@ && c.total_playtime == 0)
}

/// Positions of the recommendable games, in order.
pub open spec fn candidate_positions(gs: Seq<Candidate>) -> Seq<int>
    decreases gs.len(),
{
    if gs.len() == 0 {
        Seq::empty()
    } else {
        candidate_positions(gs.drop_last()) + if is_candidate(gs.last()) {
            seq![gs.len() - 1]
        } else {
            Seq::empty()
        }
    }
}

proof fn lemma_candidate_positions(gs: Seq<Candidate>)
    ensures
        forall|k: int| 0 <= k < candidate_positions(gs).len() ==> 0 <= #[trigger] candidate_positions(gs)[k] < gs.len()
            && is_candidate(gs[candidate_positions(gs)[k]]),
        forall|p: int| 0 <= p < gs.len() && is_candidate(#[trigger] gs[p]) ==> candidate_positions(gs).contains(p),
    decreases gs.len(),
{
    if gs.len() > 0 {
        let init = gs.drop_last();
        lemma_candidate_positions(init);
        let pi = candidate_positions(init);
        assert forall|k: int| 0 <= k < pi.len() implies #[trigger] init[pi[k]] == gs[pi[k]] by {}
        assert forall|p: int| 0 <= p < gs.len() && is_candidate(#[trigger] gs[p]) implies candidate_positions(gs).contains(p) by {
            if p < gs.len() - 1 {
                assert(init[p] == gs[p]);
                let k = choose|k: int| 0 <= k < pi.len() && pi[k] == p;
                assert(candidate_positions(gs)[k] == p);
            } else {
                assert(candidate_positions(gs)[pi.len() as int] == p);
            }
        }
    }
}

/// The `added_at` texts of the games at `pos`.
pub open spec fn added_keys(gs: Seq<Candidate>, pos: Seq<int>) -> Seq<Seq<char>> {
    pos.map_values(|p: int| gs[p].added_at@)
}

/// The recommendable games of a library, most recently added first (equal
/// dates keep library order).
pub fn fetch_candidates(games: &Vec<Candidate>) -> (r: Vec<Candidate>)
    ensures
        ({
            let pos = candidate_positions(games@);
            exists|order: Seq<usize>| #[trigger] stable_by_text(added_keys(games@, pos), order, true)
                && r@ == order.map_values(|k: usize| games@[pos[k as int]])
        }),
        forall|i: int| 0 <= i < r@.len() ==> is_candidate(#[trigger] r@[i]),
        r@.len() == games@.filter(|g: Candidate| is_candidate(g)).len(),
{
    let mut pos: Vec<usize> = Vec::new();
    let mut keys: Vec<String> = Vec::new();
    let mut i: usize = 0;
    while i < games.len()
        invariant
            i <= games@.len(),
            pos@.map_values(|p: usize| p as int) == candidate_positions(games@.take(i as int)),
            keys@.map_values(|k: String| k@) == added_keys(games@, candidate_positions(games@.take(i as int))),
            forall|j: int| 0 <= j < pos@.len() ==> #[trigger] pos@[j] < i,
        decreases games@.len() - i,
    {
        let g = &games[i];
        let keep = text_eq(g.status.as_str(), "unplayed") || (text_eq(g.status.as_str(), "playing")
            && g.total_playtime == 0);
        let ghost t = games@.take(i as int + 1);
        let ghost old_pos = pos@;
        let ghost old_keys = keys@;
        proof {
            assert(t.drop_last() =~= games@.take(i as int));
            assert(t.last() == games@[i as int]);
        }
        if keep {
            pos.push(i);
            keys.push(g.added_at.clone());
            proof {
                assert(candidate_positions(t) =~= candidate_positions(games@.take(i as int)).push(i as int));
                assert(pos@.map_values(|p: usize| p as int) =~= old_pos.map_values(|p: usize| p as int).push(i as int));
                assert(keys@.map_values(|k: String| k@) =~= old_keys.map_values(|k: String| k@).push(games@[i as int].added_at@));
                assert(added_keys(games@, candidate_positions(t)) =~= added_keys(games@, candidate_positions(games@.take(i as int))).push(games@[i as int].added_at@));
            }
        } else {
            proof {
                assert(candidate_positions(t) =~= candidate_positions(games@.take(i as int)));
            }
        }
        i = i + 1;
    }
    proof {
        assert(games@.take(games@.len() as int) =~= games@);
    }
    let ghost pv = candidate_positions(games@);
    let order = sort_by_text(&keys, true);
    let mut r: Vec<Candidate> = Vec::new();
    let mut k: usize = 0;
    while k < order.len()
        invariant
            k <= order@.len(),
            order@.len() == keys@.len(),
            keys@.len() == pos@.len(),
            pos@.map_values(|p: usize| p as int) == pv,
            forall|j: int| 0 <= j < pos@.len() ==> #[trigger] pos@[j] < games@.len(),
            forall|j: int| 0 <= j < order@.len() ==> #[trigger] order@[j] < keys@.len(),
            r@ == order@.take(k as int).map_values(|q: usize| games@[pv[q as int]]),
        decreases order@.len() - k,
    {
        let q = order[k];
        let p = pos[q];
        assert(pv[q as int] == p);
        r.push(games[p].duplicate());
        proof {
            assert(order@.take(k as int + 1) =~= order@.take(k as int).push(q));
            assert(order@.take(k as int + 1).map_values(|q: usize| games@[pv[q as int]]) =~= order@.take(k as int).map_values(|q: usize| games@[pv[q as int]]).push(games@[p as int]));
        }
        k = k + 1;
    }
    proof {
        assert(order@.take(order@.len() as int) =~= order@);
        assert(keys@.map_values(|k: String| k@) == added_keys(games@, pv));
        assert(stable_by_text(added_keys(games@, pv), order@, true));
        lemma_candidate_positions(games@);
        assert forall|i: int| 0 <= i < r@.len() implies is_candidate(#[trigger] r@[i]) by {
            assert(r@[i] == games@[pv[order@[i] as int]]);
        }
        lemma_candidate_count(games@);
    }
    r
}

proof fn lemma_candidate_count(gs: Seq<Candidate>)
    ensures
        candidate_positions(gs).len() == gs.filter(|g: Candidate| is_candidate(g)).len(),
    decreases gs.len(),
{
    reveal(Seq::filter);
    if gs.len() > 0 {
        lemma_candidate_count(gs.drop_last());
    }
}

/// No genre has two entries.
pub open spec fn distinct_genres(m: Seq<(String, i64)>) -> bool {
    forall|i: int, j: int| 0 <= i < j < m.len() ==> m[i].0@ != m[j].0@
}

proof fn lemma_first_with_id_props(ids: Seq<Seq<char>>, id: Seq<char>)
    ensures
        0 <= first_with_id(ids, id) <= ids.len(),
        forall|j: int| 0 <= j < first_with_id(ids, id) ==> #[trigger] ids[j] != id,
        first_with_id(ids, id) < ids.len() ==> ids[first_with_id(ids, id)] == id,
    decreases ids.len(),
{
    if ids.len() > 0 && ids[0] != id {
        lemma_first_with_id_props(ids.drop_first(), id);
        assert forall|j: int| 0 <= j < first_with_id(ids, id) implies #[trigger] ids[j] != id by {
            if j > 0 {
                assert(ids[j] == ids.drop_first()[j - 1]);
            }
        }
    }
}

/// The seconds genre `g` holds after adding `pt` to it.
pub open spec fn added_value(m: Seq<(String, i64)>, g: Seq<char>, pt: i64) -> int {
    match playtime_of(m, g) {
        Some(v) => v + pt,
        None => pt as int,
    }
}

/// Add `pt` seconds to genre `g`, creating its entry when needed.
fn add_seconds(m: &mut Vec<(String, i64)>, g: &str, pt: i64)
    requires
        distinct_genres(old(m)@),
        i64::MIN <= added_value(old(m)@, g@, pt) <= i64::MAX,
    ensures
        distinct_genres(final(m)@),
        forall|h: Seq<char>| #[trigger] playtime_of(final(m)@, h) == if h == g@ {
            Some(added_value(old(m)@, g@, pt) as i64)
        } else {
            playtime_of(old(m)@, h)
        },
{
    let ghost before = m@;
    let ghost keys = genre_keys(before);
    let ghost nv = added_value(before, g@, pt);
    let mut i: usize = 0;
    while i < m.len()
        invariant
            m@ == before,
            before == old(m)@,
            keys == genre_keys(before),
            nv == added_value(before, g@, pt),
            i64::MIN <= nv <= i64::MAX,
            distinct_genres(before),
            i <= m@.len(),
            forall|j: int| 0 <= j < i ==> #[trigger] keys[j] != g@,
        decreases m@.len() - i,
    {
        assert(keys[i as int] == m@[i as int].0@);
        if text_eq(m[i].0.as_str(), g) {
            proof {
                lemma_first_with_id(keys, g@, i as int);
                assert(playtime_of(before, g@) == Some(before[i as int].1));
            }
            let v = m[i].1 + pt;
            assert(v as int == nv);
            let name = m[i].0.clone();
            m.set(i, (name, v));
            proof {
                let after = m@;
                assert(genre_keys(after) =~= keys);
                assert forall|h: Seq<char>| #[trigger] playtime_of(after, h) == if h == g@ {
                    Some(added_value(before, g@, pt) as i64)
                } else {
                    playtime_of(before, h)
                } by {
                    lemma_first_with_id_props(keys, h);
                    assert(nv as i64 == v);
                }
                assert forall|a: int, b: int| 0 <= a < b < after.len() implies after[a].0@ != after[b].0@ by {
                    assert(after[a].0@ == keys[a]);
                    assert(after[b].0@ == keys[b]);
                }
            }
            return;
        }
        i = i + 1;
    }
    proof {
        lemma_first_with_id(keys, g@, before.len() as int);
    }
    m.push((g.to_string(), pt));
    proof {
        let after = m@;
        let nk = genre_keys(after);
        assert(nk =~= keys.push(g@));
        assert forall|h: Seq<char>| #[trigger] playtime_of(after, h) == if h == g@ {
            Some(pt)
        } else {
            playtime_of(before, h)
        } by {
            lemma_first_with_id_props(keys, h);
            let p = first_with_id(keys, h);
            if h == g@ {
                lemma_first_with_id(nk, h, before.len() as int);
            } else {
                assert forall|j: int| 0 <= j < p implies #[trigger] nk[j] != h by {
                    assert(nk[j] == keys[j]);
                }
                if p < before.len() {
                    assert(nk[p] == keys[p]);
                    lemma_first_with_id(nk, h, p);
                } else {
                    assert forall|j: int| 0 <= j < nk.len() implies #[trigger] nk[j] != h by {
                        if j < before.len() {
                            assert(nk[j] == keys[j]);
                        }
                    }
                    lemma_first_with_id(nk, h, nk.len() as int);
                }
            }
        }
        assert forall|a: int, b: int| 0 <= a < b < after.len() implies after[a].0@ != after[b].0@ by {
            assert(after[a].0@ == nk[a]);
            assert(after[b].0@ == nk[b]);
            if b == before.len() {
                assert(keys[a] != g@);
            }
        }
    }
}

/// How often `g` occurs among `toks`.
pub open spec fn token_count(toks: Seq<Seq<char>>, g: Seq<char>) -> nat
    decreases toks.len(),
{
    if toks.len() == 0 {
        0
    } else {
        token_count(toks.drop_last(), g) + if toks.last() == g { 1nat } else { 0nat }
    }
}

/// Seconds a game adds to genre `g` in the player profile: its playtime
/// once per mention of `g` in its genre list, when it has a genre and
/// positive playtime.
pub open spec fn game_genre_seconds(c: Candidate, g: Seq<char>) -> int {
    match c.genre {
        Some(s) => if c.total_playtime > 0 { token_count(comma_tokens(s@), g) * c.total_playtime } else { 0 },
        None => 0,
    }
}

/// Seconds played in genre `g` across a library.
pub open spec fn genre_seconds(gs: Seq<Candidate>, g: Seq<char>) -> int
    decreases gs.len(),
{
    if gs.len() == 0 { 0 } else { genre_seconds(gs.drop_last(), g) + game_genre_seconds(gs.last(), g) }
}

/// Lifetime playtime of a library.
pub open spec fn library_seconds(gs: Seq<Candidate>) -> int
    decreases gs.len(),
{
    if gs.len() == 0 { 0 } else { library_seconds(gs.drop_last()) + gs.last().total_playtime }
}

/// Number of completed games.
pub open spec fn completed_count(gs: Seq<Candidate>) -> int
    decreases gs.len(),
{
    if gs.len() == 0 {
        0
    } else {
        completed_count(gs.drop_last()) + if gs.last().status@ == "completed"@ { 1int } else { 0int }
    }
}

/// The per-genre table a library yields: an entry for each named genre with
/// positive seconds.
pub open spec fn profile_table_ok(m: Seq<(String, i64)>, gs: Seq<Candidate>) -> bool {
    &&& distinct_genres(m)
    &&& forall|g: Seq<char>| #[trigger] playtime_of(m, g) == table_value(genre_seconds(gs, g), g)
}

proof fn lemma_genre_seconds_nonneg(gs: Seq<Candidate>, g: Seq<char>)
    ensures
        genre_seconds(gs, g) >= 0,
    decreases gs.len(),
{
    if gs.len() > 0 {
        lemma_genre_seconds_nonneg(gs.drop_last(), g);
        let c = gs.last();
        match c.genre {
            Some(s) => if c.total_playtime > 0 {
                assert(token_count(comma_tokens(s@), g) * c.total_playtime >= 0) by (nonlinear_arith)
                    requires c.total_playtime > 0;
            },
            None => {},
        }
    }
}

proof fn lemma_genre_seconds_mono(gs: Seq<Candidate>, k: int, g: Seq<char>)
    requires
        0 <= k <= gs.len(),
    ensures
        genre_seconds(gs.take(k), g) <= genre_seconds(gs, g),
    decreases gs.len() - k,
{
    if k < gs.len() {
        lemma_genre_seconds_mono(gs, k + 1, g);
        let t = gs.take(k + 1);
        assert(t.drop_last() =~= gs.take(k));
        let c = t.last();
        match c.genre {
            Some(s) => if c.total_playtime > 0 {
                assert(token_count(comma_tokens(s@), g) * c.total_playtime >= 0) by (nonlinear_arith)
                    requires c.total_playtime > 0;
            },
            None => {},
        }
    } else {
        assert(gs.take(k) =~= gs);
    }
}

proof fn lemma_token_count_step(toks: Seq<Seq<char>>, j: int, g: Seq<char>)
    requires
        0 <= j < toks.len(),
    ensures
        token_count(toks.take(j + 1), g) == token_count(toks.take(j), g) + if toks[j] == g { 1nat } else { 0nat },
{
    assert(toks.take(j + 1).drop_last() =~= toks.take(j));
}

proof fn lemma_token_count_le(toks: Seq<Seq<char>>, j: int, g: Seq<char>)
    requires
        0 <= j <= toks.len(),
    ensures
        token_count(toks.take(j), g) <= token_count(toks, g),
    decreases toks.len() - j,
{
    if j < toks.len() {
        lemma_token_count_le(toks, j + 1, g);
        lemma_token_count_step(toks, j, g);
    } else {
        assert(toks.take(j) =~= toks);
    }
}

/// The table entry for genre `h` holding `v` seconds.
pub open spec fn table_value(v: int, h: Seq<char>) -> Option<i64> {
    if h.len() > 0 && v > 0 { Some(v as i64) } else { None }
}

/// Credit `pt` seconds to every non-empty genre among `toks`.
fn credit_tokens(m: &mut Vec<(String, i64)>, toks: &Vec<String>, pt: i64, Ghost(base): Ghost<spec_fn(Seq<char>) -> int>)
    requires
        distinct_genres(old(m)@),
        pt > 0,
        forall|h: Seq<char>| #[trigger] base(h) >= 0,
        forall|h: Seq<char>| #[trigger] playtime_of(old(m)@, h) == table_value(base(h), h),
        forall|h: Seq<char>| #[trigger] base(h) + token_count(toks@.map_values(|x: String| x@), h) * pt <= i64::MAX,
    ensures
        distinct_genres(final(m)@),
        forall|h: Seq<char>| #[trigger] playtime_of(final(m)@, h) == table_value(
            base(h) + token_count(toks@.map_values(|x: String| x@), h) * pt,
            h,
        ),
{
    let ghost tv = toks@.map_values(|x: String| x@);
    proof {
        assert forall|h: Seq<char>| #[trigger] token_count(tv.take(0), h) == 0 by {
            assert(tv.take(0) =~= Seq::<Seq<char>>::empty());
        }
        assert forall|h: Seq<char>| #[trigger] playtime_of(m@, h) == table_value(base(h) + token_count(tv.take(0), h) * pt, h) by {
            assert(playtime_of(old(m)@, h) == table_value(base(h), h));
            assert(token_count(tv.take(0), h) == 0);
        }
    }
    let mut j: usize = 0;
    while j < toks.len()
        invariant
            j <= toks@.len(),
            tv == toks@.map_values(|x: String| x@),
            pt > 0,
            forall|h: Seq<char>| #[trigger] base(h) >= 0,
            forall|h: Seq<char>| #[trigger] base(h) + token_count(tv, h) * pt <= i64::MAX,
            distinct_genres(m@),
            forall|h: Seq<char>| #[trigger] playtime_of(m@, h) == table_value(base(h) + token_count(tv.take(j as int), h) * pt, h),
        decreases toks@.len() - j,
    {
        let tok = &toks[j];
        let ghost k = tok@;
        proof {
            assert(tv[j as int] == k);
            assert forall|h: Seq<char>| #[trigger] token_count(tv.take(j as int + 1), h) == token_count(tv.take(j as int), h) + if k == h { 1nat } else { 0nat } by {
                lemma_token_count_step(tv, j as int, h);
            }
        }
        if !tok.as_str().is_empty() {
            proof {
                let c0 = token_count(tv.take(j as int), k);
                let c1 = token_count(tv.take(j as int + 1), k);
                lemma_token_count_le(tv, j as int + 1, k);
                assert(c1 * pt <= token_count(tv, k) * pt) by (nonlinear_arith)
                    requires c1 <= token_count(tv, k), pt > 0;
                assert(c0 * pt >= 0) by (nonlinear_arith)
                    requires pt > 0;
                assert(c1 * pt == c0 * pt + pt) by (nonlinear_arith)
                    requires c1 == c0 + 1;
                assert(added_value(m@, k, pt) == base(k) + c1 * pt);
            }
            add_seconds(m, tok.as_str(), pt);
            proof {
                assert forall|h: Seq<char>| #[trigger] playtime_of(m@, h) == table_value(base(h) + token_count(tv.take(j as int + 1), h) * pt, h) by {
                    if h != k {
                        assert(token_count(tv.take(j as int + 1), h) == token_count(tv.take(j as int), h));
                    }
                }
            }
        } else {
            proof {
                assert forall|h: Seq<char>| #[trigger] playtime_of(m@, h) == table_value(base(h) + token_count(tv.take(j as int + 1), h) * pt, h) by {
                    if h.len() > 0 {
                        assert(token_count(tv.take(j as int + 1), h) == token_count(tv.take(j as int), h));
                    }
                }
            }
        }
        j = j + 1;
    }
    proof {
        assert(tv.take(toks@.len() as int) =~= tv);
    }
}

/// The profile strategies work from, computed from the whole library:
/// seconds per genre (games with a genre and positive playtime, each listed
/// genre credited in full), lifetime playtime, and the completed share.
pub fn build_user_context(games: &Vec<Candidate>) -> (ctx: UserContext)
    requires
        forall|g: Seq<char>| #[trigger] genre_seconds(games@, g) <= i64::MAX,
        forall|k: int| 0 <= k <= games@.len() ==> i64::MIN <= #[trigger] library_seconds(games@.take(k)) <= i64::MAX,
    ensures
        profile_table_ok(ctx.genre_playtime@, games@),
        ctx.total_playtime_secs == library_seconds(games@),
        ctx.completion_rate.pair() == if games@.len() > 0 {
            (completed_count(games@), games@.len() as int)
        } else {
            (0, 1)
        },
{
    let mut m: Vec<(String, i64)> = Vec::new();
    let mut total: i64 = 0;
    let mut completed: u64 = 0;
    let mut i: usize = 0;
    while i < games.len()
        invariant
            i <= games@.len(),
            forall|g: Seq<char>| #[trigger] genre_seconds(games@, g) <= i64::MAX,
            forall|k: int| 0 <= k <= games@.len() ==> i64::MIN <= #[trigger] library_seconds(games@.take(k)) <= i64::MAX,
            profile_table_ok(m@, games@.take(i as int)),
            total == library_seconds(games@.take(i as int)),
            completed == completed_count(games@.take(i as int)),
            completed <= i,
        decreases games@.len() - i,
    {
        let g = &games[i];
        let ghost pre = games@.take(i as int);
        let ghost t = games@.take(i as int + 1);
        proof {
            assert(t.drop_last() =~= pre);
            assert(t.last() == games@[i as int]);
            assert(i64::MIN <= library_seconds(t) <= i64::MAX);
        }
        total = total + g.total_playtime;
        if text_eq(g.status.as_str(), "completed") {
            completed = completed + 1;
        }
        let mut credited = false;
        match &g.genre {
            Some(s) => {
                if g.total_playtime > 0 {
                    let toks = split_trimmed(s.as_str());
                    let ghost tv = toks@.map_values(|x: String| x@);
                    let ghost base = |h: Seq<char>| genre_seconds(pre, h);
                    proof {
                        assert forall|h: Seq<char>| #[trigger] base(h) >= 0 by {
                            lemma_genre_seconds_nonneg(pre, h);
                        }
                        assert forall|h: Seq<char>| #[trigger] base(h) + token_count(tv, h) * g.total_playtime <= i64::MAX by {
                            lemma_genre_seconds_mono(games@, i as int + 1, h);
                            assert(genre_seconds(t, h) == genre_seconds(pre, h) + game_genre_seconds(games@[i as int], h));
                        }
                    }
                    credit_tokens(&mut m, &toks, g.total_playtime, Ghost(base));
                    credited = true;
                }
            },
            None => {},
        }
        proof {
            assert forall|h: Seq<char>| #[trigger] playtime_of(m@, h) == table_value(genre_seconds(t, h), h) by {
                assert(genre_seconds(t, h) == genre_seconds(pre, h) + game_genre_seconds(games@[i as int], h));
            }
        }
        i = i + 1;
    }
    proof {
        assert(games@.take(games@.len() as int) =~= games@);
    }
    let rate = if games.len() > 0 {
        Fraction { num: completed as i128, den: games.len() as i128 }
    } else {
        Fraction { num: 0, den: 1 }
    };
    UserContext { genre_playtime: m, total_playtime_secs: total, completion_rate: rate }
}

/// How many general recommendations to return: 10 by default, at most 50.
pub fn recommendation_cap(limit: Option<usize>) -> (cap: usize)
    ensures
        cap == match limit {
            Some(l) => if l < 50 { l } else { 50 },
            None => 10,
        },
{
    match limit {
        Some(l) => if l < 50 { l } else { 50 },
        None => 10,
    }
}

/// How many related-game recommendations to return: 6 by default, at most 20.
pub fn related_cap(limit: Option<usize>) -> (cap: usize)
    ensures
        cap == match limit {
            Some(l) => if l < 20 { l } else { 20 },
            None => 6,
        },
{
    match limit {
        Some(l) => if l < 20 { l } else { 20 },
        None => 6,
    }
}

/// Two optional texts are both present and equal.
pub open spec fn both_equal(a: Option<Seq<char>>, b: Option<Seq<char>>) -> bool {
    a.is_some() && b.is_some() && a.unwrap() == b.unwrap()
}

/// A candidate related to a source game: not the game itself, and sharing
/// its (whole) genre text or its developer.
pub open spec fn is_related(c: Candidate, game_id: Seq<char>, genre: Option<Seq<char>>, developer: Option<Seq<char>>) -> bool {
    c.id@ != game_id && (both_equal(genre, opt_view(c.genre)) || both_equal(developer, opt_view(c.developer)))
}

fn opt_text_eq(a: &Option<String>, b: &Option<String>) -> (r: bool)
    ensures
        r == both_equal(opt_view(*a), opt_view(*b)),
{
    match (a, b) {
        (Some(x), Some(y)) => text_eq(x.as_str(), y.as_str()),
        _ => false,
    }
}

/// The candidates related to a source game, in their order.
pub fn related_candidates(candidates: &Vec<Candidate>, game_id: &str, genre: &Option<String>, developer: &Option<String>) -> (r: Vec<Candidate>)
    ensures
        r@ == candidates@.filter(|c: Candidate| is_related(c, game_id@, opt_view(*genre), opt_view(*developer))),
{
    let ghost f = |c: Candidate| is_related(c, game_id@, opt_view(*genre), opt_view(*developer));
    let mut r: Vec<Candidate> = Vec::new();
    let mut i: usize = 0;
    while i < candidates.len()
        invariant
            i <= candidates@.len(),
            f == (|c: Candidate| is_related(c, game_id@, opt_view(*genre), opt_view(*developer))),
            r@ == candidates@.take(i as int).filter(f),
        decreases candidates@.len() - i,
    {
        let c = &candidates[i];
        proof {
            reveal(Seq::filter);
            assert(candidates@.take(i as int + 1).drop_last() =~= candidates@.take(i as int));
        }
        if !text_eq(c.id.as_str(), game_id) && (opt_text_eq(genre, &c.genre) || opt_text_eq(developer, &c.developer)) {
            r.push(c.duplicate());
        }
        i = i + 1;
    }
    assert(candidates@.take(candidates@.len() as int) =~= candidates@);
    r
}

} // verus!
