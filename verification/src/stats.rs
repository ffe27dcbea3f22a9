//! Analytics engines: the activity heatmap, library and completion
//! summaries, genre distribution, playtime trend and the year in review.

use vstd::prelude::*;
use crate::recommend::Fraction;
use crate::numfmt::{dec_int, push_i64, push_str};
use crate::order::text_less;
use crate::order::text_lt;
use crate::text::text_eq;
use crate::sqldate::{sqlite_month, sqlite_month_exec};

verus! {

/// Sessions started in one hour of one weekday (0 = Sunday).
#[derive(Clone, Copy, Debug, PartialEq, Eq, Structural)]
pub struct HeatmapCell {
    pub day_of_week: i64,
    pub hour: i64,
    pub sessions: i64,
}

/// The full 7 × 24 grid with its busiest day and hour.
pub struct ActivityHeatmap {
    pub cells: Vec<HeatmapCell>,
    pub most_active_day: Option<i64>,
    pub most_active_hour: Option<i64>,
    pub total_sessions: i64,
}

/// Sessions recorded for a slot: the last sparse cell for it, else 0.
pub open spec fn slot_sessions(sparse: Seq<HeatmapCell>, day: int, hour: int) -> int
    decreases sparse.len(),
{
    if sparse.len() == 0 {
        0
    } else if sparse.last().day_of_week == day && sparse.last().hour == hour {
        sparse.last().sessions as int
    } else {
        slot_sessions(sparse.drop_last(), day, hour)
    }
}

/// Sum over the first `n` hours of a day.
pub open spec fn day_total(sparse: Seq<HeatmapCell>, day: int, n: int) -> int
    decreases n,
{
    if n <= 0 { 0 } else { day_total(sparse, day, n - 1) + slot_sessions(sparse, day, n - 1) }
}

/// Sum over the first `n` days of an hour.
pub open spec fn hour_total(sparse: Seq<HeatmapCell>, hour: int, n: int) -> int
    decreases n,
{
    if n <= 0 { 0 } else { hour_total(sparse, hour, n - 1) + slot_sessions(sparse, n - 1, hour) }
}

/// Sum over the first `n` days of the whole grid.
pub open spec fn grid_total(sparse: Seq<HeatmapCell>, n: int) -> int
    decreases n,
{
    if n <= 0 { 0 } else { grid_total(sparse, n - 1) + day_total(sparse, n - 1, 24) }
}

/// The position of the largest of `vals` — the last of equal ones, as
/// `Iterator::max_by_key` picks — when that largest is above 0.
pub open spec fn busiest(vals: Seq<int>) -> Option<int> {
    let m = last_max(vals);
    if vals.len() > 0 && vals[m] > 0 { Some(m) } else { None }
}

/// Position of the last largest value of a non-empty sequence.
pub open spec fn last_max(vals: Seq<int>) -> int
    decreases vals.len(),
{
    if vals.len() <= 1 {
        0
    } else {
        let p = last_max(vals.drop_last());
        if vals.last() >= vals[p] { vals.len() - 1 } else { p }
    }
}

/// The totals of each day.
pub open spec fn day_totals(sparse: Seq<HeatmapCell>) -> Seq<int> {
    Seq::new(7, |d: int| day_total(sparse, d, 24))
}

/// The totals of each hour.
pub open spec fn hour_totals(sparse: Seq<HeatmapCell>) -> Seq<int> {
    Seq::new(24, |h: int| hour_total(sparse, h, 7))
}

/// The session counts are not negative and their grid sum fits.
pub open spec fn heatmap_ok(sparse: Seq<HeatmapCell>) -> bool {
    &&& forall|i: int| 0 <= i < sparse.len() ==> (#[trigger] sparse[i]).sessions >= 0
    &&& grid_total(sparse, 7) <= i64::MAX
}

proof fn lemma_slot_nonneg(sparse: Seq<HeatmapCell>, day: int, hour: int)
    requires
        forall|i: int| 0 <= i < sparse.len() ==> (#[trigger] sparse[i]).sessions >= 0,
    ensures
        slot_sessions(sparse, day, hour) >= 0,
    decreases sparse.len(),
{
    if sparse.len() > 0 {
        assert(sparse.last() == sparse[sparse.len() - 1]);
        lemma_slot_nonneg(sparse.drop_last(), day, hour);
    }
}

proof fn lemma_day_total_nonneg(sparse: Seq<HeatmapCell>, day: int, n: int)
    requires
        forall|i: int| 0 <= i < sparse.len() ==> (#[trigger] sparse[i]).sessions >= 0,
    ensures
        0 <= day_total(sparse, day, n),
    decreases n,
{
    if n > 0 {
        lemma_day_total_nonneg(sparse, day, n - 1);
        lemma_slot_nonneg(sparse, day, n - 1);
    }
}

proof fn lemma_day_total_mono(sparse: Seq<HeatmapCell>, day: int, a: int, b: int)
    requires
        forall|i: int| 0 <= i < sparse.len() ==> (#[trigger] sparse[i]).sessions >= 0,
        0 <= a <= b,
    ensures
        0 <= day_total(sparse, day, a) <= day_total(sparse, day, b),
    decreases b - a,
{
    if b > a {
        lemma_day_total_mono(sparse, day, a, b - 1);
        lemma_slot_nonneg(sparse, day, b - 1);
    } else {
        lemma_day_total_nonneg(sparse, day, a);
    }
}

proof fn lemma_grid_nonneg(sparse: Seq<HeatmapCell>, n: int)
    requires
        forall|i: int| 0 <= i < sparse.len() ==> (#[trigger] sparse[i]).sessions >= 0,
    ensures
        0 <= grid_total(sparse, n),
    decreases n,
{
    if n > 0 {
        lemma_grid_nonneg(sparse, n - 1);
        lemma_day_total_nonneg(sparse, n - 1, 24);
    }
}

proof fn lemma_grid_mono(sparse: Seq<HeatmapCell>, a: int, b: int)
    requires
        forall|i: int| 0 <= i < sparse.len() ==> (#[trigger] sparse[i]).sessions >= 0,
        0 <= a <= b,
    ensures
        0 <= grid_total(sparse, a) <= grid_total(sparse, b),
    decreases b - a,
{
    if b > a {
        lemma_grid_mono(sparse, a, b - 1);
        lemma_day_total_nonneg(sparse, b - 1, 24);
    } else {
        lemma_grid_nonneg(sparse, a);
    }
}

proof fn lemma_hour_le_grid(sparse: Seq<HeatmapCell>, hour: int, n: int)
    requires
        forall|i: int| 0 <= i < sparse.len() ==> (#[trigger] sparse[i]).sessions >= 0,
        0 <= hour < 24,
        0 <= n <= 7,
    ensures
        0 <= hour_total(sparse, hour, n) <= grid_total(sparse, n),
    decreases n,
{
    if n > 0 {
        lemma_hour_le_grid(sparse, hour, n - 1);
        lemma_slot_nonneg(sparse, n - 1, hour);
        lemma_day_slot(sparse, n - 1, hour, 24);
    }
}

proof fn lemma_day_slot(sparse: Seq<HeatmapCell>, day: int, hour: int, n: int)
    requires
        forall|i: int| 0 <= i < sparse.len() ==> (#[trigger] sparse[i]).sessions >= 0,
        0 <= hour < n,
    ensures
        slot_sessions(sparse, day, hour) <= day_total(sparse, day, n),
    decreases n,
{
    if n - 1 > hour {
        lemma_day_slot(sparse, day, hour, n - 1);
        lemma_slot_nonneg(sparse, day, n - 1);
    } else {
        lemma_day_total_mono(sparse, day, 0, n - 1);
    }
}

fn lookup_slot(sparse: &Vec<HeatmapCell>, day: i64, hour: i64) -> (s: i64)
    ensures
        s == slot_sessions(sparse@, day as int, hour as int),
{
    let mut i: usize = sparse.len();
    assert(sparse@.take(sparse@.len() as int) =~= sparse@);
    while i > 0
        invariant
            i <= sparse@.len(),
            slot_sessions(sparse@, day as int, hour as int) == slot_sessions(sparse@.take(i as int), day as int, hour as int),
        decreases i,
    {
        let c = sparse[i - 1];
        proof {
            let t = sparse@.take(i as int);
            assert(t.last() == c);
            assert(t.drop_last() =~= sparse@.take(i - 1));
        }
        if c.day_of_week == day && c.hour == hour {
            return c.sessions;
        }
        i = i - 1;
    }
    assert(sparse@.take(0).len() == 0);
    0
}

fn last_max_index(vals: &Vec<i64>) -> (r: Option<i64>)
    requires
        vals@.len() > 0,
    ensures
        r == match busiest(vals@.map_values(|v: i64| v as int)) {
            Some(p) => Some(p as i64),
            None => None::<i64>,
        },
{
    let ghost vv = vals@.map_values(|v: i64| v as int);
    let mut best: usize = 0;
    let mut i: usize = 1;
    proof {
        assert(vv.take(1).len() == 1);
    }
    while i < vals.len()
        invariant
            1 <= i <= vals@.len(),
            vv == vals@.map_values(|v: i64| v as int),
            best < i,
            best as int == last_max(vv.take(i as int)),
        decreases vals@.len() - i,
    {
        proof {
            let t = vv.take(i as int + 1);
            assert(t.drop_last() =~= vv.take(i as int));
            assert(t.last() == vv[i as int]);
            assert(vv.take(i as int)[best as int] == vv[best as int]);
        }
        if vals[i] >= vals[best] {
            best = i;
        }
        i = i + 1;
    }
    assert(vv.take(vals@.len() as int) =~= vv);
    if vals[best] > 0 {
        Some(best as i64)
    } else {
        None
    }
}

/// Fill a sparse heatmap to the full grid (day-major), with the totals and
/// the busiest day and hour.
pub fn build_heatmap(sparse: &Vec<HeatmapCell>) -> (h: ActivityHeatmap)
    requires
        heatmap_ok(sparse@),
    ensures
        h.cells@.len() == 168,
        forall|d: int, hr: int| 0 <= d < 7 && 0 <= hr < 24 ==> #[trigger] h.cells@[d * 24 + hr] == (HeatmapCell {
            day_of_week: d as i64,
            hour: hr as i64,
            sessions: slot_sessions(sparse@, d, hr) as i64,
        }),
        h.total_sessions == grid_total(sparse@, 7),
        h.most_active_day == match busiest(day_totals(sparse@)) {
            Some(p) => Some(p as i64),
            None => None::<i64>,
        },
        h.most_active_hour == match busiest(hour_totals(sparse@)) {
            Some(p) => Some(p as i64),
            None => None::<i64>,
        },
{
    proof {
        lemma_grid_mono(sparse@, 0, 7);
    }
    let mut cells: Vec<HeatmapCell> = Vec::new();
    let mut days: Vec<i64> = Vec::new();
    let mut total: i64 = 0;
    let mut d: i64 = 0;
    while d < 7
        invariant
            0 <= d <= 7,
            heatmap_ok(sparse@),
            cells@.len() == d * 24,
            days@.len() == d,
            forall|dd: int, hr: int| 0 <= dd < d && 0 <= hr < 24 ==> #[trigger] cells@[dd * 24 + hr] == (HeatmapCell {
                day_of_week: dd as i64,
                hour: hr as i64,
                sessions: slot_sessions(sparse@, dd, hr) as i64,
            }),
            forall|dd: int| 0 <= dd < d ==> #[trigger] days@[dd] == day_total(sparse@, dd, 24),
            total == grid_total(sparse@, d as int),
        decreases 7 - d,
    {
        let mut hr: i64 = 0;
        let mut sum: i64 = 0;
        proof {
            lemma_grid_mono(sparse@, d as int + 1, 7);
            lemma_grid_mono(sparse@, 0, d as int);
            lemma_day_total_mono(sparse@, d as int, 0, 24);
        }
        while hr < 24
            invariant
                0 <= d < 7,
                0 <= hr <= 24,
                heatmap_ok(sparse@),
                cells@.len() == d * 24 + hr,
                forall|dd: int, h2: int| 0 <= dd < d && 0 <= h2 < 24 ==> #[trigger] cells@[dd * 24 + h2] == (HeatmapCell {
                    day_of_week: dd as i64,
                    hour: h2 as i64,
                    sessions: slot_sessions(sparse@, dd, h2) as i64,
                }),
                forall|h2: int| 0 <= h2 < hr ==> #[trigger] cells@[d * 24 + h2] == (HeatmapCell {
                    day_of_week: d,
                    hour: h2 as i64,
                    sessions: slot_sessions(sparse@, d as int, h2) as i64,
                }),
                sum == day_total(sparse@, d as int, hr as int),
                day_total(sparse@, d as int, 24) <= grid_total(sparse@, 7),
                grid_total(sparse@, 7) <= i64::MAX,
            decreases 24 - hr,
        {
            let s = lookup_slot(sparse, d, hr);
            proof {
                lemma_day_total_mono(sparse@, d as int, hr as int + 1, 24);
                lemma_slot_nonneg(sparse@, d as int, hr as int);
            }
            cells.push(HeatmapCell { day_of_week: d, hour: hr, sessions: s });
            sum = sum + s;
            hr = hr + 1;
        }
        days.push(sum);
        total = total + sum;
        d = d + 1;
    }
    let mut hours: Vec<i64> = Vec::new();
    let mut hr: i64 = 0;
    while hr < 24
        invariant
            0 <= hr <= 24,
            heatmap_ok(sparse@),
            cells@.len() == 168,
            forall|dd: int, h2: int| 0 <= dd < 7 && 0 <= h2 < 24 ==> #[trigger] cells@[dd * 24 + h2] == (HeatmapCell {
                day_of_week: dd as i64,
                hour: h2 as i64,
                sessions: slot_sessions(sparse@, dd, h2) as i64,
            }),
            hours@.len() == hr,
            forall|h2: int| 0 <= h2 < hr ==> #[trigger] hours@[h2] == hour_total(sparse@, h2, 7),
        decreases 24 - hr,
    {
        let mut sum: i64 = 0;
        let mut dd: i64 = 0;
        proof {
            lemma_hour_le_grid(sparse@, hr as int, 7);
            lemma_grid_mono(sparse@, 0, 7);
        }
        while dd < 7
            invariant
                0 <= hr < 24,
                0 <= dd <= 7,
                heatmap_ok(sparse@),
                sum == hour_total(sparse@, hr as int, dd as int),
                hour_total(sparse@, hr as int, 7) <= grid_total(sparse@, 7),
            decreases 7 - dd,
        {
            let s = lookup_slot(sparse, dd, hr);
            proof {
                lemma_hour_le_grid(sparse@, hr as int, dd as int + 1);
                lemma_grid_mono(sparse@, dd as int + 1, 7);
                lemma_slot_nonneg(sparse@, dd as int, hr as int);
                assert(hour_total(sparse@, hr as int, 7) >= hour_total(sparse@, hr as int, dd as int + 1)) by {
                    lemma_hour_mono(sparse@, hr as int, dd as int + 1, 7);
                }
            }
            sum = sum + s;
            dd = dd + 1;
        }
        hours.push(sum);
        hr = hr + 1;
    }
    proof {
        assert(days@.map_values(|v: i64| v as int) =~= day_totals(sparse@));
        assert(hours@.map_values(|v: i64| v as int) =~= hour_totals(sparse@));
    }
    let most_active_day = last_max_index(&days);
    let most_active_hour = last_max_index(&hours);
    ActivityHeatmap { cells, most_active_day, most_active_hour, total_sessions: total }
}

proof fn lemma_hour_mono(sparse: Seq<HeatmapCell>, hour: int, a: int, b: int)
    requires
        forall|i: int| 0 <= i < sparse.len() ==> (#[trigger] sparse[i]).sessions >= 0,
        0 <= a <= b,
    ensures
        hour_total(sparse, hour, a) <= hour_total(sparse, hour, b),
    decreases b,
{
    if b > a {
        lemma_hour_mono(sparse, hour, a, b - 1);
        lemma_slot_nonneg(sparse, b - 1, hour);
    }
}

/// The completed share of the games that ended (completed or dropped).
pub fn completion_rate(completed: i64, dropped: i64) -> (r: Fraction)
    ensures
        r.pair() == if completed + dropped > 0 {
            (completed as int, completed + dropped)
        } else {
            (0int, 1int)
        },
{
    let engaged = completed as i128 + dropped as i128;
    if engaged > 0 {
        Fraction { num: completed as i128, den: engaged }
    } else {
        Fraction { num: 0, den: 1 }
    }
}

/// The count recorded for `key` among grouped `(key, count)` rows (the
/// last row for it), 0 when absent.
pub open spec fn count_for(rows: Seq<(String, i64)>, key: Seq<char>) -> int
    decreases rows.len(),
{
    if rows.len() == 0 {
        0
    } else if rows.last().0@ == key {
        rows.last().1 as int
    } else {
        count_for(rows.drop_last(), key)
    }
}

/// Look up a grouped count.
pub fn lookup_count(rows: &Vec<(String, i64)>, key: &str) -> (c: i64)
    ensures
        c == count_for(rows@, key@),
{
    let mut i: usize = rows.len();
    assert(rows@.take(rows@.len() as int) =~= rows@);
    while i > 0
        invariant
            i <= rows@.len(),
            count_for(rows@, key@) == count_for(rows@.take(i as int), key@),
        decreases i,
    {
        proof {
            let t = rows@.take(i as int);
            assert(t.last() == rows@[i - 1]);
            assert(t.drop_last() =~= rows@.take(i - 1));
        }
        if text_eq(rows[i - 1].0.as_str(), key) {
            return rows[i - 1].1;
        }
        i = i - 1;
    }
    0
}

/// Library-wide counts.
pub struct LibrarySummary {
    pub total_games: i64,
    pub total_playtime_secs: i64,
    pub completed_games: i64,
    pub playing_games: i64,
    pub unplayed_games: i64,
    pub dropped_games: i64,
    pub favorite_games: i64,
    pub total_sessions: i64,
    pub total_milestones: i64,
}

/// The library summary from the per-status counts and the other totals.
pub fn library_summary(
    status_rows: &Vec<(String, i64)>,
    total_games: i64,
    total_playtime_secs: i64,
    favorite_games: i64,
    total_sessions: i64,
    total_milestones: i64,
) -> (s: LibrarySummary)
    ensures
        s.total_games == total_games,
        s.total_playtime_secs == total_playtime_secs,
        s.completed_games == count_for(status_rows@, "completed"@),
        s.playing_games == count_for(status_rows@, "playing"@),
        s.unplayed_games == count_for(status_rows@, "unplayed"@),
        s.dropped_games == count_for(status_rows@, "dropped"@),
        s.favorite_games == favorite_games,
        s.total_sessions == total_sessions,
        s.total_milestones == total_milestones,
{
    LibrarySummary {
        total_games,
        total_playtime_secs,
        completed_games: lookup_count(status_rows, "completed"),
        playing_games: lookup_count(status_rows, "playing"),
        unplayed_games: lookup_count(status_rows, "unplayed"),
        dropped_games: lookup_count(status_rows, "dropped"),
        favorite_games,
        total_sessions,
        total_milestones,
    }
}

/// Per-genre totals as the distribution query groups them.
pub struct GenreGroup {
    pub genre: String,
    pub game_count: i64,
    pub completed_count: i64,
    pub total_playtime_secs: i64,
}

/// A genre's statistics; `preference` is its share of all playtime, at
/// most 1.
pub struct GenreStat {
    pub genre: String,
    pub game_count: i64,
    pub completed_count: i64,
    pub total_playtime_secs: i64,
    pub milestone_count: i64,
    pub preference: Fraction,
}

/// A genre's share of all playtime, at most 1; 0 without positive playtime.
pub open spec fn genre_share(playtime: int, total: int) -> (int, int) {
    if total > 0 { (if playtime < total { playtime } else { total }, total) } else { (0, 1) }
}

/// `s` is the statistics of group `g`.
pub open spec fn genre_stat_of(s: GenreStat, g: GenreGroup, milestones: Seq<(String, i64)>, total: int) -> bool {
    &&& s.genre@ == g.genre@
    &&& s.game_count == g.game_count
    &&& s.completed_count == g.completed_count
    &&& s.total_playtime_secs == g.total_playtime_secs
    &&& s.milestone_count == count_for(milestones, g.genre@)
    &&& s.preference.pair() == genre_share(g.total_playtime_secs as int, total)
}

/// The genre distribution, in the groups' order (most played first).
pub struct GenreDistribution {
    pub genres: Vec<GenreStat>,
    pub total_playtime_secs: i64,
    pub dominant_genre: Option<String>,
}

/// Genre statistics with milestone counts and playtime shares; the first
/// genre dominates.
pub fn genre_distribution(groups: &Vec<GenreGroup>, milestones: &Vec<(String, i64)>, total_playtime_secs: i64) -> (d: GenreDistribution)
    ensures
        d.total_playtime_secs == total_playtime_secs,
        d.genres@.len() == groups@.len(),
        forall|i: int| 0 <= i < groups@.len() ==> genre_stat_of(#[trigger] d.genres@[i], groups@[i], milestones@, total_playtime_secs as int),
        groups@.len() == 0 ==> d.dominant_genre.is_none(),
        groups@.len() > 0 ==> d.dominant_genre.is_some() && d.dominant_genre.unwrap()@ == groups@[0].genre@,
{
    let mut genres: Vec<GenreStat> = Vec::new();
    let mut i: usize = 0;
    while i < groups.len()
        invariant
            i <= groups@.len(),
            genres@.len() == i,
            forall|j: int| 0 <= j < i ==> genre_stat_of(#[trigger] genres@[j], groups@[j], milestones@, total_playtime_secs as int),
        decreases groups@.len() - i,
    {
        let g = &groups[i];
        let pref = if total_playtime_secs > 0 {
            Fraction {
                num: if g.total_playtime_secs < total_playtime_secs { g.total_playtime_secs as i128 } else { total_playtime_secs as i128 },
                den: total_playtime_secs as i128,
            }
        } else {
            Fraction { num: 0, den: 1 }
        };
        genres.push(GenreStat {
            genre: g.genre.clone(),
            game_count: g.game_count,
            completed_count: g.completed_count,
            total_playtime_secs: g.total_playtime_secs,
            milestone_count: lookup_count(milestones, g.genre.as_str()),
            preference: pref,
        });
        i = i + 1;
    }
    let dominant_genre = if groups.len() > 0 { Some(groups[0].genre.clone()) } else { None };
    GenreDistribution { genres, total_playtime_secs, dominant_genre }
}

/// How many most-played games are listed: 10 by default, at most 50.
pub fn most_played_cap(limit: Option<usize>) -> (cap: usize)
    ensures
        cap == match limit {
            Some(l) => if l < 50 { l } else { 50 },
            None => 10,
        },
{
    match limit {
        Some(l) => if l < 50 { l } else { 50 },
        None => 10,
    }
}

/// How many days the playtime trend covers: 30 by default, at most 365.
pub fn trend_days(days: Option<i32>) -> (d: i32)
    ensures
        d == match days {
            Some(n) => if n < 365 { n } else { 365 },
            None => 30,
        },
{
    match days {
        Some(n) => if n < 365 { n } else { 365 },
        None => 30,
    }
}

/// The date modifier selecting the last `days` days: `-{days} days`.
pub fn trend_modifier(days: i32) -> (m: String)
    ensures
        m@ == "-"@ + dec_int(days as int) + " days"@,
{
    let mut m = String::new();
    push_str(&mut m, "-");
    push_i64(&mut m, days as i64);
    push_str(&mut m, " days");
    m
}

/// One day of the playtime trend.
pub struct DailyPlaytime {
    pub date: String,
    pub playtime_secs: i64,
}

/// The playtime trend over the given dates (oldest first): each date's
/// total from the grouped rows (the last row for it), 0 without sessions.
pub fn fill_trend(dates: &Vec<String>, rows: &Vec<(String, i64)>) -> (r: Vec<DailyPlaytime>)
    ensures
        r@.len() == dates@.len(),
        forall|i: int| 0 <= i < dates@.len() ==> (#[trigger] r@[i]).date@ == dates@[i]@ && r@[i].playtime_secs == count_for(
            rows@,
            dates@[i]@,
        ),
{
    let mut r: Vec<DailyPlaytime> = Vec::new();
    let mut i: usize = 0;
    while i < dates.len()
        invariant
            i <= dates@.len(),
            r@.len() == i,
            forall|j: int| 0 <= j < i ==> (#[trigger] r@[j]).date@ == dates@[j]@ && r@[j].playtime_secs == count_for(
                rows@,
                dates@[j]@,
            ),
        decreases dates@.len() - i,
    {
        r.push(DailyPlaytime { date: dates[i].clone(), playtime_secs: lookup_count(rows, dates[i].as_str()) });
        i = i + 1;
    }
    r
}

/// Playtime of one month (1–12).
#[derive(Clone, Copy, Debug, PartialEq, Eq, Structural)]
pub struct MonthlyPlaytime {
    pub month: i32,
    pub secs: i64,
}

/// Seconds recorded for `month` among grouped `(month, secs)` rows: the
/// first row for it, 0 when absent.
pub open spec fn month_secs(rows: Seq<(i32, i64)>, month: int) -> int
    decreases rows.len(),
{
    if rows.len() == 0 {
        0
    } else if rows[0].0 == month {
        rows[0].1 as int
    } else {
        month_secs(rows.drop_first(), month)
    }
}

fn lookup_month(rows: &Vec<(i32, i64)>, month: i32) -> (s: i64)
    ensures
        s == month_secs(rows@, month as int),
{
    let mut i: usize = 0;
    assert(rows@.skip(0) =~= rows@);
    while i < rows.len()
        invariant
            i <= rows@.len(),
            month_secs(rows@, month as int) == month_secs(rows@.skip(i as int), month as int),
        decreases rows@.len() - i,
    {
        proof {
            assert(rows@.skip(i as int).drop_first() =~= rows@.skip(i as int + 1));
        }
        if rows[i].0 == month {
            return rows[i].1;
        }
        i = i + 1;
    }
    0
}

/// All twelve months of a year in order, each with its grouped total (0
/// for months without sessions).
pub fn fill_months(rows: &Vec<(i32, i64)>) -> (r: Vec<MonthlyPlaytime>)
    ensures
        r@.len() == 12,
        forall|i: int| 0 <= i < 12 ==> #[trigger] r@[i] == (MonthlyPlaytime {
            month: (i + 1) as i32,
            secs: month_secs(rows@, i + 1) as i64,
        }),
{
    let mut r: Vec<MonthlyPlaytime> = Vec::new();
    let mut m: i32 = 1;
    while m <= 12
        invariant
            1 <= m <= 13,
            r@.len() == m - 1,
            forall|i: int| 0 <= i < m - 1 ==> #[trigger] r@[i] == (MonthlyPlaytime {
                month: (i + 1) as i32,
                secs: month_secs(rows@, i + 1) as i64,
            }),
        decreases 13 - m,
    {
        r.push(MonthlyPlaytime { month: m, secs: lookup_month(rows, m) });
        m = m + 1;
    }
    r
}

/// A session as the year in review reads it.
pub struct YearSession {
    pub game_id: String,
    pub started_at: String,
    pub duration_secs: i64,
}

/// A game as the year in review reads it.
pub struct YearGame {
    pub status: String,
    pub last_played: Option<String>,
    pub added_at: String,
}

/// A game with its lifetime playtime (the most-played list).
pub struct GamePlaytime {
    pub game_id: String,
    pub title: String,
    pub total_playtime_secs: i64,
    pub cover_path: Option<String>,
    pub status: String,
}

/// The annual summary.
pub struct YearInReview {
    pub year: String,
    pub total_playtime_secs: i64,
    pub games_played: i64,
    pub games_completed: i64,
    pub games_added: i64,
    pub sessions: i64,
    pub top_games: Vec<GamePlaytime>,
    pub top_genres: Vec<GenreStat>,
    pub most_active_month: Option<i64>,
    pub longest_session_secs: i64,
    pub completion_rate: Fraction,
}

/// First instant of a year as stored text: `{year}-01-01`.
pub open spec fn year_start(year: int) -> Seq<char> {
    dec_int(year) + "-01-01"@
}

/// Last instant of a year as stored text: `{year}-12-31 23:59:59`.
pub open spec fn year_end(year: int) -> Seq<char> {
    dec_int(year) + "-12-31 23:59:59"@
}

/// A timestamp falls in the year (compared as text, ends included).
pub open spec fn in_year(t: Seq<char>, year: int) -> bool {
    !text_lt(t, year_start(year)) && !text_lt(year_end(year), t)
}

/// The month SQLite's `strftime('%m', …)` reads from a timestamp, if it
/// reads one.
pub open spec fn month_of(t: Seq<char>) -> Option<int> {
    sqlite_month(t)
}

/// Sessions of the year, with their total and longest length.
pub open spec fn year_sessions(ss: Seq<YearSession>, year: int) -> Seq<YearSession> {
    ss.filter(|s: YearSession| in_year(s.started_at@, year))
}

/// Sum of session lengths.
pub open spec fn duration_sum(ss: Seq<YearSession>) -> int
    decreases ss.len(),
{
    if ss.len() == 0 { 0 } else { duration_sum(ss.drop_last()) + ss.last().duration_secs }
}

/// The longest session, 0 without sessions.
pub open spec fn duration_max(ss: Seq<YearSession>) -> int
    decreases ss.len(),
{
    if ss.len() == 0 {
        0
    } else if ss.len() == 1 {
        ss[0].duration_secs as int
    } else {
        let m = duration_max(ss.drop_last());
        if ss.last().duration_secs > m { ss.last().duration_secs as int } else { m }
    }
}

/// The distinct game ids of sessions, in order of first appearance.
pub open spec fn distinct_games(ss: Seq<YearSession>) -> Seq<Seq<char>>
    decreases ss.len(),
{
    if ss.len() == 0 {
        Seq::empty()
    } else {
        let d = distinct_games(ss.drop_last());
        if d.contains(ss.last().game_id@) { d } else { d.push(ss.last().game_id@) }
    }
}

/// Sessions whose month reads as `m` (or does not read, for `None`).
pub open spec fn month_count(ss: Seq<YearSession>, m: Option<int>) -> int
    decreases ss.len(),
{
    if ss.len() == 0 {
        0
    } else {
        month_count(ss.drop_last(), m) + if month_of(ss.last().started_at@) == m { 1int } else { 0int }
    }
}

/// The month with most sessions among months `1..=k`, the earliest on ties.
pub open spec fn top_month(ss: Seq<YearSession>, k: int) -> int
    decreases k,
{
    if k <= 1 {
        1
    } else {
        let p = top_month(ss, k - 1);
        if month_count(ss, Some(k)) > month_count(ss, Some(p)) { k } else { p }
    }
}

/// The most active month of the year's sessions: the month with most
/// sessions (the earliest on ties), unless there is none or sessions whose
/// month cannot be read outnumber it.
pub open spec fn most_active_month_spec(ys: Seq<YearSession>) -> Option<int> {
    let m = top_month(ys, 12);
    let c = month_count(ys, Some(m));
    if c > 0 && c >= month_count(ys, None) { Some(m) } else { None }
}

/// Games counted by the year in review.
pub open spec fn completed_in_year(g: YearGame, year: int) -> bool {
    g.status@ == "completed"@ && match g.last_played {
        Some(t) => in_year(t@, year),
        None => false,
    }
}

pub open spec fn added_in_year(g: YearGame, year: int) -> bool {
    in_year(g.added_at@, year)
}

fn month_of_exec(t: &str) -> (m: Option<i64>)
    ensures
        m matches Some(v) ==> 1 <= v <= 12,
        match m {
            Some(v) => month_of(t@) == Some(v as int),
            None => month_of(t@).is_none(),
        },
{
    sqlite_month_exec(t)
}

/// The year's session figures: count, total, longest, distinct games and
/// the most active month.
pub struct YearSessionFigures {
    pub sessions: i64,
    pub total_playtime_secs: i64,
    pub longest_session_secs: i64,
    pub games_played: i64,
    pub most_active_month: Option<i64>,
}

/// Session totals fit in `i64` at every step.
pub open spec fn year_sums_fit(ss: Seq<YearSession>, year: int) -> bool {
    forall|k: int| 0 <= k <= year_sessions(ss, year).len() ==> i64::MIN <= #[trigger] duration_sum(year_sessions(ss, year).take(k)) <= i64::MAX
}

impl YearSession {
    /// A field-by-field copy.
    pub fn duplicate(&self) -> (r: Self)
        ensures
            r == *self,
    {
        YearSession { game_id: self.game_id.clone(), started_at: self.started_at.clone(), duration_secs: self.duration_secs }
    }
}

/// The text bounds of a year.
pub fn year_bounds(year: i32) -> (b: (String, String))
    ensures
        b.0@ == year_start(year as int),
        b.1@ == year_end(year as int),
{
    let mut a = String::new();
    push_i64(&mut a, year as i64);
    let mut z = a.clone();
    push_str(&mut a, "-01-01");
    push_str(&mut z, "-12-31 23:59:59");
    (a, z)
}

fn sessions_in_year(ss: &Vec<YearSession>, year: i32) -> (r: Vec<YearSession>)
    ensures
        r@ == year_sessions(ss@, year as int),
{
    let (start, end) = year_bounds(year);
    let ghost f = |s: YearSession| in_year(s.started_at@, year as int);
    let mut r: Vec<YearSession> = Vec::new();
    let mut i: usize = 0;
    while i < ss.len()
        invariant
            i <= ss@.len(),
            start@ == year_start(year as int),
            end@ == year_end(year as int),
            f == (|s: YearSession| in_year(s.started_at@, year as int)),
            r@ == ss@.take(i as int).filter(f),
        decreases ss@.len() - i,
    {
        proof {
            reveal(Seq::filter);
            assert(ss@.take(i as int + 1).drop_last() =~= ss@.take(i as int));
        }
        let t = ss[i].started_at.as_str();
        if !text_less(t, start.as_str()) && !text_less(end.as_str(), t) {
            r.push(ss[i].duplicate());
        }
        i = i + 1;
    }
    assert(ss@.take(ss@.len() as int) =~= ss@);
    r
}

fn has_game(ids: &Vec<String>, id: &str) -> (b: bool)
    ensures
        b == ids@.map_values(|x: String| x@).contains(id@),
{
    let ghost v = ids@.map_values(|x: String| x@);
    let mut i: usize = 0;
    while i < ids.len()
        invariant
            i <= ids@.len(),
            v == ids@.map_values(|x: String| x@),
            forall|j: int| 0 <= j < i ==> v[j] != id@,
        decreases ids@.len() - i,
    {
        if text_eq(ids[i].as_str(), id) {
            assert(v[i as int] == id@);
            return true;
        }
        i = i + 1;
    }
    false
}

/// The session figures of the year's sessions.
pub fn session_figures(ys: &Vec<YearSession>) -> (f: YearSessionFigures)
    requires
        ys@.len() < 0x8000_0000_0000_0000,
        forall|k: int| 0 <= k <= ys@.len() ==> i64::MIN <= #[trigger] duration_sum(ys@.take(k)) <= i64::MAX,
    ensures
        f.sessions == ys@.len(),
        f.total_playtime_secs == duration_sum(ys@),
        f.longest_session_secs == duration_max(ys@),
        f.games_played == distinct_games(ys@).len(),
        f.most_active_month == match most_active_month_spec(ys@) {
            Some(m) => Some(m as i64),
            None => None::<i64>,
        },
{
    let mut total: i64 = 0;
    let mut longest: i64 = 0;
    let mut ids: Vec<String> = Vec::new();
    let mut counts: Vec<i64> = Vec::new();
    let mut z: usize = 0;
    while z < 13
        invariant
            z <= 13,
            counts@.len() == z,
            forall|m: int| 0 <= m < z ==> #[trigger] counts@[m] == 0,
        decreases 13 - z,
    {
        counts.push(0);
        z = z + 1;
    }
    let mut i: usize = 0;
    while i < ys.len()
        invariant
            i <= ys@.len(),
            ys@.len() < 0x8000_0000_0000_0000,
            forall|k: int| 0 <= k <= ys@.len() ==> i64::MIN <= #[trigger] duration_sum(ys@.take(k)) <= i64::MAX,
            total == duration_sum(ys@.take(i as int)),
            longest == duration_max(ys@.take(i as int)),
            ids@.map_values(|x: String| x@) == distinct_games(ys@.take(i as int)),
            ids@.len() <= i,
            counts@.len() == 13,
            counts@[0] == month_count(ys@.take(i as int), None),
            forall|m: int| 1 <= m <= 12 ==> #[trigger] counts@[m] == month_count(ys@.take(i as int), Some(m)),
            forall|m: int| 0 <= m < 13 ==> 0 <= #[trigger] counts@[m] <= i,
        decreases ys@.len() - i,
    {
        let s = &ys[i];
        let ghost t = ys@.take(i as int + 1);
        proof {
            assert(t.drop_last() =~= ys@.take(i as int));
            assert(t.last() == ys@[i as int]);
            assert(i64::MIN <= duration_sum(t) <= i64::MAX);
        }
        total = total + s.duration_secs;
        if i == 0 || s.duration_secs > longest {
            longest = s.duration_secs;
        }
        if !has_game(&ids, s.game_id.as_str()) {
            let ghost before = ids@;
            ids.push(s.game_id.clone());
            proof {
                assert(ids@.map_values(|x: String| x@) =~= before.map_values(|x: String| x@).push(s.game_id@));
            }
        }
        let slot: usize = match month_of_exec(s.started_at.as_str()) {
            Some(m) => m as usize,
            None => 0,
        };
        let c = counts[slot];
        counts.set(slot, c + 1);
        i = i + 1;
    }
    proof {
        assert(ys@.take(ys@.len() as int) =~= ys@);
    }
    let mut best: usize = 1;
    let mut m: usize = 2;
    while m <= 12
        invariant
            2 <= m <= 13,
            1 <= best < m,
            counts@.len() == 13,
            forall|q: int| 1 <= q <= 12 ==> #[trigger] counts@[q] == month_count(ys@, Some(q)),
            best as int == top_month(ys@, m - 1),
        decreases 13 - m,
    {
        if counts[m] > counts[best] {
            best = m;
        }
        m = m + 1;
    }
    let most = if counts[best] > 0 && counts[best] >= counts[0] { Some(best as i64) } else { None };
    YearSessionFigures {
        sessions: ys.len() as i64,
        total_playtime_secs: total,
        longest_session_secs: longest,
        games_played: ids.len() as i64,
        most_active_month: most,
    }
}

/// Count the games of the year: completed, and added.
pub fn year_game_counts(games: &Vec<YearGame>, year: i32) -> (r: (i64, i64))
    requires
        games@.len() < 0x8000_0000_0000_0000,
    ensures
        r.0 == games@.filter(|g: YearGame| completed_in_year(g, year as int)).len(),
        r.1 == games@.filter(|g: YearGame| added_in_year(g, year as int)).len(),
{
    let (start, end) = year_bounds(year);
    let ghost fc = |g: YearGame| completed_in_year(g, year as int);
    let ghost fa = |g: YearGame| added_in_year(g, year as int);
    let mut completed: i64 = 0;
    let mut added: i64 = 0;
    let mut i: usize = 0;
    while i < games.len()
        invariant
            i <= games@.len(),
            games@.len() < 0x8000_0000_0000_0000,
            start@ == year_start(year as int),
            end@ == year_end(year as int),
            fc == (|g: YearGame| completed_in_year(g, year as int)),
            fa == (|g: YearGame| added_in_year(g, year as int)),
            completed == games@.take(i as int).filter(fc).len(),
            added == games@.take(i as int).filter(fa).len(),
            completed <= i,
            added <= i,
        decreases games@.len() - i,
    {
        let g = &games[i];
        proof {
            reveal(Seq::filter);
            assert(games@.take(i as int + 1).drop_last() =~= games@.take(i as int));
            assert(games@.take(i as int + 1).last() == games@[i as int]);
        }
        let done = text_eq(g.status.as_str(), "completed") && match &g.last_played {
            Some(t) => !text_less(t.as_str(), start.as_str()) && !text_less(end.as_str(), t.as_str()),
            None => false,
        };
        if done {
            completed = completed + 1;
        }
        let a = g.added_at.as_str();
        if !text_less(a, start.as_str()) && !text_less(end.as_str(), a) {
            added = added + 1;
        }
        i = i + 1;
    }
    assert(games@.take(games@.len() as int) =~= games@);
    (completed, added)
}

/// The year in review: the year's sessions and games, with the library's
/// completion rate, most-played games and top genres given.
pub fn year_in_review(
    year: i32,
    sessions: &Vec<YearSession>,
    games: &Vec<YearGame>,
    completion_rate: Fraction,
    top_games: Vec<GamePlaytime>,
    top_genres: Vec<GenreStat>,
) -> (r: YearInReview)
    requires
        sessions@.len() < 0x8000_0000_0000_0000,
        games@.len() < 0x8000_0000_0000_0000,
        year_sums_fit(sessions@, year as int),
    ensures
        r.year@ == dec_int(year as int),
        ({
            let ys = year_sessions(sessions@, year as int);
            &&& r.sessions == ys.len()
            &&& r.total_playtime_secs == duration_sum(ys)
            &&& r.longest_session_secs == duration_max(ys)
            &&& r.games_played == distinct_games(ys).len()
            &&& r.most_active_month == match most_active_month_spec(ys) {
                Some(m) => Some(m as i64),
                None => None::<i64>,
            }
        }),
        r.games_completed == games@.filter(|g: YearGame| completed_in_year(g, year as int)).len(),
        r.games_added == games@.filter(|g: YearGame| added_in_year(g, year as int)).len(),
        r.completion_rate == completion_rate,
        r.top_games == top_games,
        r.top_genres == top_genres,
{
    let ys = sessions_in_year(sessions, year);
    proof {
        let f = |s: YearSession| in_year(s.started_at@, year as int);
        assert(ys@.len() <= sessions@.len()) by {
            sessions@.filter_lemma(f);
        }
    }
    let fig = session_figures(&ys);
    let (completed, added) = year_game_counts(games, year);
    let mut y = String::new();
    push_i64(&mut y, year as i64);
    YearInReview {
        year: y,
        total_playtime_secs: fig.total_playtime_secs,
        games_played: fig.games_played,
        games_completed: completed,
        games_added: added,
        sessions: fig.sessions,
        top_games,
        top_genres,
        most_active_month: fig.most_active_month,
        longest_session_secs: fig.longest_session_secs,
        completion_rate,
    }
}

} // verus!
