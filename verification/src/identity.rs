//! The gaming identity page: profile counts, session patterns, genre
//! preferences and the personality classification drawn from them.

use vstd::prelude::*;
use crate::recommend::Fraction;
use crate::ratio::{fraction_less, small_fraction};
use crate::order::{sort_desc_by_key, stable_desc, text_less, text_lt};
use crate::text::{text_eq, to_lowercase, unicode_lowercase};
use crate::numfmt::push_str;

verus! {

/// What the profile reads of a game.
pub struct ProfileGame {
    pub status: String,
    pub total_playtime_secs: i64,
    pub is_favorite: bool,
    pub added_at: String,
}

/// High-level profile statistics.  `completion_rate` is a percentage.
pub struct ProfileSummary {
    pub total_games: i64,
    pub total_playtime_secs: i64,
    pub completed_games: i64,
    pub playing_games: i64,
    pub favorite_games: i64,
    pub completion_rate: Fraction,
    pub gaming_since: Option<String>,
    pub total_sessions: i64,
    pub total_milestones: i64,
}

/// Number of games satisfying `p`.
pub open spec fn count_games(gs: Seq<ProfileGame>, p: spec_fn(ProfileGame) -> bool) -> int
    decreases gs.len(),
{
    if gs.len() == 0 { 0 } else { count_games(gs.drop_last(), p) + if p(gs.last()) { 1int } else { 0int } }
}

/// Total playtime of the games.
pub open spec fn games_seconds(gs: Seq<ProfileGame>) -> int
    decreases gs.len(),
{
    if gs.len() == 0 { 0 } else { games_seconds(gs.drop_last()) + gs.last().total_playtime_secs }
}

/// The smallest text (the earliest `added_at`) of a non-empty list.
pub open spec fn min_text(s: Seq<Seq<char>>) -> Seq<char>
    decreases s.len(),
{
    if s.len() <= 1 {
        s[0]
    } else {
        let m = min_text(s.drop_last());
        if text_lt(s.last(), m) { s.last() } else { m }
    }
}

/// The completion rate: completed games as a percentage of the games
/// started at all, 0 when none is.
pub open spec fn completion_percent(completed: int, engaged: int) -> (int, int) {
    if engaged > 0 { (100 * completed, engaged) } else { (0, 1) }
}

/// Statuses counted by the profile.
pub open spec fn is_completed(g: ProfileGame) -> bool {
    g.status@ == "completed"@
}

pub open spec fn is_playing(g: ProfileGame) -> bool {
    g.status@ == "playing"@
}

pub open spec fn is_engaged(g: ProfileGame) -> bool {
    g.status@ != "unplayed"@
}

pub open spec fn is_favorite(g: ProfileGame) -> bool {
    g.is_favorite
}

/// The profile summary of a library with the given session and milestone
/// counts.
pub fn calculate_profile_summary(games: &Vec<ProfileGame>, total_sessions: i64, total_milestones: i64) -> (p: ProfileSummary)
    requires
        games@.len() < 0x8000_0000_0000_0000,
        forall|k: int| 0 <= k <= games@.len() ==> i64::MIN <= #[trigger] games_seconds(games@.take(k)) <= i64::MAX,
    ensures
        p.total_games == games@.len(),
        p.total_playtime_secs == games_seconds(games@),
        p.completed_games == count_games(games@, |g: ProfileGame| is_completed(g)),
        p.playing_games == count_games(games@, |g: ProfileGame| is_playing(g)),
        p.favorite_games == count_games(games@, |g: ProfileGame| is_favorite(g)),
        p.completion_rate.pair() == completion_percent(
            count_games(games@, |g: ProfileGame| is_completed(g)),
            count_games(games@, |g: ProfileGame| is_engaged(g)),
        ),
        games@.len() == 0 ==> p.gaming_since.is_none(),
        games@.len() > 0 ==> p.gaming_since.is_some() && p.gaming_since.unwrap()@ == min_text(
            games@.map_values(|g: ProfileGame| g.added_at@),
        ),
        p.total_sessions == total_sessions,
        p.total_milestones == total_milestones,
{
    let ghost gs = games@;
    let ghost fc = |g: ProfileGame| is_completed(g);
    let ghost fp = |g: ProfileGame| is_playing(g);
    let ghost fe = |g: ProfileGame| is_engaged(g);
    let ghost ff = |g: ProfileGame| is_favorite(g);
    let ghost adds = gs.map_values(|g: ProfileGame| g.added_at@);
    let mut total: i64 = 0;
    let mut completed: i64 = 0;
    let mut playing: i64 = 0;
    let mut favorite: i64 = 0;
    let mut engaged: i64 = 0;
    let mut since: Option<String> = None;
    let mut i: usize = 0;
    while i < games.len()
        invariant
            i <= gs.len(),
            gs == games@,
            gs.len() < 0x8000_0000_0000_0000,
            forall|k: int| 0 <= k <= gs.len() ==> i64::MIN <= #[trigger] games_seconds(gs.take(k)) <= i64::MAX,
            fc == (|g: ProfileGame| is_completed(g)),
            fp == (|g: ProfileGame| is_playing(g)),
            fe == (|g: ProfileGame| is_engaged(g)),
            ff == (|g: ProfileGame| is_favorite(g)),
            adds == gs.map_values(|g: ProfileGame| g.added_at@),
            total == games_seconds(gs.take(i as int)),
            completed == count_games(gs.take(i as int), fc),
            playing == count_games(gs.take(i as int), fp),
            engaged == count_games(gs.take(i as int), fe),
            favorite == count_games(gs.take(i as int), ff),
            0 <= completed <= i,
            0 <= playing <= i,
            0 <= engaged <= i,
            0 <= favorite <= i,
            i == 0 ==> since.is_none(),
            i > 0 ==> since.is_some() && since.unwrap()@ == min_text(adds.take(i as int)),
        decreases gs.len() - i,
    {
        let g = &games[i];
        let ghost t = gs.take(i as int + 1);
        proof {
            assert(t.drop_last() =~= gs.take(i as int));
            assert(t.last() == gs[i as int]);
            assert(i64::MIN <= games_seconds(t) <= i64::MAX);
            assert(adds.take(i as int + 1).drop_last() =~= adds.take(i as int));
            assert(adds.take(i as int + 1).last() == g.added_at@);
        }
        total = total + g.total_playtime_secs;
        if text_eq(g.status.as_str(), "completed") {
            completed = completed + 1;
        }
        if text_eq(g.status.as_str(), "playing") {
            playing = playing + 1;
        }
        if !text_eq(g.status.as_str(), "unplayed") {
            engaged = engaged + 1;
        }
        if g.is_favorite {
            favorite = favorite + 1;
        }
        since = match since {
            None => Some(g.added_at.clone()),
            Some(m) => if text_less(g.added_at.as_str(), m.as_str()) { Some(g.added_at.clone()) } else { Some(m) },
        };
        i = i + 1;
    }
    proof {
        assert(gs.take(gs.len() as int) =~= gs);
        assert(adds.take(gs.len() as int) =~= adds);
    }
    let rate = if engaged > 0 {
        Fraction { num: 100 * completed as i128, den: engaged as i128 }
    } else {
        Fraction { num: 0, den: 1 }
    };
    ProfileSummary {
        total_games: games.len() as i64,
        total_playtime_secs: total,
        completed_games: completed,
        playing_games: playing,
        favorite_games: favorite,
        completion_rate: rate,
        gaming_since: since,
        total_sessions,
        total_milestones,
    }
}

/// A recorded session: its start time (RFC 3339 text) and length.
pub struct SessionRow {
    pub started_at: String,
    pub duration_secs: i64,
}

/// Session patterns.  Averages are exact fractions of seconds.
pub struct RuntimeStats {
    pub total_playtime_secs: i64,
    pub average_session: Fraction,
    pub longest_session_secs: i64,
    pub total_sessions: i64,
    pub sessions_last_30_days: i64,
    pub playtime_last_30_days_secs: i64,
    pub average_daily_playtime: Fraction,
    pub most_active_hour: Option<i32>,
    pub streak_current_days: i64,
    pub streak_longest_days: i64,
}

/// Sessions started at or after `cutoff` (timestamps compared as text).
pub open spec fn recent(s: SessionRow, cutoff: Seq<char>) -> bool {
    !text_lt(s.started_at@, cutoff)
}

/// Count and total length of the sessions since `cutoff`.
pub open spec fn recent_totals(ss: Seq<SessionRow>, cutoff: Seq<char>) -> (int, int)
    decreases ss.len(),
{
    if ss.len() == 0 {
        (0, 0)
    } else {
        let r = recent_totals(ss.drop_last(), cutoff);
        if recent(ss.last(), cutoff) { (r.0 + 1, r.1 + ss.last().duration_secs) } else { r }
    }
}

/// The longest session, 0 without sessions.
pub open spec fn longest(ss: Seq<SessionRow>) -> int
    decreases ss.len(),
{
    if ss.len() == 0 {
        0
    } else if ss.len() == 1 {
        ss[0].duration_secs as int
    } else {
        let m = longest(ss.drop_last());
        if ss.last().duration_secs > m { ss.last().duration_secs as int } else { m }
    }
}

/// The session statistics: averages over all sessions and over the last
/// thirty days (`cutoff` is the timestamp thirty days ago); the longest
/// streak is reported as the current one.
pub fn calculate_runtime_stats(total_playtime_secs: i64, sessions: &Vec<SessionRow>, cutoff: &str, streak: i64) -> (r: RuntimeStats)
    requires
        sessions@.len() < 0x8000_0000_0000_0000,
        forall|k: int| 0 <= k <= sessions@.len() ==> i64::MIN <= (#[trigger] recent_totals(sessions@.take(k), cutoff@)).1
            <= i64::MAX,
    ensures
        r.total_playtime_secs == total_playtime_secs,
        r.total_sessions == sessions@.len(),
        r.average_session.pair() == (if sessions@.len() > 0 {
            (total_playtime_secs as int, sessions@.len() as int)
        } else {
            (0, 1)
        }),
        r.longest_session_secs == longest(sessions@),
        r.sessions_last_30_days == recent_totals(sessions@, cutoff@).0,
        r.playtime_last_30_days_secs == recent_totals(sessions@, cutoff@).1,
        r.average_daily_playtime.pair() == (recent_totals(sessions@, cutoff@).1, 30int),
        r.most_active_hour.is_none(),
        r.streak_current_days == streak,
        r.streak_longest_days == streak,
{
    let ghost ss = sessions@;
    let mut count: i64 = 0;
    let mut total30: i64 = 0;
    let mut best: i64 = 0;
    let mut i: usize = 0;
    while i < sessions.len()
        invariant
            i <= ss.len(),
            ss == sessions@,
            ss.len() < 0x8000_0000_0000_0000,
            forall|k: int| 0 <= k <= ss.len() ==> i64::MIN <= (#[trigger] recent_totals(ss.take(k), cutoff@)).1 <= i64::MAX,
            count == recent_totals(ss.take(i as int), cutoff@).0,
            total30 == recent_totals(ss.take(i as int), cutoff@).1,
            0 <= count <= i,
            best == longest(ss.take(i as int)),
        decreases ss.len() - i,
    {
        let s = &sessions[i];
        let ghost t = ss.take(i as int + 1);
        proof {
            assert(t.drop_last() =~= ss.take(i as int));
            assert(t.last() == ss[i as int]);
            assert(i64::MIN <= recent_totals(t, cutoff@).1 <= i64::MAX);
        }
        if !text_less(s.started_at.as_str(), cutoff) {
            count = count + 1;
            total30 = total30 + s.duration_secs;
        }
        if i == 0 || s.duration_secs > best {
            best = s.duration_secs;
        }
        i = i + 1;
    }
    proof {
        assert(ss.take(ss.len() as int) =~= ss);
    }
    let n = sessions.len() as i64;
    let avg = if n > 0 {
        Fraction { num: total_playtime_secs as i128, den: n as i128 }
    } else {
        Fraction { num: 0, den: 1 }
    };
    RuntimeStats {
        total_playtime_secs,
        average_session: avg,
        longest_session_secs: best,
        total_sessions: n,
        sessions_last_30_days: count,
        playtime_last_30_days_secs: total30,
        average_daily_playtime: Fraction { num: total30 as i128, den: 30 },
        most_active_hour: None,
        streak_current_days: streak,
        streak_longest_days: streak,
    }
}

/// The calendar day (as a day number) on which an RFC 3339 timestamp falls
/// in its own offset; `None` when chrono rejects the text.
pub uninterp spec fn rfc3339_local_day(s: Seq<char>) -> Option<int>;

/// `DateTime::parse_from_rfc3339(s)` followed by `date_naive()` and
/// `num_days_from_ce()`: the result is exactly the named
/// `rfc3339_local_day(s)`; nothing more is stated of chrono's parser.
#[verifier::external_body]
fn local_day(s: &str) -> (r: Option<i32>)
    ensures
        match r {
            Some(d) => rfc3339_local_day(s@) == Some(d as int),
            None => rfc3339_local_day(s@).is_none(),
        },
{
    match chrono::DateTime::parse_from_rfc3339(s) {
        Ok(d) => Some(chrono::Datelike::num_days_from_ce(&d.date_naive())),
        Err(_) => None,
    }
}

/// The streak counted from the most recent session back: dates that
/// cannot be read are passed over; each readable date at most one day
/// before the day expected extends the streak and moves the expectation to
/// the day before it; the first gap ends it.
pub open spec fn streak_from(days: Seq<Option<int>>, expected: int) -> int
    decreases days.len(),
{
    if days.len() == 0 {
        0
    } else {
        match days[0] {
            None => streak_from(days.drop_first(), expected),
            Some(d) => if expected - d <= 1 { 1 + streak_from(days.drop_first(), d - 1) } else { 0 },
        }
    }
}

/// Session dates (newest first) as the streak reads them.
pub open spec fn session_days(dates: Seq<String>) -> Seq<Option<int>> {
    dates.map_values(|d: String| rfc3339_local_day(d@))
}

proof fn lemma_streak_bound(days: Seq<Option<int>>, expected: int)
    ensures
        0 <= streak_from(days, expected) <= days.len(),
    decreases days.len(),
{
    if days.len() > 0 {
        match days[0] {
            None => lemma_streak_bound(days.drop_first(), expected),
            Some(d) => lemma_streak_bound(days.drop_first(), d - 1),
        }
    }
}

/// The current streak of consecutive play days, from the session dates
/// newest first and today's day number.
pub fn calculate_current_streak(dates: &Vec<String>, today: i32) -> (n: i64)
    requires
        dates@.len() < 0x8000_0000_0000_0000,
    ensures
        n == streak_from(session_days(dates@), today as int),
{
    let ghost all = session_days(dates@);
    let mut acc: Vec<Option<i32>> = Vec::new();
    let mut k: usize = 0;
    while k < dates.len()
        invariant
            k <= dates@.len(),
            all == session_days(dates@),
            acc@.len() == k,
            forall|j: int| 0 <= j < k ==> match #[trigger] acc@[j] {
                Some(d) => all[j] == Some(d as int),
                None => all[j].is_none(),
            },
        decreases dates@.len() - k,
    {
        acc.push(local_day(dates[k].as_str()));
        k = k + 1;
    }
    let mut streak: i64 = 0;
    let mut expected: i64 = today as i64;
    let mut j: usize = 0;
    proof {
        lemma_streak_bound(all, today as int);
        assert(all.skip(0) =~= all);
    }
    while j < acc.len()
        invariant
            j <= acc@.len(),
            acc@.len() == all.len(),
            all.len() == dates@.len(),
            all == session_days(dates@),
            dates@.len() < 0x8000_0000_0000_0000,
            forall|q: int| 0 <= q < acc@.len() ==> match #[trigger] acc@[q] {
                Some(d) => all[q] == Some(d as int),
                None => all[q].is_none(),
            },
            0 <= streak <= j,
            i32::MIN - 1 <= expected <= i32::MAX,
            streak + streak_from(all.skip(j as int), expected as int) == streak_from(all, today as int),
        decreases acc@.len() - j,
    {
        let ghost rest = all.skip(j as int);
        proof {
            assert(rest[0] == all[j as int]);
            assert(rest.drop_first() =~= all.skip(j as int + 1));
        }
        match acc[j] {
            None => {},
            Some(d) => {
                if expected - (d as i64) <= 1 {
                    streak = streak + 1;
                    expected = d as i64 - 1;
                } else {
                    proof {
                        lemma_streak_bound(all.skip(j as int + 1), d - 1);
                    }
                    return streak;
                }
            },
        }
        j = j + 1;
    }
    proof {
        assert(all.skip(acc@.len() as int).len() == 0);
    }
    streak
}

/// Genre totals as the library query groups them.
pub struct GenreRow {
    pub genre: String,
    pub game_count: i64,
    pub total_playtime_secs: i64,
    pub milestone_count: i64,
}

/// A genre preference.  `preference_tenths` is ten times the preference
/// score `0.7 · playtime + 500 · milestones`.
pub struct GenrePreference {
    pub genre: String,
    pub game_count: i64,
    pub total_playtime_secs: i64,
    pub milestone_count: i64,
    pub preference_tenths: i128,
}

/// Ten times the preference score of a genre.
pub open spec fn preference_tenths(playtime: int, milestones: int) -> int {
    7 * playtime + 5000 * milestones
}

/// Sort keys that order preferences like their scores.
pub open spec fn preference_keys(rows: Seq<GenreRow>) -> Seq<u128> {
    rows.map_values(
        |r: GenreRow| (preference_tenths(r.total_playtime_secs as int, r.milestone_count as int) + 0x1_0000_0000_0000_0000_0000) as u128,
    )
}

/// `r` is the preference record of `row`.
pub open spec fn preference_of(p: GenrePreference, row: GenreRow) -> bool {
    &&& p.genre@ == row.genre@
    &&& p.game_count == row.game_count
    &&& p.total_playtime_secs == row.total_playtime_secs
    &&& p.milestone_count == row.milestone_count
    &&& p.preference_tenths == preference_tenths(row.total_playtime_secs as int, row.milestone_count as int)
}

/// Genre preferences ordered by score, highest first (equal scores keep
/// their order).
pub fn rank_genre_preferences(rows: &Vec<GenreRow>) -> (r: Vec<GenrePreference>)
    ensures
        exists|order: Seq<usize>| #[trigger] stable_desc(preference_keys(rows@), order) && r@.len() == rows@.len()
            && forall|j: int| 0 <= j < r@.len() ==> preference_of(#[trigger] r@[j], rows@[order[j] as int]),
{
    let mut keys: Vec<u128> = Vec::new();
    let mut i: usize = 0;
    while i < rows.len()
        invariant
            i <= rows@.len(),
            keys@.len() == i,
            forall|j: int| 0 <= j < i ==> #[trigger] keys@[j] == preference_keys(rows@)[j],
        decreases rows@.len() - i,
    {
        let row = &rows[i];
        let t = 7 * row.total_playtime_secs as i128 + 5000 * row.milestone_count as i128;
        keys.push((t + 0x1_0000_0000_0000_0000_0000) as u128);
        i = i + 1;
    }
    assert(keys@ =~= preference_keys(rows@));
    let order = sort_desc_by_key(&keys);
    let mut r: Vec<GenrePreference> = Vec::new();
    let mut k: usize = 0;
    while k < order.len()
        invariant
            k <= order@.len(),
            order@.len() == rows@.len(),
            forall|j: int| 0 <= j < order@.len() ==> #[trigger] order@[j] < rows@.len(),
            r@.len() == k,
            forall|j: int| 0 <= j < k ==> preference_of(#[trigger] r@[j], rows@[order@[j] as int]),
        decreases order@.len() - k,
    {
        let row = &rows[order[k]];
        r.push(GenrePreference {
            genre: row.genre.clone(),
            game_count: row.game_count,
            total_playtime_secs: row.total_playtime_secs,
            milestone_count: row.milestone_count,
            preference_tenths: 7 * row.total_playtime_secs as i128 + 5000 * row.milestone_count as i128,
        });
        k = k + 1;
    }
    assert(stable_desc(preference_keys(rows@), order@));
    r
}

/// `a < b` for fractions with positive denominators.
pub open spec fn frac_lt(a: (int, int), b: (int, int)) -> bool {
    a.0 * b.1 < b.0 * a.1
}

/// The scores of the six personality traits — completionist, explorer,
/// achiever, dedicated, casual, collector — `None` for a trait the player
/// does not show:
/// completionist above a 70 % completion rate (scored by the rate);
/// explorer with five or more preferred genres (10 per genre);
/// achiever above two milestones per game (20 per milestone per game);
/// dedicated above two-hour sessions on average or a streak longer than a
/// week (the average in units of 360 s);
/// casual below one-hour sessions and fewer than 15 sessions in 30 days (50);
/// collector above 50 games (one per game).
pub open spec fn trait_scores(
    rate: (int, int),
    genre_count: int,
    total_games: int,
    total_milestones: int,
    avg: (int, int),
    streak_longest: int,
    sessions30: int,
) -> Seq<Option<(int, int)>> {
    seq![
        if frac_lt((70, 1), rate) { Some(rate) } else { None },
        if genre_count >= 5 { Some((10 * genre_count, 1)) } else { None },
        if total_games > 0 && total_milestones > 2 * total_games { Some((20 * total_milestones, total_games)) } else { None },
        if frac_lt((7200, 1), avg) || streak_longest > 7 { Some((avg.0, avg.1 * 360)) } else { None },
        if frac_lt(avg, (3600, 1)) && sessions30 < 15 { Some((50int, 1int)) } else { None },
        if total_games > 50 { Some((total_games, 1int)) } else { None }
    ]
}

/// The trait with the highest score, other than `skip` — the first listed
/// of equal ones.
pub open spec fn best_trait(scores: Seq<Option<(int, int)>>, skip: int) -> Option<int>
    decreases scores.len(),
{
    if scores.len() == 0 {
        None
    } else {
        let prev = best_trait(scores.drop_last(), skip);
        let l = scores.len() - 1;
        if l == skip || scores[l].is_none() {
            prev
        } else {
            match prev {
                None => Some(l),
                Some(p) => if frac_lt(scores[p].unwrap(), scores[l].unwrap()) { Some(l) } else { Some(p) },
            }
        }
    }
}

/// Trait keys, as the classification reports the primary and secondary type.
pub open spec fn trait_key(i: int) -> Seq<char> {
    if i == 0 {
        "completionist"@
    } else if i == 1 {
        "explorer"@
    } else if i == 2 {
        "achiever"@
    } else if i == 3 {
        "dedicated"@
    } else if i == 4 {
        "casual"@
    } else {
        "collector"@
    }
}

/// Trait names, as the trait list shows them.
pub open spec fn trait_name(i: int) -> Seq<char> {
    if i == 0 {
        "Completionist"@
    } else if i == 1 {
        "Explorer"@
    } else if i == 2 {
        "Achiever"@
    } else if i == 3 {
        "Dedicated"@
    } else if i == 4 {
        "Casual"@
    } else {
        "Collector"@
    }
}

/// The names of the traits shown, in order.
pub open spec fn shown_traits(scores: Seq<Option<(int, int)>>) -> Seq<Seq<char>>
    decreases scores.len(),
{
    if scores.len() == 0 {
        Seq::empty()
    } else {
        shown_traits(scores.drop_last()) + if scores.last().is_some() {
            seq![trait_name(scores.len() - 1)]
        } else {
            Seq::empty()
        }
    }
}

proof fn lemma_trait_names_distinct(a: int, b: int)
    requires
        0 <= a < b < 6,
    ensures
        trait_name(a) != trait_name(b),
{
    reveal_strlit("Completionist");
    reveal_strlit("Explorer");
    reveal_strlit("Achiever");
    reveal_strlit("Dedicated");
    reveal_strlit("Casual");
    reveal_strlit("Collector");
    if trait_name(a).len() == trait_name(b).len() {
        assert(trait_name(a)[0] != trait_name(b)[0]);
    }
}

proof fn lemma_shown_contains(s: Seq<Option<(int, int)>>, k: int)
    requires
        s.len() <= 6,
        0 <= k < 6,
    ensures
        shown_traits(s).contains(trait_name(k)) <==> (k < s.len() && s[k].is_some()),
    decreases s.len(),
{
    if s.len() > 0 {
        let d = s.drop_last();
        let l = s.len() - 1;
        lemma_shown_contains(d, k);
        let prev = shown_traits(d);
        let tail = if s.last().is_some() { seq![trait_name(l)] } else { Seq::<Seq<char>>::empty() };
        let all = shown_traits(s);
        assert(all == prev + tail);
        if k < l {
            assert(d[k] == s[k]);
        }
        if k != l && s.last().is_some() {
            if k < l {
                lemma_trait_names_distinct(k, l);
            } else {
                lemma_trait_names_distinct(l, k);
            }
        }
        if all.contains(trait_name(k)) {
            let x = choose|x: int| 0 <= x < all.len() && all[x] == trait_name(k);
            if x < prev.len() {
                assert(prev[x] == all[x]);
                assert(prev.contains(trait_name(k)));
            } else {
                assert(all[x] == tail[x - prev.len()]);
            }
        }
        if prev.contains(trait_name(k)) {
            let x = choose|x: int| 0 <= x < prev.len() && prev[x] == trait_name(k);
            assert(all[x] == prev[x]);
        }
        if k == l && s.last().is_some() {
            assert(all[prev.len() as int] == trait_name(k));
        }
    }
}

/// Which traits a player shows, by the figures of the profile and the play
/// sessions: Completionist above a 70 % completion rate, Explorer with five
/// or more preferred genres, Achiever above two milestones per game,
/// Dedicated with sessions above two hours on average or a streak longer
/// than a week (scored by the average session in units of 360 s, whatever
/// its length), Casual below one-hour sessions with fewer than 15 sessions
/// in 30 days, Collector above 50 games.
pub proof fn lemma_personality_traits(profile: ProfileSummary, genre_count: int, runtime: RuntimeStats)
    ensures
        ({
            let scores = scores_of(profile, genre_count, runtime);
            let traits = shown_traits(scores);
            let rate = profile.completion_rate;
            let avg = runtime.average_session;
            &&& traits.contains("Completionist"@) <==> 70 * rate.den < rate.num
            &&& traits.contains("Explorer"@) <==> genre_count >= 5
            &&& traits.contains("Achiever"@) <==> profile.total_games > 0 && profile.total_milestones > 2
                * profile.total_games
            &&& traits.contains("Dedicated"@) <==> 7200 * avg.den < avg.num || runtime.streak_longest_days > 7
            &&& runtime.streak_longest_days > 7 ==> scores[3] == Some((avg.num as int, avg.den * 360))
            &&& traits.contains("Casual"@) <==> avg.num < 3600 * avg.den && runtime.sessions_last_30_days < 15
            &&& traits.contains("Collector"@) <==> profile.total_games > 50
        }),
{
    let scores = scores_of(profile, genre_count, runtime);
    let traits = shown_traits(scores);
    let rate = profile.completion_rate;
    let avg = runtime.average_session;
    lemma_frac_lt_whole(rate.num as int, rate.den as int, 70);
    lemma_frac_lt_whole(avg.num as int, avg.den as int, 7200);
    lemma_frac_lt_whole(avg.num as int, avg.den as int, 3600);
    assert(scores.len() == 6);
    assert forall|k: int| 0 <= k < 6 implies #[trigger] traits.contains(trait_name(k)) == scores[k].is_some() by {
        lemma_shown_contains(scores, k);
    }
    assert(traits.contains(trait_name(0)) == scores[0].is_some());
    assert(traits.contains(trait_name(1)) == scores[1].is_some());
    assert(traits.contains(trait_name(2)) == scores[2].is_some());
    assert(traits.contains(trait_name(3)) == scores[3].is_some());
    assert(traits.contains(trait_name(4)) == scores[4].is_some());
    assert(traits.contains(trait_name(5)) == scores[5].is_some());
}

proof fn lemma_frac_lt_whole(n: int, d: int, c: int)
    ensures
        frac_lt((c, 1), (n, d)) <==> c * d < n,
        frac_lt((n, d), (c, 1)) <==> n < c * d,
{
}

/// The gaming personality.
pub struct GamingPersonality {
    pub primary_type: String,
    pub secondary_type: Option<String>,
    pub traits: Vec<String>,
    pub description: String,
}

/// A trait score for comparison: `num / (den · 360)` when `per_360`, else
/// `num / den`.
struct TraitScore {
    num: i128,
    den: u128,
    per_360: bool,
}

impl TraitScore {
    spec fn value(self) -> (int, int) {
        (self.num as int, if self.per_360 { self.den * 360 } else { self.den as int })
    }

    spec fn fits(self) -> bool {
        -0x4000_0000_0000_0000_0000_0000_0000 < self.num < 0x4000_0000_0000_0000_0000_0000_0000 && 0 < self.den
            < 0x1_0000_0000_0000_0000
    }
}

fn score_less(a: &TraitScore, b: &TraitScore) -> (r: bool)
    requires
        a.fits(),
        b.fits(),
    ensures
        r == frac_lt(a.value(), b.value()),
{
    let an: i128 = if b.per_360 { a.num * 360 } else { a.num };
    let bn: i128 = if a.per_360 { b.num * 360 } else { b.num };
    let r = fraction_less(an, a.den, bn, b.den);
    proof {
        let ad = a.den as int;
        let bd = b.den as int;
        let x = a.num as int;
        let y = b.num as int;
        if a.per_360 && b.per_360 {
            assert((x * 360) * bd < (y * 360) * ad <==> x * (bd * 360) < y * (ad * 360)) by (nonlinear_arith);
        } else if a.per_360 {
            assert(x * bd < (y * 360) * ad <==> x * bd < y * (ad * 360)) by (nonlinear_arith);
        } else if b.per_360 {
            assert((x * 360) * bd < y * ad <==> x * (bd * 360) < y * ad) by (nonlinear_arith);
        }
    }
    r
}

fn trait_key_text(i: usize) -> (s: String)
    ensures
        s@ == trait_key(i as int),
{
    if i == 0 {
        "completionist".to_string()
    } else if i == 1 {
        "explorer".to_string()
    } else if i == 2 {
        "achiever".to_string()
    } else if i == 3 {
        "dedicated".to_string()
    } else if i == 4 {
        "casual".to_string()
    } else {
        "collector".to_string()
    }
}

fn trait_name_text(i: usize) -> (s: String)
    ensures
        s@ == trait_name(i as int),
{
    if i == 0 {
        "Completionist".to_string()
    } else if i == 1 {
        "Explorer".to_string()
    } else if i == 2 {
        "Achiever".to_string()
    } else if i == 3 {
        "Dedicated".to_string()
    } else if i == 4 {
        "Casual".to_string()
    } else {
        "Collector".to_string()
    }
}

/// A score fits the comparison when its magnitude stays below `2^110` and
/// its denominator is positive and below `2^64` — as the profile and
/// runtime statistics make them.
pub open spec fn score_input_ok(f: Fraction) -> bool {
    -0x4000_0000_0000_0000_0000_0000_0000 < f.num < 0x4000_0000_0000_0000_0000_0000_0000 && 0 < f.den
        < 0x1_0000_0000_0000_0000
}

spec fn score_views(v: Seq<Option<TraitScore>>) -> Seq<Option<(int, int)>> {
    v.map_values(|o: Option<TraitScore>| match o {
        Some(t) => Some(t.value()),
        None => None,
    })
}

fn best_index(scores: &Vec<Option<TraitScore>>, skip: usize) -> (r: Option<usize>)
    requires
        forall|i: int| 0 <= i < scores@.len() ==> match #[trigger] scores@[i] {
            Some(t) => t.fits(),
            None => true,
        },
    ensures
        match r {
            Some(i) => best_trait(score_views(scores@), skip as int) == Some(i as int) && i < scores@.len(),
            None => best_trait(score_views(scores@), skip as int).is_none(),
        },
{
    let ghost sv = score_views(scores@);
    let mut best: Option<usize> = None;
    let mut i: usize = 0;
    while i < scores.len()
        invariant
            i <= scores@.len(),
            sv == score_views(scores@),
            forall|q: int| 0 <= q < scores@.len() ==> match #[trigger] scores@[q] {
                Some(t) => t.fits(),
                None => true,
            },
            match best {
                Some(b) => best_trait(sv.take(i as int), skip as int) == Some(b as int) && b < i && scores@[b as int].is_some(),
                None => best_trait(sv.take(i as int), skip as int).is_none(),
            },
        decreases scores@.len() - i,
    {
        let ghost t = sv.take(i as int + 1);
        proof {
            assert(t.drop_last() =~= sv.take(i as int));
            assert(t[i as int] == sv[i as int]);
            match best {
                Some(b) => {
                    assert(t[b as int] == sv[b as int]);
                },
                None => {},
            }
        }
        if i != skip {
            match &scores[i] {
                Some(cand) => {
                    match best {
                        None => {
                            best = Some(i);
                        },
                        Some(b) => {
                            match &scores[b] {
                                Some(cur) => {
                                    if score_less(cur, cand) {
                                        best = Some(i);
                                    }
                                },
                                None => {},
                            }
                        },
                    }
                },
                None => {},
            }
        }
        i = i + 1;
    }
    proof {
        assert(sv.take(scores@.len() as int) =~= sv);
    }
    best
}

/// The personality description: a sentence for the primary type, with the
/// secondary type (lower-cased) as a "streak" when there is one.
pub open spec fn personality_base(primary: Seq<char>) -> Seq<char> {
    if primary == "completionist"@ {
        "You strive to see everything a game has to offer, achieving full completion"@
    } else if primary == "explorer"@ {
        "You love discovering new experiences across diverse gaming genres"@
    } else if primary == "achiever"@ {
        "You're driven by challenges and milestones, constantly pushing your limits"@
    } else if primary == "dedicated"@ {
        "You commit deeply to your games with long, immersive sessions"@
    } else if primary == "casual"@ {
        "You enjoy gaming at your own pace, fitting it into your lifestyle"@
    } else if primary == "collector"@ {
        "You appreciate building a diverse library of gaming experiences"@
    } else {
        "You have a unique gaming style"@
    }
}

/// The full description sentence.
pub open spec fn personality_description(primary: Seq<char>, secondary: Option<Seq<char>>) -> Seq<char> {
    match secondary {
        Some(sec) => personality_base(primary) + ", with a "@ + unicode_lowercase(sec) + " streak."@,
        None => personality_base(primary) + "."@,
    }
}

fn base_text(primary: &str) -> (s: &'static str)
    ensures
        s@ == personality_base(primary@),
{
    if text_eq(primary, "completionist") {
        "You strive to see everything a game has to offer, achieving full completion"
    } else if text_eq(primary, "explorer") {
        "You love discovering new experiences across diverse gaming genres"
    } else if text_eq(primary, "achiever") {
        "You're driven by challenges and milestones, constantly pushing your limits"
    } else if text_eq(primary, "dedicated") {
        "You commit deeply to your games with long, immersive sessions"
    } else if text_eq(primary, "casual") {
        "You enjoy gaming at your own pace, fitting it into your lifestyle"
    } else if text_eq(primary, "collector") {
        "You appreciate building a diverse library of gaming experiences"
    } else {
        "You have a unique gaming style"
    }
}

/// Describe a personality from its primary and secondary types.
pub fn generate_personality_description(primary: &str, secondary: Option<&str>) -> (d: String)
    ensures
        d@ == personality_description(primary@, match secondary {
            Some(s) => Some(s@),
            None => None,
        }),
{
    let mut d = String::new();
    push_str(&mut d, base_text(primary));
    match secondary {
        Some(sec) => {
            push_str(&mut d, ", with a ");
            let low = to_lowercase(sec);
            push_str(&mut d, low.as_str());
            push_str(&mut d, " streak.");
        },
        None => push_str(&mut d, "."),
    }
    d
}

/// The scores classification uses for a profile.
pub open spec fn scores_of(profile: ProfileSummary, genre_count: int, runtime: RuntimeStats) -> Seq<Option<(int, int)>> {
    trait_scores(
        profile.completion_rate.pair(),
        genre_count,
        profile.total_games as int,
        profile.total_milestones as int,
        runtime.average_session.pair(),
        runtime.streak_longest_days as int,
        runtime.sessions_last_30_days as int,
    )
}

fn trait_score_list(profile: &ProfileSummary, n: usize, runtime: &RuntimeStats) -> (scores: Vec<Option<TraitScore>>)
    requires
        score_input_ok(profile.completion_rate),
        score_input_ok(runtime.average_session),
    ensures
        score_views(scores@) == scores_of(*profile, n as int, *runtime),
        scores@.len() == 6,
        forall|i: int| 0 <= i < scores@.len() ==> match #[trigger] scores@[i] {
            Some(t) => t.fits(),
            None => true,
        },
{
    let rate = profile.completion_rate;
    let avg = runtime.average_session;
    let g = profile.total_games;
    let m = profile.total_milestones;
    let mut scores: Vec<Option<TraitScore>> = Vec::new();
    if fraction_less(70, 1, rate.num, rate.den as u128) {
        scores.push(Some(TraitScore { num: rate.num, den: rate.den as u128, per_360: false }));
    } else {
        scores.push(None);
    }
    if n >= 5 {
        scores.push(Some(TraitScore { num: 10 * n as i128, den: 1, per_360: false }));
    } else {
        scores.push(None);
    }
    if g > 0 && m as i128 > 2 * g as i128 {
        scores.push(Some(TraitScore { num: 20 * m as i128, den: g as u128, per_360: false }));
    } else {
        scores.push(None);
    }
    if fraction_less(7200, 1, avg.num, avg.den as u128) || runtime.streak_longest_days > 7 {
        scores.push(Some(TraitScore { num: avg.num, den: avg.den as u128, per_360: true }));
    } else {
        scores.push(None);
    }
    if fraction_less(avg.num, avg.den as u128, 3600, 1) && runtime.sessions_last_30_days < 15 {
        scores.push(Some(TraitScore { num: 50, den: 1, per_360: false }));
    } else {
        scores.push(None);
    }
    if g > 50 {
        scores.push(Some(TraitScore { num: g as i128, den: 1, per_360: false }));
    } else {
        scores.push(None);
    }
    assert(score_views(scores@) =~= scores_of(*profile, n as int, *runtime));
    scores
}

fn shown_names(scores: &Vec<Option<TraitScore>>) -> (traits: Vec<String>)
    ensures
        traits@.map_values(|t: String| t@) == shown_traits(score_views(scores@)),
{
    let ghost sv = score_views(scores@);
    let mut traits: Vec<String> = Vec::new();
    let mut i: usize = 0;
    while i < scores.len()
        invariant
            i <= scores@.len(),
            sv == score_views(scores@),
            traits@.map_values(|t: String| t@) == shown_traits(sv.take(i as int)),
        decreases scores@.len() - i,
    {
        let ghost before = traits@;
        proof {
            assert(sv.take(i as int + 1).drop_last() =~= sv.take(i as int));
            assert(sv.take(i as int + 1).last() == sv[i as int]);
        }
        if scores[i].is_some() {
            traits.push(trait_name_text(i));
            proof {
                assert(traits@.map_values(|t: String| t@) =~= before.map_values(|t: String| t@).push(trait_name(i as int)));
            }
        }
        i = i + 1;
    }
    assert(sv.take(scores@.len() as int) =~= sv);
    traits
}

proof fn lemma_skip_outside(scores: Seq<Option<(int, int)>>, a: int, b: int)
    requires
        a >= scores.len(),
        b >= scores.len(),
    ensures
        best_trait(scores, a) == best_trait(scores, b),
    decreases scores.len(),
{
    if scores.len() > 0 {
        lemma_skip_outside(scores.drop_last(), a, b);
    }
}

proof fn lemma_skip_negative(scores: Seq<Option<(int, int)>>)
    ensures
        best_trait(scores, -1) == best_trait(scores, scores.len() as int),
    decreases scores.len(),
{
    if scores.len() > 0 {
        lemma_skip_negative(scores.drop_last());
        lemma_skip_outside(scores.drop_last(), scores.len() - 1, scores.len() as int);
    }
}

/// Classify the player's personality: the traits shown, the primary type
/// (the highest score, `Casual` when no trait shows), the secondary type
/// (the next highest) and the description.
pub fn classify_personality(profile: &ProfileSummary, genres: &Vec<GenrePreference>, runtime: &RuntimeStats) -> (p: GamingPersonality)
    requires
        score_input_ok(profile.completion_rate),
        score_input_ok(runtime.average_session),
    ensures
        ({
            let scores = scores_of(*profile, genres@.len() as int, *runtime);
            &&& p.traits@.map_values(|t: String| t@) == shown_traits(scores)
            &&& match best_trait(scores, -1) {
                None => p.primary_type@ == "Casual"@ && p.secondary_type.is_none(),
                Some(i) => p.primary_type@ == trait_key(i) && match best_trait(scores, i) {
                    Some(j) => p.secondary_type.is_some() && p.secondary_type.unwrap()@ == trait_key(j),
                    None => p.secondary_type.is_none(),
                },
            }
            &&& p.description@ == personality_description(p.primary_type@, match p.secondary_type {
                Some(s) => Some(s@),
                None => None,
            })
        }),
{
    let scores = trait_score_list(profile, genres.len(), runtime);
    let traits = shown_names(&scores);
    let first = best_index(&scores, 6);
    proof {
        lemma_skip_negative(score_views(scores@));
    }
    let (primary_type, secondary_type) = match first {
        None => ("Casual".to_string(), None),
        Some(i) => {
            let second = best_index(&scores, i);
            let sec = match second {
                Some(j) => Some(trait_key_text(j)),
                None => None,
            };
            (trait_key_text(i), sec)
        },
    };
    let description = match &secondary_type {
        Some(s) => generate_personality_description(primary_type.as_str(), Some(s.as_str())),
        None => generate_personality_description(primary_type.as_str(), None),
    };
    GamingPersonality { primary_type, secondary_type, traits, description }
}

} // verus!
