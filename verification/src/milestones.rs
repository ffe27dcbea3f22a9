//! Milestones: the queries that list and count them, their statistics,
//! the default templates and the move of old journal milestones.

use std::collections::hash_map::DefaultHasher;
use std::hash::Hasher;
use vstd::prelude::*;
use vstd::std_specs::hash::DefaultHasherAdditionalSpecFns;
use crate::numfmt::{digit_char_of, fmt_hex_width, hex_width, pow16, push_char, push_str};
use crate::recommend::{div_trunc, Fraction};
use crate::dates::{instant_of, rfc3339_instant};
use crate::order::{sort_by_text, stable_by_text};
use crate::text::{text_eq, trim, trim_seq};

verus! {

/// The milestone listing query for the filters given: by game, by
/// category, and a row limit; newest achievements first.
pub open spec fn milestone_query(by_game: bool, by_category: bool, limited: bool) -> Seq<char> {
    "SELECT id, game_id, title, description, category, difficulty,
                achievement_date, points, metadata, created_at, updated_at
         FROM milestones WHERE 1=1"@ + (if by_game { " AND game_id = ?"@ } else { Seq::empty() }) + (if by_category {
        " AND category = ?"@
    } else {
        Seq::empty()
    }) + " ORDER BY achievement_date DESC"@ + (if limited { " LIMIT ?"@ } else { Seq::empty() })
}

/// Build the milestone listing query.
pub fn build_milestone_query(by_game: bool, by_category: bool, limited: bool) -> (q: String)
    ensures
        q@ == milestone_query(by_game, by_category, limited),
{
    let mut q = String::new();
    push_str(
        &mut q,
        "SELECT id, game_id, title, description, category, difficulty,
                achievement_date, points, metadata, created_at, updated_at
         FROM milestones WHERE 1=1",
    );
    let ghost s0 = q@;
    if by_game {
        push_str(&mut q, " AND game_id = ?");
    }
    let ghost s1 = q@;
    if by_category {
        push_str(&mut q, " AND category = ?");
    }
    let ghost s2 = q@;
    push_str(&mut q, " ORDER BY achievement_date DESC");
    let ghost s3 = q@;
    if limited {
        push_str(&mut q, " LIMIT ?");
    }
    proof {
        reveal_strlit("");
        if !by_game {
            assert(s1 =~= s0 + Seq::<char>::empty());
        }
        if !by_category {
            assert(s2 =~= s1 + Seq::<char>::empty());
        }
        if !limited {
            assert(q@ =~= s3 + Seq::<char>::empty());
        }
    }
    assert(q@ =~= milestone_query(by_game, by_category, limited));
    q
}

/// The filter statistics queries append: `WHERE game_id = ?1` for one
/// game, nothing for all.
pub open spec fn where_clause(by_game: bool) -> Seq<char> {
    if by_game { "WHERE game_id = ?1"@ } else { Seq::empty() }
}

/// The filter of the per-difficulty count: milestones with a difficulty,
/// of the one game when a game is given.
pub open spec fn difficulty_filter(by_game: bool) -> Seq<char> {
    if by_game {
        "WHERE game_id = ?1 AND difficulty IS NOT NULL"@
    } else {
        "WHERE difficulty IS NOT NULL"@
    }
}

/// The three counting queries of the statistics: total, per category and
/// per difficulty, over one game or all games.
pub fn statistics_queries(by_game: bool) -> (q: (String, String, String))
    ensures
        q.0@ == "SELECT COUNT(*) FROM milestones "@ + where_clause(by_game),
        q.1@ == "SELECT category, COUNT(*) as count FROM milestones "@ + where_clause(by_game) + " GROUP BY category"@,
        q.2@ == "SELECT difficulty, COUNT(*) as count FROM milestones "@ + difficulty_filter(by_game)
            + " GROUP BY difficulty"@,
{
    let w: &str = if by_game { "WHERE game_id = ?1" } else { "" };
    proof {
        reveal_strlit("");
    }
    assert(w@ == where_clause(by_game));
    let mut a = String::new();
    push_str(&mut a, "SELECT COUNT(*) FROM milestones ");
    push_str(&mut a, w);
    let mut b = String::new();
    push_str(&mut b, "SELECT category, COUNT(*) as count FROM milestones ");
    push_str(&mut b, w);
    push_str(&mut b, " GROUP BY category");
    let mut c = String::new();
    push_str(&mut c, "SELECT difficulty, COUNT(*) as count FROM milestones ");
    if by_game {
        push_str(&mut c, "WHERE game_id = ?1 AND difficulty IS NOT NULL");
    } else {
        push_str(&mut c, "WHERE difficulty IS NOT NULL");
    }
    push_str(&mut c, " GROUP BY difficulty");
    (a, b, c)
}

/// The template listing query: by title within a category, else by
/// category and title.
pub fn template_query(by_category: bool) -> (q: &'static str)
    ensures
        q@ == if by_category {
            "SELECT id, title, description, category, difficulty, is_global, created_at
             FROM milestone_templates WHERE category = ?1 ORDER BY title"@
        } else {
            "SELECT id, title, description, category, difficulty, is_global, created_at
             FROM milestone_templates ORDER BY category, title"@
        },
{
    if by_category {
        "SELECT id, title, description, category, difficulty, is_global, created_at
             FROM milestone_templates WHERE category = ?1 ORDER BY title"
    } else {
        "SELECT id, title, description, category, difficulty, is_global, created_at
             FROM milestone_templates ORDER BY category, title"
    }
}

/// Milestones per game: for one game its count, else the count over the
/// games holding milestones (0 with none).
pub fn milestone_rate(total: i64, by_game: bool, games_with_milestones: i64) -> (r: Fraction)
    ensures
        r.pair() == if by_game {
            (total as int, 1int)
        } else if games_with_milestones > 0 {
            (total as int, games_with_milestones as int)
        } else {
            (0int, 1int)
        },
{
    if by_game {
        Fraction { num: total as i128, den: 1 }
    } else if games_with_milestones > 0 {
        Fraction { num: total as i128, den: games_with_milestones as i128 }
    } else {
        Fraction { num: 0, den: 1 }
    }
}

/// Whole days from instant `a` to instant `b`, rounded toward zero.
pub open spec fn whole_days(a: (int, int), b: (int, int)) -> int {
    let ns = (b.0 * 1_000_000_000 + b.1) - (a.0 * 1_000_000_000 + a.1);
    let secs = div_trunc(ns, 1_000_000_000);
    div_trunc(secs, 86400)
}

/// Milestones per week between the first and the last achievement: the
/// span counts at least one week; 0 when either date cannot be read.
pub open spec fn weekly_average_spec(count: int, first: Option<Seq<char>>, last: Option<Seq<char>>) -> (int, int) {
    match (first, last) {
        (Some(f), Some(l)) => match (rfc3339_instant(f), rfc3339_instant(l)) {
            (Some(a), Some(b)) => {
                let days = whole_days(a, b);
                if days >= 7 { (count * 7, days) } else { (count, 1) }
            },
            _ => (0, 1),
        },
        _ => (0, 1),
    }
}

/// Average milestones per week.
pub fn weekly_average(count: i64, first: Option<&str>, last: Option<&str>) -> (r: Fraction)
    ensures
        r.pair() == weekly_average_spec(count as int, match first {
            Some(f) => Some(f@),
            None => None,
        }, match last {
            Some(l) => Some(l@),
            None => None,
        }),
{
    match (first, last) {
        (Some(f), Some(l)) => match (instant_of(f), instant_of(l)) {
            (Some(a), Some(b)) => {
                let ns: i128 = (b.0 as i128 * 1_000_000_000 + b.1 as i128) - (a.0 as i128 * 1_000_000_000 + a.1 as i128);
                let secs: i128 = if ns >= 0 { ns / 1_000_000_000 } else { -((-ns) / 1_000_000_000) };
                let days: i128 = if secs >= 0 { secs / 86400 } else { -((-secs) / 86400) };
                if days >= 7 {
                    Fraction { num: count as i128 * 7, den: days }
                } else {
                    Fraction { num: count as i128, den: 1 }
                }
            },
            _ => Fraction { num: 0, den: 1 },
        },
        _ => Fraction { num: 0, den: 1 },
    }
}

/// One day of milestone activity: its total and per-category counts.
pub struct MilestoneTimelineEntry {
    pub date: String,
    pub count: i64,
    pub category_breakdown: Vec<(String, i64)>,
}

/// Grouped counts as the timeline query returns them.
pub struct TimelineRow {
    pub date: String,
    pub category: String,
    pub count: i64,
}

/// The distinct dates of the rows, in order of first appearance.
pub open spec fn distinct_dates(rows: Seq<TimelineRow>) -> Seq<Seq<char>>
    decreases rows.len(),
{
    if rows.len() == 0 {
        Seq::empty()
    } else {
        let d = distinct_dates(rows.drop_last());
        if d.contains(rows.last().date@) { d } else { d.push(rows.last().date@) }
    }
}

/// The rows of one date, in order.
pub open spec fn rows_of(rows: Seq<TimelineRow>, date: Seq<char>) -> Seq<TimelineRow> {
    rows.filter(|r: TimelineRow| r.date@ == date)
}

/// Sum of the counts of rows.
pub open spec fn count_sum(rows: Seq<TimelineRow>) -> int
    decreases rows.len(),
{
    if rows.len() == 0 { 0 } else { count_sum(rows.drop_last()) + rows.last().count }
}

/// `e` is the timeline entry of `date`: all of its rows, their total.
pub open spec fn entry_of(e: MilestoneTimelineEntry, rows: Seq<TimelineRow>, date: Seq<char>) -> bool {
    &&& e.date@ == date
    &&& e.count == count_sum(rows_of(rows, date))
    &&& e.category_breakdown@.map_values(|p: (String, i64)| (p.0@, p.1)) == rows_of(rows, date).map_values(
        |r: TimelineRow| (r.category@, r.count),
    )
}

/// No date and category pair occurs twice (as grouped counts are).
pub open spec fn pairs_distinct(rows: Seq<TimelineRow>) -> bool {
    forall|i: int, j: int| 0 <= i < j < rows.len() ==> !(rows[i].date@ == rows[j].date@ && rows[i].category@ == rows[j].category@)
}

/// Every date's running total fits in `i64`.
pub open spec fn sums_fit(rows: Seq<TimelineRow>) -> bool {
    forall|d: Seq<char>, k: int| 0 <= k <= rows_of(rows, d).len() ==> i64::MIN <= #[trigger] count_sum(rows_of(rows, d).take(k)) <= i64::MAX
}

fn has_date(dates: &Vec<String>, d: &str) -> (b: bool)
    ensures
        b == dates@.map_values(|x: String| x@).contains(d@),
{
    let ghost dv = dates@.map_values(|x: String| x@);
    let mut i: usize = 0;
    while i < dates.len()
        invariant
            i <= dates@.len(),
            dv == dates@.map_values(|x: String| x@),
            forall|j: int| 0 <= j < i ==> dv[j] != d@,
        decreases dates@.len() - i,
    {
        if text_eq(dates[i].as_str(), d) {
            assert(dv[i as int] == d@);
            return true;
        }
        i = i + 1;
    }
    false
}

fn entry_for(rows: &Vec<TimelineRow>, date: &str) -> (e: MilestoneTimelineEntry)
    requires
        sums_fit(rows@),
    ensures
        entry_of(e, rows@, date@),
{
    let ghost f = |r: TimelineRow| r.date@ == date@;
    let mut total: i64 = 0;
    let mut cats: Vec<(String, i64)> = Vec::new();
    let mut i: usize = 0;
    while i < rows.len()
        invariant
            i <= rows@.len(),
            sums_fit(rows@),
            f == (|r: TimelineRow| r.date@ == date@),
            total == count_sum(rows@.take(i as int).filter(f)),
            cats@.map_values(|p: (String, i64)| (p.0@, p.1)) == rows@.take(i as int).filter(f).map_values(
                |r: TimelineRow| (r.category@, r.count),
            ),
        decreases rows@.len() - i,
    {
        let r = &rows[i];
        let ghost t = rows@.take(i as int + 1);
        proof {
            reveal(Seq::filter);
            assert(t.drop_last() =~= rows@.take(i as int));
            assert(t.last() == rows@[i as int]);
        }
        if text_eq(r.date.as_str(), date) {
            proof {
                let all = rows_of(rows@, date@);
                let k = t.filter(f).len() as int;
                lemma_filter_prefix(rows@, f, i as int + 1);
                assert(t.filter(f) == all.take(k));
                assert(i64::MIN <= count_sum(all.take(k)) <= i64::MAX);
                assert(t.filter(f).drop_last() =~= rows@.take(i as int).filter(f));
            }
            total = total + r.count;
            let ghost before = cats@;
            cats.push((r.category.clone(), r.count));
            proof {
                assert(cats@.map_values(|p: (String, i64)| (p.0@, p.1)) =~= before.map_values(|p: (String, i64)| (p.0@, p.1)).push(
                    (r.category@, r.count),
                ));
            }
        }
        i = i + 1;
    }
    assert(rows@.take(rows@.len() as int) =~= rows@);
    MilestoneTimelineEntry { date: date.to_string(), count: total, category_breakdown: cats }
}

proof fn lemma_filter_prefix(rows: Seq<TimelineRow>, f: spec_fn(TimelineRow) -> bool, n: int)
    requires
        0 <= n <= rows.len(),
    ensures
        rows.take(n).filter(f).len() <= rows.filter(f).len(),
        rows.take(n).filter(f) == rows.filter(f).take(rows.take(n).filter(f).len() as int),
    decreases rows.len() - n,
{
    reveal(Seq::filter);
    if n < rows.len() {
        lemma_filter_prefix(rows, f, n + 1);
        let a = rows.take(n + 1);
        assert(a.drop_last() =~= rows.take(n));
        let fa = a.filter(f);
        let fb = rows.take(n).filter(f);
        if f(rows[n]) {
            assert(fa =~= fb.push(rows[n]));
            assert(fb =~= fa.take(fb.len() as int));
        } else {
            assert(fa =~= fb);
        }
        assert(fb.len() <= fa.len());
        assert(rows.filter(f).take(fa.len() as int).take(fb.len() as int) =~= rows.filter(f).take(fb.len() as int));
    } else {
        assert(rows.take(n) =~= rows);
        assert(rows.filter(f).take(rows.filter(f).len() as int) =~= rows.filter(f));
    }
}

/// The activity timeline: one entry per date, newest first.
pub fn build_timeline(rows: &Vec<TimelineRow>) -> (r: Vec<MilestoneTimelineEntry>)
    requires
        pairs_distinct(rows@),
        sums_fit(rows@),
    ensures
        ({
            let dates = distinct_dates(rows@);
            exists|order: Seq<usize>| #[trigger] stable_by_text(dates, order, true) && r@.len() == dates.len() && forall|j: int|
                0 <= j < r@.len() ==> entry_of(#[trigger] r@[j], rows@, dates[order[j] as int])
        }),
{
    let mut dates: Vec<String> = Vec::new();
    let mut i: usize = 0;
    while i < rows.len()
        invariant
            i <= rows@.len(),
            dates@.map_values(|x: String| x@) == distinct_dates(rows@.take(i as int)),
        decreases rows@.len() - i,
    {
        let ghost t = rows@.take(i as int + 1);
        proof {
            assert(t.drop_last() =~= rows@.take(i as int));
            assert(t.last() == rows@[i as int]);
        }
        if !has_date(&dates, rows[i].date.as_str()) {
            let ghost before = dates@;
            dates.push(rows[i].date.clone());
            proof {
                assert(dates@.map_values(|x: String| x@) =~= before.map_values(|x: String| x@).push(rows@[i as int].date@));
            }
        }
        i = i + 1;
    }
    assert(rows@.take(rows@.len() as int) =~= rows@);
    let ghost dv = dates@.map_values(|x: String| x@);
    let order = sort_by_text(&dates, true);
    let mut r: Vec<MilestoneTimelineEntry> = Vec::new();
    let mut k: usize = 0;
    while k < order.len()
        invariant
            k <= order@.len(),
            order@.len() == dates@.len(),
            dv == dates@.map_values(|x: String| x@),
            forall|j: int| 0 <= j < order@.len() ==> #[trigger] order@[j] < dates@.len(),
            sums_fit(rows@),
            r@.len() == k,
            forall|j: int| 0 <= j < k ==> entry_of(#[trigger] r@[j], rows@, dv[order@[j] as int]),
        decreases order@.len() - k,
    {
        let q = order[k];
        let e = entry_for(rows, dates[q].as_str());
        r.push(e);
        k = k + 1;
    }
    assert(stable_by_text(dv, order@, true));
    r
}

/// The hash std's `DefaultHasher` (created with `new`, whose keys are
/// fixed) gives a text: the hasher is fed the text's UTF-8 bytes and then
/// the byte 0xFF, as `str`'s `Hash` feeds them.
pub open spec fn default_hash(s: Seq<char>) -> u64 {
    DefaultHasher::spec_finish(seq![vstd::utf8::encode_utf8(s), seq![0xffu8]])
}

/// Hash a text with a fresh `DefaultHasher`, feeding it as `str::hash` does.
fn hash_text(s: &str) -> (h: u64)
    ensures
        h == default_hash(s@),
{
    let mut hasher = DefaultHasher::new();
    hasher.write(s.as_bytes());
    let mut tail: Vec<u8> = Vec::new();
    tail.push(0xffu8);
    assert(tail@ =~= seq![0xffu8]);
    let tail_bytes = tail.as_slice();
    assert(tail_bytes@ =~= seq![0xffu8]);
    hasher.write(tail_bytes);
    assert(hasher@ =~= seq![vstd::utf8::encode_utf8(s@), seq![0xffu8]]);
    hasher.finish()
}

/// The UUID-shaped template id derived from a 64-bit hash:
/// `{hi32:08x}-{mid16:04x}-4{low12:03x}-{top14|8000:04x}-{low32:012x}`.
pub open spec fn template_id_from_hash(h: u64) -> Seq<char> {
    let v = h as nat;
    hex_width(v / 0x1_0000_0000, 8) + seq!['-'] + hex_width((v / 0x1_0000) % 0x1_0000, 4) + seq!['-', '4']
        + hex_width(v % 0x1000, 3) + seq!['-'] + hex_width((v / 0x1_0000_0000_0000) % 0x4000 + 0x8000, 4) + seq!['-']
        + hex_width(v % 0x1_0000_0000, 12)
}

/// Format a template id from its hash.
pub fn format_template_id(h: u64) -> (id: String)
    ensures
        id@ == template_id_from_hash(h),
{
    let mut id = fmt_hex_width(h / 0x1_0000_0000, 8);
    push_char(&mut id, '-');
    let b = fmt_hex_width((h / 0x1_0000) % 0x1_0000, 4);
    push_str(&mut id, b.as_str());
    push_char(&mut id, '-');
    push_char(&mut id, '4');
    let c = fmt_hex_width(h % 0x1000, 3);
    push_str(&mut id, c.as_str());
    push_char(&mut id, '-');
    let d = fmt_hex_width((h / 0x1_0000_0000_0000) % 0x4000 + 0x8000, 4);
    push_str(&mut id, d.as_str());
    push_char(&mut id, '-');
    let e = fmt_hex_width(h % 0x1_0000_0000, 12);
    push_str(&mut id, e.as_str());
    assert(id@ =~= template_id_from_hash(h));
    id
}

/// The id of a default template: from the hash of `category:title`.
pub open spec fn default_template_id(category: Seq<char>, title: Seq<char>) -> Seq<char> {
    template_id_from_hash(default_hash(category + seq![':'] + title))
}

/// A default template: id, title, description, category, difficulty.
pub struct DefaultTemplate {
    pub id: String,
    pub title: &'static str,
    pub description: &'static str,
    pub category: &'static str,
    pub difficulty: Option<&'static str>,
}

/// The id a default template gets.
pub fn default_template_id_of(category: &str, title: &str) -> (id: String)
    ensures
        id@ == default_template_id(category@, title@),
{
    let mut seed = String::new();
    push_str(&mut seed, category);
    push_char(&mut seed, ':');
    push_str(&mut seed, title);
    assert(seed@ =~= category@ + seq![':'] + title@);
    format_template_id(hash_text(seed.as_str()))
}

/// The fourteen default templates (title, description, category,
/// difficulty), in seeding order.
pub open spec fn default_templates() -> Seq<(Seq<char>, Seq<char>, Seq<char>, Seq<char>)> {
    seq![
        ("First Completion"@, "Completed the game for the first time"@, "completion"@, "normal"@),
        ("100% Completion"@, "Achieved 100% completion"@, "completion"@, "legendary"@),
        ("Perfect Score"@, "Obtained a perfect score"@, "completion"@, "hard"@),
        ("Reached Halfway Point"@, "Reached 50% completion"@, "progress"@, "easy"@),
        ("Unlocked All Areas"@, "Discovered and unlocked all game areas"@, "progress"@, "normal"@),
        ("Max Level"@, "Reached maximum character level"@, "progress"@, "normal"@),
        ("Found Secret Area"@, "Discovered a hidden or secret location"@, "exploration"@, "normal"@),
        ("Discovered All Collectibles"@, "Found every collectible in the game"@, "exploration"@, "hard"@),
        ("Map Completion"@, "Revealed the entire game map"@, "exploration"@, "easy"@),
        ("Speedrun Personal Best"@, "Set a new personal speedrun record"@, "mastery"@, "legendary"@),
        ("No Death Run"@, "Completed without dying"@, "mastery"@, "legendary"@),
        ("Hardest Difficulty"@, "Completed on the highest difficulty setting"@, "mastery"@, "hard"@),
        ("Played with Friends"@, "Enjoyed a gaming session with friends"@, "social"@, "trivial"@),
        ("Community Achievement"@, "Participated in a community event or challenge"@, "social"@, "normal"@)
    ]
}

fn template(title: &'static str, description: &'static str, category: &'static str, difficulty: &'static str) -> (t: DefaultTemplate)
    ensures
        t.id@ == default_template_id(category@, title@),
        t.title@ == title@,
        t.description@ == description@,
        t.category@ == category@,
        t.difficulty == Some(difficulty),
{
    DefaultTemplate { id: default_template_id_of(category, title), title, description, category, difficulty: Some(difficulty) }
}

/// `t` is the default template given by its four texts.
pub open spec fn template_is(t: DefaultTemplate, d: (Seq<char>, Seq<char>, Seq<char>, Seq<char>)) -> bool {
    &&& t.title@ == d.0
    &&& t.description@ == d.1
    &&& t.category@ == d.2
    &&& t.difficulty.is_some() && t.difficulty.unwrap()@ == d.3
    &&& t.id@ == default_template_id(d.2, d.0)
}

/// The default templates to seed, with their ids.
#[verifier::spinoff_prover]
#[verifier::rlimit(50)]
pub fn default_template_list() -> (r: Vec<DefaultTemplate>)
    ensures
        r@.len() == default_templates().len(),
        forall|i: int| 0 <= i < r@.len() ==> template_is(#[trigger] r@[i], default_templates()[i]),
{
    let mut r: Vec<DefaultTemplate> = Vec::new();
    r.push(template("First Completion", "Completed the game for the first time", "completion", "normal"));
    r.push(template("100% Completion", "Achieved 100% completion", "completion", "legendary"));
    r.push(template("Perfect Score", "Obtained a perfect score", "completion", "hard"));
    r.push(template("Reached Halfway Point", "Reached 50% completion", "progress", "easy"));
    r.push(template("Unlocked All Areas", "Discovered and unlocked all game areas", "progress", "normal"));
    r.push(template("Max Level", "Reached maximum character level", "progress", "normal"));
    r.push(template("Found Secret Area", "Discovered a hidden or secret location", "exploration", "normal"));
    r.push(template("Discovered All Collectibles", "Found every collectible in the game", "exploration", "hard"));
    r.push(template("Map Completion", "Revealed the entire game map", "exploration", "easy"));
    r.push(template("Speedrun Personal Best", "Set a new personal speedrun record", "mastery", "legendary"));
    r.push(template("No Death Run", "Completed without dying", "mastery", "legendary"));
    r.push(template("Hardest Difficulty", "Completed on the highest difficulty setting", "mastery", "hard"));
    r.push(template("Played with Friends", "Enjoyed a gaming session with friends", "social", "trivial"));
    r.push(template("Community Achievement", "Participated in a community event or challenge", "social", "normal"));
    r
}

/// How a JSON string writes one character: `"` and `\` behind a backslash,
/// the control characters below U+0020 escaped (`\b \t \n \f \r` where a
/// short form exists, else `\u00` and two lower-case hex digits), and every
/// other character as itself.
pub open spec fn json_char(c: char) -> Seq<char> {
    let u = c as u32;
    if c == '"' {
        seq!['\\', '"']
    } else if c == '\\' {
        seq!['\\', '\\']
    } else if u == 8 {
        seq!['\\', 'b']
    } else if u == 9 {
        seq!['\\', 't']
    } else if u == 10 {
        seq!['\\', 'n']
    } else if u == 12 {
        seq!['\\', 'f']
    } else if u == 13 {
        seq!['\\', 'r']
    } else if u < 0x20 {
        seq!['\\', 'u', '0', '0', digit_char_of((u / 16) as nat), digit_char_of((u % 16) as nat)]
    } else {
        seq![c]
    }
}

/// The escaped characters of a JSON string.
pub open spec fn json_escape(s: Seq<char>) -> Seq<char>
    decreases s.len(),
{
    if s.len() == 0 {
        Seq::empty()
    } else {
        json_escape(s.drop_last()) + json_char(s.last())
    }
}

/// A text as a JSON string literal, as serde_json writes it.
pub open spec fn json_string_literal(s: Seq<char>) -> Seq<char> {
    seq!['"'] + json_escape(s) + seq!['"']
}

/// `serde_json::Value::String(s).to_string()`: the text between double
/// quotes with serde_json's escapes.
#[verifier::external_body]
fn json_string(s: &str) -> (r: String)
    ensures
        r@ == json_string_literal(s@),
{
    serde_json::Value::String(s.to_string()).to_string()
}

/// What a journal entry of kind "milestone" becomes: its title (default
/// `Milestone`), its body as description unless empty, and metadata naming
/// the journal entry it came from.
pub struct MovedMilestone {
    pub title: String,
    pub description: Option<String>,
    pub metadata: String,
}

/// Convert a journal milestone entry.
pub fn journal_to_milestone(journal_id: &str, title: Option<String>, body: String) -> (m: MovedMilestone)
    ensures
        m.title@ == match title {
            Some(t) => t@,
            None => "Milestone"@,
        },
        m.description == (if body@.len() > 0 { Some(body) } else { None::<String> }),
        m.metadata@ == "{\"migrated_from_journal\":true,\"original_journal_id\":"@ + json_string_literal(journal_id@) + "}"@,
{
    let t = match title {
        Some(t) => t,
        None => "Milestone".to_string(),
    };
    let description = if body.as_str().is_empty() { None } else { Some(body) };
    let mut metadata = String::new();
    push_str(&mut metadata, "{\"migrated_from_journal\":true,\"original_journal_id\":");
    let q = json_string(journal_id);
    push_str(&mut metadata, q.as_str());
    push_str(&mut metadata, "}");
    MovedMilestone { title: t, description, metadata }
}

/// A new milestone's (or template's) title: trimmed, and refused when
/// nothing is left.
pub fn checked_title(title: &str, is_template: bool) -> (r: Result<String, String>)
    ensures
        match r {
            Ok(t) => trim_seq(title@).len() > 0 && t@ == trim_seq(title@),
            Err(e) => trim_seq(title@).len() == 0 && e@ == if is_template {
                "Template title cannot be empty."@
            } else {
                "Milestone title cannot be empty."@
            },
        },
{
    let t = trim(title);
    if t.as_str().is_empty() {
        if is_template {
            Err("Template title cannot be empty.".to_string())
        } else {
            Err("Milestone title cannot be empty.".to_string())
        }
    } else {
        Ok(t)
    }
}

} // verus!
