//! Smart collections: rule sets that pick their member games from the
//! library.  Rules are AND-combined.
//!
//! | Field       | Operators     | Value                |
//! |-------------|---------------|----------------------|
//! | status      | eq            | a status name        |
//! | genre       | contains      | one genre            |
//! | playtime    | gt, lt        | minutes (integer)    |
//! | developer   | eq, contains  | text                 |
//! | is_favorite | is_true       | —                    |

use vstd::prelude::*;
use crate::numfmt::{parse_i64, parse_i64_spec};
use crate::text::{
    comma_tokens, contains_spec, contains_text, eq_ignore_ascii_case, eq_ignore_ascii_case_spec,
    split_trimmed, text_eq, trim, trim_seq,
};

verus! {

/// The game property a rule looks at.
#[derive(Clone, Copy, Debug, PartialEq, Eq, Structural)]
pub enum SmartField {
    Status,
    Genre,
    Playtime,
    Developer,
    IsFavorite,
}

/// How a rule compares.
#[derive(Clone, Copy, Debug, PartialEq, Eq, Structural)]
pub enum SmartOp {
    Eq,
    Contains,
    Gt,
    Lt,
    IsTrue,
}

/// One rule of a smart collection.
pub struct SmartRule {
    pub field: SmartField,
    pub operator: SmartOp,
    pub value: String,
}

/// What rules see of a game.
pub struct GameRow {
    pub id: String,
    pub status: String,
    pub genre: Option<String>,
    pub total_playtime_secs: i64,
    pub developer: Option<String>,
    pub is_favorite: bool,
}

/// Optional text, empty when absent.
pub open spec fn or_empty(o: Option<String>) -> Seq<char> {
    match o {
        Some(s) => s@,
        None => Seq::empty(),
    }
}

/// The playtime threshold of a rule in seconds: its value read as whole
/// minutes (0 when it is not a number).
pub open spec fn threshold_secs(value: Seq<char>) -> int {
    match parse_i64_spec(value) {
        Some(v) => v * 60,
        None => 0,
    }
}

/// A rule whose threshold fits in `i64` (a larger one overflows).
pub open spec fn rule_ok(rule: SmartRule) -> bool {
    i64::MIN <= threshold_secs(rule.value@) <= i64::MAX
}

/// Whether a game satisfies one rule; combinations not listed in the
/// table match nothing.
pub open spec fn rule_holds(game: GameRow, rule: SmartRule) -> bool {
    let v = rule.value@;
    match (rule.field, rule.operator) {
        (SmartField::Status, SmartOp::Eq) => game.status@ == v,
        (SmartField::Genre, SmartOp::Contains) => {
            let toks = comma_tokens(or_empty(game.genre));
            exists|i: int| 0 <= i < toks.len() && eq_ignore_ascii_case_spec(#[trigger] toks[i], v)
        },
        (SmartField::Playtime, SmartOp::Gt) => game.total_playtime_secs > threshold_secs(v),
        (SmartField::Playtime, SmartOp::Lt) => game.total_playtime_secs < threshold_secs(v),
        (SmartField::Developer, SmartOp::Eq) => eq_ignore_ascii_case_spec(or_empty(game.developer), v),
        (SmartField::Developer, SmartOp::Contains) => contains_spec(or_empty(game.developer), v, true),
        (SmartField::IsFavorite, SmartOp::IsTrue) => game.is_favorite,
        _ => false,
    }
}

/// A playtime rule's value counts minutes: with a number `v` as the value, a
/// game matches `playtime lt v` exactly when it was played less than `60 * v`
/// seconds and `playtime gt v` exactly when more; both compare against the
/// same threshold, so a game matches neither only when its playtime is
/// exactly `v` minutes. A value that is not a number counts as 0 minutes.
pub proof fn lemma_playtime_rules_in_minutes(game: GameRow, value: String)
    ensures
        ({
            let lt = SmartRule { field: SmartField::Playtime, operator: SmartOp::Lt, value };
            let gt = SmartRule { field: SmartField::Playtime, operator: SmartOp::Gt, value };
            let minutes = match parse_i64_spec(value@) {
                Some(v) => v as int,
                None => 0int,
            };
            &&& rule_holds(game, lt) <==> game.total_playtime_secs < 60 * minutes
            &&& rule_holds(game, gt) <==> game.total_playtime_secs > 60 * minutes
            &&& !rule_holds(game, lt) && !rule_holds(game, gt) <==> game.total_playtime_secs == 60 * minutes
        }),
{
}

fn threshold(value: &str) -> (t: i64)
    requires
        i64::MIN <= threshold_secs(value@) <= i64::MAX,
    ensures
        t == threshold_secs(value@),
{
    match parse_i64(value) {
        Some(v) => v * 60,
        None => 0,
    }
}

/// Evaluate a single rule against a game.
pub fn matches_rule(game: &GameRow, rule: &SmartRule) -> (b: bool)
    requires
        rule_ok(*rule),
    ensures
        b == rule_holds(*game, *rule),
{
    proof {
        reveal_strlit("");
    }
    match (rule.field, rule.operator) {
        (SmartField::Status, SmartOp::Eq) => text_eq(game.status.as_str(), rule.value.as_str()),
        (SmartField::Genre, SmartOp::Contains) => {
            let g: &str = match &game.genre {
                Some(s) => s.as_str(),
                None => "",
            };
            assert(g@ == or_empty(game.genre));
            let toks = split_trimmed(g);
            let ghost tv = toks@.map_values(|t: String| t@);
            let mut i: usize = 0;
            while i < toks.len()
                invariant
                    i <= toks@.len(),
                    tv == toks@.map_values(|t: String| t@),
                    tv == comma_tokens(or_empty(game.genre)),
                    rule.field == SmartField::Genre,
                    rule.operator == SmartOp::Contains,
                    forall|j: int| 0 <= j < i ==> !eq_ignore_ascii_case_spec(#[trigger] tv[j], rule.value@),
                decreases toks@.len() - i,
            {
                if eq_ignore_ascii_case(toks[i].as_str(), rule.value.as_str()) {
                    assert(eq_ignore_ascii_case_spec(tv[i as int], rule.value@));
                    return true;
                }
                i = i + 1;
            }
            assert(!rule_holds(*game, *rule));
            false
        },
        (SmartField::Playtime, SmartOp::Gt) => game.total_playtime_secs > threshold(rule.value.as_str()),
        (SmartField::Playtime, SmartOp::Lt) => game.total_playtime_secs < threshold(rule.value.as_str()),
        (SmartField::Developer, SmartOp::Eq) => {
            let d: &str = match &game.developer {
                Some(s) => s.as_str(),
                None => "",
            };
            assert(d@ == or_empty(game.developer));
            eq_ignore_ascii_case(d, rule.value.as_str())
        },
        (SmartField::Developer, SmartOp::Contains) => {
            let d: &str = match &game.developer {
                Some(s) => s.as_str(),
                None => "",
            };
            assert(d@ == or_empty(game.developer));
            contains_text(d, rule.value.as_str(), true)
        },
        (SmartField::IsFavorite, SmartOp::IsTrue) => game.is_favorite,
        _ => false,
    }
}

/// A game satisfies every rule.
pub open spec fn all_rules_hold(game: GameRow, rules: Seq<SmartRule>) -> bool {
    forall|i: int| 0 <= i < rules.len() ==> rule_holds(game, #[trigger] rules[i])
}

/// Every rule's threshold fits.
pub open spec fn rules_ok(rules: Seq<SmartRule>) -> bool {
    forall|i: int| 0 <= i < rules.len() ==> rule_ok(#[trigger] rules[i])
}

/// The ids of the games matching all rules, in library order.
pub open spec fn matching_ids(games: Seq<GameRow>, rules: Seq<SmartRule>) -> Seq<Seq<char>>
    decreases games.len(),
{
    if games.len() == 0 {
        Seq::empty()
    } else {
        matching_ids(games.drop_last(), rules) + if all_rules_hold(games.last(), rules) {
            seq![games.last().id@]
        } else {
            Seq::empty()
        }
    }
}

/// `a` is a subsequence of `b`: its items appear in `b` in the same order.
pub open spec fn is_subsequence(a: Seq<Seq<char>>, b: Seq<Seq<char>>) -> bool {
    exists|f: Seq<int>|
        #![trigger f.len()]
        f.len() == a.len() && (forall|i: int| 0 <= i < f.len() ==> 0 <= #[trigger] f[i] < b.len() && b[f[i]] == a[i])
            && (forall|i: int, j: int| 0 <= i < j < f.len() ==> f[i] < f[j])
}

/// Adding rules to a smart collection only narrows it: when every rule of
/// `rules` is also among `more`, the games matching `more` are among those
/// matching `rules`, never more of them.
pub proof fn lemma_more_rules_narrow(games: Seq<GameRow>, rules: Seq<SmartRule>, more: Seq<SmartRule>)
    requires
        forall|i: int| 0 <= i < rules.len() ==> more.contains(#[trigger] rules[i]),
    ensures
        forall|x: Seq<char>| #[trigger] matching_ids(games, more).contains(x) ==> matching_ids(games, rules).contains(x),
        matching_ids(games, more).len() <= matching_ids(games, rules).len(),
        is_subsequence(matching_ids(games, more), matching_ids(games, rules)),
    decreases games.len(),
{
    if games.len() == 0 {
        let f = Seq::<int>::empty();
        assert(f.len() == matching_ids(games, more).len());
    }
    if games.len() > 0 {
        let d = games.drop_last();
        let g = games.last();
        lemma_more_rules_narrow(d, rules, more);
        if all_rules_hold(g, more) {
            assert forall|i: int| 0 <= i < rules.len() implies rule_holds(g, #[trigger] rules[i]) by {
                let j = choose|j: int| 0 <= j < more.len() && more[j] == rules[i];
                assert(rule_holds(g, more[j]));
            }
        }
        let a = matching_ids(d, more);
        let b = matching_ids(d, rules);
        let ea = if all_rules_hold(g, more) { seq![g.id@] } else { Seq::<Seq<char>>::empty() };
        let eb = if all_rules_hold(g, rules) { seq![g.id@] } else { Seq::<Seq<char>>::empty() };
        assert forall|x: Seq<char>| #[trigger] matching_ids(games, more).contains(x) implies matching_ids(games, rules).contains(x) by {
            let k = choose|k: int| 0 <= k < matching_ids(games, more).len() && matching_ids(games, more)[k] == x;
            if k < a.len() {
                assert((a + ea)[k] == a[k]);
                assert(a.contains(x));
                let m = choose|m: int| 0 <= m < b.len() && b[m] == x;
                assert((b + eb)[m] == b[m]);
            } else {
                assert((a + ea)[k] == ea[k - a.len()]);
                assert((b + eb)[b.len() as int] == g.id@);
            }
        }
        let f0 = choose|f: Seq<int>|
            #![trigger f.len()]
            f.len() == a.len() && (forall|i: int| 0 <= i < f.len() ==> 0 <= #[trigger] f[i] < b.len() && b[f[i]] == a[i])
                && (forall|i: int, j: int| 0 <= i < j < f.len() ==> f[i] < f[j]);
        let na = a + ea;
        let nb = b + eb;
        let f1 = if all_rules_hold(g, more) { f0.push(b.len() as int) } else { f0 };
        assert(f1.len() == na.len());
        assert forall|i: int| 0 <= i < f1.len() implies 0 <= #[trigger] f1[i] < nb.len() && nb[f1[i]] == na[i] by {
            if i < f0.len() {
                assert(f1[i] == f0[i]);
                assert(na[i] == a[i]);
                assert(nb[f0[i]] == b[f0[i]]);
            } else {
                assert(nb[b.len() as int] == g.id@);
            }
        }
        assert forall|i: int, j: int| 0 <= i < j < f1.len() implies f1[i] < f1[j] by {
            if j < f0.len() {
                assert(f1[i] == f0[i] && f1[j] == f0[j]);
            } else {
                assert(f1[i] == f0[i]);
            }
        }
        assert(na == matching_ids(games, more));
        assert(nb == matching_ids(games, rules));
    }
}

/// A smart collection without rules holds every game of the library, in
/// library order.
pub proof fn lemma_no_rules_all_games(games: Seq<GameRow>)
    ensures
        matching_ids(games, Seq::<SmartRule>::empty()) == games.map_values(|g: GameRow| g.id@),
    decreases games.len(),
{
    if games.len() > 0 {
        lemma_no_rules_all_games(games.drop_last());
        assert(all_rules_hold(games.last(), Seq::<SmartRule>::empty()));
        assert(games.drop_last().map_values(|g: GameRow| g.id@).push(games.last().id@)
            =~= games.map_values(|g: GameRow| g.id@));
    } else {
        assert(games.map_values(|g: GameRow| g.id@) =~= Seq::<Seq<char>>::empty());
    }
}

fn holds_all(game: &GameRow, rules: &Vec<SmartRule>) -> (b: bool)
    requires
        rules_ok(rules@),
    ensures
        b == all_rules_hold(*game, rules@),
{
    let mut i: usize = 0;
    while i < rules.len()
        invariant
            i <= rules@.len(),
            rules_ok(rules@),
            forall|j: int| 0 <= j < i ==> rule_holds(*game, #[trigger] rules@[j]),
        decreases rules@.len() - i,
    {
        assert(rule_ok(rules@[i as int]));
        if !matches_rule(game, &rules[i]) {
            return false;
        }
        i = i + 1;
    }
    true
}

/// Return the ids of all games that satisfy all rules.
pub fn evaluate_rules(games: &Vec<GameRow>, rules: &Vec<SmartRule>) -> (ids: Vec<String>)
    requires
        rules_ok(rules@),
    ensures
        ids@.map_values(|s: String| s@) == matching_ids(games@, rules@),
{
    let mut ids: Vec<String> = Vec::new();
    let mut i: usize = 0;
    while i < games.len()
        invariant
            i <= games@.len(),
            rules_ok(rules@),
            ids@.map_values(|s: String| s@) == matching_ids(games@.take(i as int), rules@),
        decreases games@.len() - i,
    {
        let ghost before = ids@;
        proof {
            assert(games@.take(i as int + 1).drop_last() =~= games@.take(i as int));
            assert(games@.take(i as int + 1).last() == games@[i as int]);
        }
        if holds_all(&games[i], rules) {
            ids.push(games[i].id.clone());
            proof {
                assert(ids@.map_values(|s: String| s@) =~= before.map_values(|s: String| s@).push(games@[i as int].id@));
            }
        }
        i = i + 1;
    }
    assert(games@.take(games@.len() as int) =~= games@);
    ids
}

/// Whether a list of texts holds `s`.
pub open spec fn listed(list: Seq<Seq<char>>, s: Seq<char>) -> bool {
    exists|i: int| 0 <= i < list.len() && list[i] == s
}

fn in_list(list: &Vec<String>, s: &str) -> (b: bool)
    ensures
        b == listed(list@.map_values(|x: String| x@), s@),
{
    let ghost lv = list@.map_values(|x: String| x@);
    let mut i: usize = 0;
    while i < list.len()
        invariant
            i <= list@.len(),
            lv == list@.map_values(|x: String| x@),
            forall|j: int| 0 <= j < i ==> lv[j] != s@,
        decreases list@.len() - i,
    {
        if text_eq(list[i].as_str(), s) {
            assert(lv[i as int] == s@);
            return true;
        }
        i = i + 1;
    }
    false
}

/// The ids of `a` not listed in `b`, in order.
pub open spec fn missing_from(a: Seq<Seq<char>>, b: Seq<Seq<char>>) -> Seq<Seq<char>> {
    a.filter(|x: Seq<char>| !listed(b, x))
}

fn not_in(a: &Vec<String>, b: &Vec<String>) -> (r: Vec<String>)
    ensures
        r@.map_values(|x: String| x@) == missing_from(a@.map_values(|x: String| x@), b@.map_values(|x: String| x@)),
{
    let ghost av = a@.map_values(|x: String| x@);
    let ghost bv = b@.map_values(|x: String| x@);
    let ghost f = |x: Seq<char>| !listed(bv, x);
    let mut r: Vec<String> = Vec::new();
    let mut i: usize = 0;
    while i < a.len()
        invariant
            i <= a@.len(),
            av == a@.map_values(|x: String| x@),
            bv == b@.map_values(|x: String| x@),
            f == (|x: Seq<char>| !listed(bv, x)),
            r@.map_values(|x: String| x@) == av.take(i as int).filter(f),
        decreases a@.len() - i,
    {
        let ghost before = r@;
        proof {
            reveal(Seq::filter);
            assert(av.take(i as int + 1).drop_last() =~= av.take(i as int));
            assert(av.take(i as int + 1).last() == a@[i as int]@);
        }
        if !in_list(b, a[i].as_str()) {
            r.push(a[i].clone());
            proof {
                assert(r@.map_values(|x: String| x@) =~= before.map_values(|x: String| x@).push(av[i as int]));
            }
        }
        i = i + 1;
    }
    assert(av.take(a@.len() as int) =~= av);
    r
}

/// How a smart collection's membership changes: members that no longer
/// match leave, matching games not yet members join (both in order).
pub fn membership_changes(existing: &Vec<String>, matching: &Vec<String>) -> (r: (Vec<String>, Vec<String>))
    ensures
        r.0@.map_values(|x: String| x@) == missing_from(existing@.map_values(|x: String| x@), matching@.map_values(|x: String| x@)),
        r.1@.map_values(|x: String| x@) == missing_from(matching@.map_values(|x: String| x@), existing@.map_values(|x: String| x@)),
{
    (not_in(existing, matching), not_in(matching, existing))
}

/// A new collection's name: trimmed, and refused when nothing is left.
pub fn collection_name(name: &str) -> (r: Result<String, String>)
    ensures
        match r {
            Ok(n) => trim_seq(name@).len() > 0 && n@ == trim_seq(name@),
            Err(e) => trim_seq(name@).len() == 0 && e@ == "Collection name cannot be empty."@,
        },
{
    let t = trim(name);
    if t.as_str().is_empty() {
        Err("Collection name cannot be empty.".to_string())
    } else {
        Ok(t)
    }
}

/// The stored rule text of a collection to evaluate: refused for a plain
/// collection or one without rules.
pub fn smart_rule_text(is_smart: bool, rule_json: Option<String>) -> (r: Result<String, String>)
    ensures
        !is_smart ==> r.is_err() && r.unwrap_err()@ == "Not a smart collection."@,
        is_smart && rule_json.is_none() ==> r.is_err() && r.unwrap_err()@ == "Smart collection has no rule_json."@,
        is_smart && rule_json.is_some() ==> r == Ok::<String, String>(rule_json.unwrap()),
{
    if !is_smart {
        return Err("Not a smart collection.".to_string());
    }
    match rule_json {
        Some(j) => Ok(j),
        None => Err("Smart collection has no rule_json.".to_string()),
    }
}

} // verus!
