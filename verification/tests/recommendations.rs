use pirate_harbor::dates::day_number;
use pirate_harbor::recommend::{
    build_user_context, fetch_candidates, lookup_playtime, Candidate, ContentBasedStrategy, Fraction, GenreStrategy,
    PlaytimeStrategy, RecencyStrategy, StrategyCombiner, UserContext,
};

fn value(f: Fraction) -> f64 {
    f.num as f64 / f.den as f64
}

fn today_text() -> String {
    chrono::Utc::now().format("%Y-%m-%d").to_string()
}

fn today_number() -> i32 {
    day_number(&today_text()).unwrap()
}

fn game(
    id: &str,
    title: &str,
    genre: Option<&str>,
    status: &str,
    playtime: i64,
    launch_count: i64,
    added_at: &str,
) -> Candidate {
    Candidate {
        id: id.to_string(),
        title: title.to_string(),
        cover_path: None,
        genre: genre.map(String::from),
        developer: None,
        publisher: None,
        status: status.to_string(),
        total_playtime: playtime,
        added_at: added_at.to_string(),
        launch_count,
    }
}

fn make_candidate(genre: Option<&str>, playtime: i64, launch_count: i64, added_at: &str) -> Candidate {
    game("test", "Test Game", genre, "unplayed", playtime, launch_count, added_at)
}

fn make_ctx_with_genre(genre: &str, playtime: i64) -> UserContext {
    UserContext {
        genre_playtime: vec![(genre.to_string(), playtime)],
        total_playtime_secs: playtime,
        completion_rate: Fraction { num: 1, den: 2 },
    }
}

// ── Content-based strategy ──────────────────────────────────────────────────

#[test]
fn content_based_no_genre_returns_zero() {
    let ctx = make_ctx_with_genre("RPG", 3600);
    let c = make_candidate(None, 0, 0, "2024-01-01");
    assert_eq!(value(ContentBasedStrategy.score(&c, &ctx)), 0.0);
}

#[test]
fn content_based_matching_genre_returns_positive() {
    let ctx = make_ctx_with_genre("RPG", 3600);
    let c = make_candidate(Some("RPG"), 0, 0, "2024-01-01");
    assert_eq!(value(ContentBasedStrategy.score(&c, &ctx)), 1.0, "full playtime in genre should return 1.0");
}

#[test]
fn content_based_partial_playtime() {
    let ctx = UserContext {
        genre_playtime: vec![("RPG".to_string(), 1800)],
        total_playtime_secs: 3600,
        completion_rate: Fraction { num: 0, den: 1 },
    };
    let c = make_candidate(Some("RPG"), 0, 0, "2024-01-01");
    let s = value(ContentBasedStrategy.score(&c, &ctx));
    assert!((s - 0.5).abs() < 1e-9);
}

#[test]
fn content_based_unmatched_genre_returns_zero() {
    let ctx = make_ctx_with_genre("RPG", 3600);
    let c = make_candidate(Some("Shooter"), 0, 0, "2024-01-01");
    assert_eq!(value(ContentBasedStrategy.score(&c, &ctx)), 0.0);
}

#[test]
fn content_based_splits_comma_separated_genres() {
    let ctx = UserContext {
        genre_playtime: vec![("RPG".to_string(), 1000), ("Action".to_string(), 800)],
        total_playtime_secs: 3600,
        completion_rate: Fraction { num: 0, den: 1 },
    };
    let c = make_candidate(Some("RPG, Action"), 0, 0, "2024-01-01");
    assert_eq!(value(ContentBasedStrategy.score(&c, &ctx)), 0.5);
}

// ── Genre strategy ──────────────────────────────────────────────────────────

#[test]
fn genre_strategy_matching_returns_one() {
    let ctx = make_ctx_with_genre("RPG", 3600);
    let c = make_candidate(Some("RPG"), 0, 0, "2024-01-01");
    assert_eq!(value(GenreStrategy.score(&c, &ctx)), 1.0);
}

#[test]
fn genre_strategy_no_match_returns_zero() {
    let ctx = make_ctx_with_genre("RPG", 3600);
    let c = make_candidate(Some("Shooter"), 0, 0, "2024-01-01");
    assert_eq!(value(GenreStrategy.score(&c, &ctx)), 0.0);
}

#[test]
fn genre_strategy_empty_history_returns_half() {
    let ctx = UserContext {
        genre_playtime: Vec::new(),
        total_playtime_secs: 0,
        completion_rate: Fraction { num: 0, den: 1 },
    };
    let c = make_candidate(Some("RPG"), 0, 0, "2024-01-01");
    assert_eq!(value(GenreStrategy.score(&c, &ctx)), 0.5);
}

#[test]
fn genre_strategy_unknown_genre_scores_point_three() {
    let ctx = make_ctx_with_genre("RPG", 3600);
    let c = make_candidate(None, 0, 0, "2024-01-01");
    assert_eq!(GenreStrategy.score(&c, &ctx), Fraction { num: 3, den: 10 });
}

// ── Backlog strategy ────────────────────────────────────────────────────────

#[test]
fn playtime_strategy_virgin_game_returns_one() {
    let ctx = make_ctx_with_genre("RPG", 3600);
    let c = make_candidate(None, 0, 0, "2024-01-01");
    assert_eq!(value(PlaytimeStrategy.score(&c, &ctx)), 1.0);
}

#[test]
fn playtime_strategy_launched_no_time_returns_half() {
    let ctx = make_ctx_with_genre("RPG", 3600);
    let c = make_candidate(None, 0, 1, "2024-01-01");
    assert_eq!(value(PlaytimeStrategy.score(&c, &ctx)), 0.5);
}

#[test]
fn playtime_strategy_has_playtime_returns_zero() {
    let ctx = make_ctx_with_genre("RPG", 3600);
    let c = make_candidate(None, 100, 1, "2024-01-01");
    assert_eq!(value(PlaytimeStrategy.score(&c, &ctx)), 0.0);
}

// ── Recency strategy ────────────────────────────────────────────────────────

#[test]
fn recency_strategy_today_returns_one() {
    let today = today_text();
    let c = make_candidate(None, 0, 0, &today);
    assert_eq!(value(RecencyStrategy.score(&c, today_number())), 1.0);
}

#[test]
fn recency_strategy_old_game_returns_zero() {
    let c = make_candidate(None, 0, 0, "2020-01-01");
    assert_eq!(value(RecencyStrategy.score(&c, today_number())), 0.0);
}

#[test]
fn recency_strategy_decays_linearly() {
    let today = day_number("2024-03-01").unwrap();
    // 19 days old: (53 - 19) / 46
    let c = make_candidate(None, 0, 0, "2024-02-11");
    assert_eq!(RecencyStrategy.score(&c, today), Fraction { num: 34, den: 46 });
    // 65 days old: (365 - 65) / 670
    let c = make_candidate(None, 0, 0, "2023-12-27");
    assert_eq!(RecencyStrategy.score(&c, today), Fraction { num: 300, den: 670 });
    // unreadable date: 365 days, score 0
    let c = make_candidate(None, 0, 0, "not a date");
    assert_eq!(value(RecencyStrategy.score(&c, today)), 0.0);
}

// ── Combiner ────────────────────────────────────────────────────────────────

#[test]
fn combiner_ranks_matching_game_higher() {
    let library = vec![
        game("g1", "RPG Gem", Some("RPG"), "unplayed", 0, 0, "2025-01-01"),
        game("g2", "Old Shooter", Some("Shooter"), "unplayed", 0, 0, "2020-01-01"),
    ];
    let ctx = make_ctx_with_genre("RPG", 7200);
    let candidates = fetch_candidates(&library);
    let combiner = StrategyCombiner::default_combiner();
    let results = combiner.rank(&candidates, &ctx, today_number(), 10);

    assert!(!results.is_empty(), "Should produce recommendations");
    let rpg_rank = results.iter().position(|r| r.game_id == "g1");
    let shooter_rank = results.iter().position(|r| r.game_id == "g2");
    if let (Some(r), Some(s)) = (rpg_rank, shooter_rank) {
        assert!(r < s, "RPG should rank above Shooter when user loves RPG");
    }
}

#[test]
fn combiner_excludes_played_games() {
    let library = vec![
        game("g1", "Unplayed", Some("RPG"), "unplayed", 0, 0, "2024-01-01"),
        game("g2", "Completed", Some("RPG"), "completed", 3600, 10, "2024-01-01"),
    ];
    let ctx = make_ctx_with_genre("RPG", 3600);
    let candidates = fetch_candidates(&library);
    assert!(candidates.iter().all(|c| c.id != "g2"), "Completed games should not be candidates");

    let combiner = StrategyCombiner::default_combiner();
    let results = combiner.rank(&candidates, &ctx, today_number(), 10);
    assert!(results.iter().all(|r| r.game_id != "g2"), "Completed game must not appear in results");
}

#[test]
fn combiner_handles_empty_library() {
    let ctx = make_ctx_with_genre("RPG", 0);
    let candidates = fetch_candidates(&Vec::new());
    let combiner = StrategyCombiner::default_combiner();
    let results = combiner.rank(&candidates, &ctx, today_number(), 10);
    assert!(results.is_empty(), "Empty library should produce no recommendations");
}

#[test]
fn combiner_respects_limit_and_orders_by_score() {
    let library = vec![
        game("a", "A", Some("Shooter"), "unplayed", 0, 3, "2020-01-01"),
        game("b", "B", Some("RPG"), "unplayed", 0, 0, "2020-01-01"),
        game("c", "C", Some("RPG"), "playing", 0, 2, "2020-01-01"),
    ];
    let ctx = make_ctx_with_genre("RPG", 3600);
    let candidates = fetch_candidates(&library);
    let combiner = StrategyCombiner::default_combiner();
    let results = combiner.rank(&candidates, &ctx, day_number("2024-01-01").unwrap(), 2);
    assert_eq!(results.len(), 2);
    assert_eq!(results[0].game_id, "b");
    assert_eq!(results[1].game_id, "c");
    let first = value(results[0].score);
    let second = value(results[1].score);
    assert!(first >= second);
}

#[test]
fn fetch_candidates_orders_by_added_date_descending() {
    let library = vec![
        game("old", "Old", None, "unplayed", 0, 0, "2021-05-01"),
        game("new", "New", None, "playing", 0, 1, "2024-05-01"),
        game("played", "Played", None, "playing", 10, 1, "2025-05-01"),
        game("mid", "Mid", None, "unplayed", 0, 0, "2023-05-01"),
    ];
    let ids: Vec<String> = fetch_candidates(&library).into_iter().map(|c| c.id).collect();
    assert_eq!(ids, vec!["new".to_string(), "mid".to_string(), "old".to_string()]);
}

#[test]
fn build_user_context_works_on_empty_db() {
    let ctx = build_user_context(&Vec::new());
    assert_eq!(ctx.total_playtime_secs, 0);
    assert_eq!(value(ctx.completion_rate), 0.0);
    assert!(ctx.genre_playtime.is_empty());
}

#[test]
fn build_user_context_captures_genre_playtime() {
    let library = vec![
        game("g1", "RPG A", Some("RPG"), "completed", 3600, 5, "2024-01-01"),
        game("g2", "RPG B", Some("RPG"), "playing", 1800, 2, "2024-06-01"),
        game("g3", "Shooter", Some("Shooter"), "unplayed", 0, 0, "2024-09-01"),
    ];
    let ctx = build_user_context(&library);
    assert_eq!(ctx.total_playtime_secs, 5400);
    assert_eq!(lookup_playtime(&ctx.genre_playtime, "RPG").unwrap(), 5400);
    assert!(lookup_playtime(&ctx.genre_playtime, "Shooter").is_none(), "Unplayed games contribute 0 to genre_playtime");
    assert_eq!(ctx.completion_rate, Fraction { num: 1, den: 3 });
}

#[test]
fn results_include_reason_strings() {
    let today = today_text();
    let library = vec![game("g1", "Fresh RPG", Some("RPG"), "unplayed", 0, 0, &today)];
    let ctx = make_ctx_with_genre("RPG", 3600);
    let candidates = fetch_candidates(&library);
    let combiner = StrategyCombiner::default_combiner();
    let results = combiner.rank(&candidates, &ctx, today_number(), 5);

    assert!(!results.is_empty());
    assert!(!results[0].reason.is_empty(), "Reason string must not be empty");
}

#[test]
fn strategies_name_themselves_and_explain() {
    assert_eq!(ContentBasedStrategy.name(), "content_based");
    assert_eq!(GenreStrategy.name(), "genre_match");
    assert_eq!(PlaytimeStrategy.name(), "unplayed_backlog");
    assert_eq!(RecencyStrategy.name(), "recently_added");
    let ctx = make_ctx_with_genre("RPG", 7200);
    let c = game("g", "Hollow", Some("Indie, RPG"), "unplayed", 0, 0, "2024-01-01");
    assert_eq!(ContentBasedStrategy.explain(&c, &ctx), "You've spent 2h in RPG — give this one a go");
    assert_eq!(GenreStrategy.explain(&c, &ctx), "In your favourite genre: Indie, RPG");
    assert_eq!(PlaytimeStrategy.explain(&c, &ctx), "\"Hollow\" is sitting untouched in your library");
    let today = day_number("2024-01-03").unwrap();
    assert_eq!(RecencyStrategy.explain(&c, today), "You added \"Hollow\" this week — give it a try!");
}

#[test]
fn combiner_score_is_rounded_to_thousandths() {
    let ctx = UserContext { genre_playtime: Vec::new(), total_playtime_secs: 0, completion_rate: Fraction { num: 0, den: 1 } };
    // genre 0.3 * 25 + backlog 1.0 * 20 = 27.5 of 100
    let c = game("x", "Old", None, "unplayed", 0, 0, "2000-01-01");
    let today = day_number("2024-03-01").unwrap();
    let results = StrategyCombiner::default_combiner().rank(&vec![c], &ctx, today, 5);
    assert_eq!(results.len(), 1);
    assert_eq!(results[0].score, Fraction { num: 275, den: 1000 });
}
