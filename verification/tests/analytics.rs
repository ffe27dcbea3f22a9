use pirate_harbor::recommend::Fraction;
use pirate_harbor::stats::{
    build_heatmap, completion_rate, fill_months, fill_trend, most_played_cap, trend_days, MonthlyPlaytime, genre_distribution, library_summary, trend_modifier, year_bounds,
    year_in_review, GenreGroup, HeatmapCell, YearGame, YearSession,
};

fn session(game: &str, started_at: &str, secs: i64) -> YearSession {
    YearSession { game_id: game.to_string(), started_at: started_at.to_string(), duration_secs: secs }
}

fn year_game(status: &str, last_played: Option<&str>, added_at: &str) -> YearGame {
    YearGame { status: status.to_string(), last_played: last_played.map(String::from), added_at: added_at.to_string() }
}

#[test]
fn year_in_review_empty_db_returns_zeroes() {
    let result = year_in_review(2025, &Vec::new(), &Vec::new(), Fraction { num: 0, den: 1 }, Vec::new(), Vec::new());
    assert_eq!(result.total_playtime_secs, 0, "no sessions → 0 playtime");
    assert_eq!(result.games_played, 0, "no sessions → 0 games played");
    assert_eq!(result.games_completed, 0, "no completions");
    assert_eq!(result.longest_session_secs, 0, "no sessions → longest = 0");
    assert!(result.most_active_month.is_none(), "no sessions → no active month");
}

#[test]
fn most_active_month_detected_correctly() {
    let games = vec![year_game("playing", None, "2025-01-01T00:00:00")];
    let mut sessions = Vec::new();
    for _ in 0..3 {
        sessions.push(session("g1", "2025-01-15T10:00:00", 3600));
    }
    sessions.push(session("g1", "2025-02-10T10:00:00", 3600));
    let result = year_in_review(2025, &sessions, &games, Fraction { num: 0, den: 1 }, Vec::new(), Vec::new());
    assert_eq!(result.most_active_month, Some(1), "January (1) should win");
}

#[test]
fn longest_session_recorded_correctly() {
    let games = vec![year_game("playing", None, "2025-01-01T00:00:00")];
    let sessions = vec![session("g1", "2025-06-01T10:00:00", 7200), session("g1", "2025-06-02T10:00:00", 3600)];
    let result = year_in_review(2025, &sessions, &games, Fraction { num: 0, den: 1 }, Vec::new(), Vec::new());
    assert_eq!(result.longest_session_secs, 7200, "2h session is the longest");
}

#[test]
fn year_in_review_counts_only_the_year() {
    let games = vec![
        year_game("completed", Some("2025-03-01 10:00:00"), "2024-12-01"),
        year_game("completed", Some("2024-03-01 10:00:00"), "2025-02-01"),
        year_game("playing", Some("2025-03-01 10:00:00"), "2025-05-01"),
    ];
    let sessions = vec![
        session("a", "2024-12-31 23:00:00", 500),
        session("a", "2025-03-01 10:00:00", 100),
        session("b", "2025-03-02 10:00:00", 200),
        session("a", "2025-04-02 10:00:00", 300),
        session("c", "2026-01-01 00:00:00", 900),
    ];
    let result = year_in_review(2025, &sessions, &games, Fraction { num: 1, den: 2 }, Vec::new(), Vec::new());
    assert_eq!(result.year, "2025");
    assert_eq!(result.sessions, 3);
    assert_eq!(result.total_playtime_secs, 600);
    assert_eq!(result.games_played, 2);
    assert_eq!(result.games_completed, 1);
    assert_eq!(result.games_added, 2);
    assert_eq!(result.most_active_month, Some(3));
    assert_eq!(result.longest_session_secs, 300);
    assert_eq!(result.completion_rate, Fraction { num: 1, den: 2 });
}

#[test]
fn year_bounds_are_text_bounds() {
    let (start, end) = year_bounds(2025);
    assert_eq!(start, "2025-01-01");
    assert_eq!(end, "2025-12-31 23:59:59");
}

#[test]
fn heatmap_fills_the_whole_grid() {
    let sparse = vec![
        HeatmapCell { day_of_week: 1, hour: 20, sessions: 4 },
        HeatmapCell { day_of_week: 5, hour: 9, sessions: 2 },
        HeatmapCell { day_of_week: 1, hour: 9, sessions: 1 },
    ];
    let h = build_heatmap(&sparse);
    assert_eq!(h.cells.len(), 168);
    assert_eq!(h.cells[24 + 20], HeatmapCell { day_of_week: 1, hour: 20, sessions: 4 });
    assert_eq!(h.cells[5 * 24 + 9].sessions, 2);
    assert_eq!(h.cells[0].sessions, 0);
    assert_eq!(h.total_sessions, 7);
    assert_eq!(h.most_active_day, Some(1));
    assert_eq!(h.most_active_hour, Some(20));
}

#[test]
fn heatmap_without_sessions_has_no_busiest_slot() {
    let h = build_heatmap(&Vec::new());
    assert_eq!(h.total_sessions, 0);
    assert_eq!(h.most_active_day, None);
    assert_eq!(h.most_active_hour, None);
}

#[test]
fn completion_rate_of_finished_games() {
    assert_eq!(completion_rate(3, 1), Fraction { num: 3, den: 4 });
    assert_eq!(completion_rate(0, 0), Fraction { num: 0, den: 1 });
}

#[test]
fn library_summary_reads_status_rows() {
    let rows = vec![("completed".to_string(), 4), ("playing".to_string(), 2), ("dropped".to_string(), 1)];
    let s = library_summary(&rows, 9, 36000, 3, 40, 5);
    assert_eq!(s.total_games, 9);
    assert_eq!(s.completed_games, 4);
    assert_eq!(s.playing_games, 2);
    assert_eq!(s.unplayed_games, 0);
    assert_eq!(s.dropped_games, 1);
    assert_eq!(s.favorite_games, 3);
    assert_eq!(s.total_sessions, 40);
    assert_eq!(s.total_milestones, 5);
}

#[test]
fn genre_distribution_shares_and_dominant_genre() {
    let groups = vec![
        GenreGroup { genre: "RPG".to_string(), game_count: 3, completed_count: 1, total_playtime_secs: 7200 },
        GenreGroup { genre: "Puzzle".to_string(), game_count: 1, completed_count: 1, total_playtime_secs: 1800 },
    ];
    let milestones = vec![("RPG".to_string(), 2)];
    let d = genre_distribution(&groups, &milestones, 9000);
    assert_eq!(d.dominant_genre, Some("RPG".to_string()));
    assert_eq!(d.genres.len(), 2);
    assert_eq!(d.genres[0].milestone_count, 2);
    assert_eq!(d.genres[1].milestone_count, 0);
    assert_eq!(d.genres[0].preference, Fraction { num: 7200, den: 9000 });
    let empty = genre_distribution(&Vec::new(), &Vec::new(), 0);
    assert_eq!(empty.dominant_genre, None);
}

#[test]
fn trend_fills_missing_days_with_zero() {
    assert_eq!(trend_modifier(30), "-30 days");
    let dates = vec!["2025-01-01".to_string(), "2025-01-02".to_string(), "2025-01-03".to_string()];
    let rows = vec![("2025-01-02".to_string(), 1200)];
    let t = fill_trend(&dates, &rows);
    let secs: Vec<i64> = t.iter().map(|d| d.playtime_secs).collect();
    assert_eq!(secs, vec![0, 1200, 0]);
    assert_eq!(t[1].date, "2025-01-02");
}

#[test]
fn monthly_playtime_has_twelve_months() {
    let rows = vec![(3, 600), (1, 100), (3, 999)];
    let m = fill_months(&rows);
    assert_eq!(m.len(), 12);
    assert_eq!(m[0], MonthlyPlaytime { month: 1, secs: 100 });
    assert_eq!(m[1], MonthlyPlaytime { month: 2, secs: 0 });
    assert_eq!(m[2], MonthlyPlaytime { month: 3, secs: 600 });
    assert_eq!(m[11].month, 12);
}

#[test]
fn list_caps_follow_the_screens() {
    assert_eq!(most_played_cap(None), 10);
    assert_eq!(most_played_cap(Some(7)), 7);
    assert_eq!(most_played_cap(Some(80)), 50);
    assert_eq!(trend_days(None), 30);
    assert_eq!(trend_days(Some(90)), 90);
    assert_eq!(trend_days(Some(1000)), 365);
}
