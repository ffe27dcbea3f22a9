use pirate_harbor::achievements::{imported_mappings, tracking_status, AchievementDef, IMPORTED_POINTS};
use pirate_harbor::api::{
    after_wait, backoff_delay, bearer, give_up_message, igdb_search_body, igdb_wait, new_rate_window, next_step,
    parse_error_message, rate_check, rawg_game_url, rawg_search_url, status_error_message, NextStep, Provider, Reply,
};
use pirate_harbor::images::{
    artwork_file_names, download_failure_message, download_retry, output_format, process_downloaded_image,
    DownloadRetry, ImageType, OutputFormat,
};
use pirate_harbor::launcher::{monitor_step, session_duration, LauncherState, MonitorStep, RunningGame};
use pirate_harbor::library::{
    contains_pattern, db_health, game_list_query, integrity_ok, journal_body, not_found_message, reported_db_path,
    update_statement, updated_collection, updated_journal, integrity_result, CollectionFields,
};
use pirate_harbor::ratio::fraction_less;
use pirate_harbor::scanner::{
    add_directory, blocked_stem, compute_confidence, game_file_ext, merge_scans, rank_scan_results,
    remove_directory, scan_candidate, ExeFacts, ScanResult, MIN_EXE_SIZE,
};
use pirate_harbor::schema::{
    alter_statement, auto_backup_enabled, pending_migrations, schema_version_from_setting, starting_version,
    CURRENT_SCHEMA_VERSION,
};
use pirate_harbor::search::{fts_escape, like_pattern, search_cap};
use pirate_harbor::updates::update_check_result;
use pirate_harbor::smart::{
    collection_name, evaluate_rules, matches_rule, membership_changes, smart_rule_text, GameRow, SmartField,
    SmartOp, SmartRule,
};

// ── Schema ──────────────────────────────────────────────────────────────────

#[test]
fn fresh_db_runs_every_migration() {
    assert_eq!(schema_version_from_setting(None), 0);
    assert_eq!(starting_version(0, false), 0);
    assert_eq!(pending_migrations(0), vec![1, 2, 3, 4, 5, 6, 7]);
}

#[test]
fn legacy_db_is_detected_as_version_six() {
    assert_eq!(starting_version(0, true), 6);
    assert_eq!(pending_migrations(starting_version(0, true)), vec![7]);
}

#[test]
fn migrations_after_the_last_are_a_no_op() {
    assert!(pending_migrations(CURRENT_SCHEMA_VERSION).is_empty());
    assert!(pending_migrations(CURRENT_SCHEMA_VERSION + 3).is_empty());
    assert_eq!(schema_version_from_setting(Some("7")), 7);
    assert_eq!(schema_version_from_setting(Some("seven")), 0);
}

#[test]
fn schema_statements_and_settings() {
    assert_eq!(alter_statement("games", "notes", "TEXT"), "ALTER TABLE games ADD COLUMN notes TEXT");
    assert!(auto_backup_enabled(None));
    assert!(auto_backup_enabled(Some("true")));
    assert!(!auto_backup_enabled(Some("false")));
}

// ── Search ──────────────────────────────────────────────────────────────────

#[test]
fn fts_query_is_a_quoted_prefix_phrase() {
    assert_eq!(fts_escape("  Witcher "), Some("\"Witcher\"*".to_string()));
    assert_eq!(fts_escape("say \"hi\""), Some("\"say \"\"hi\"\"\"*".to_string()));
    assert_eq!(fts_escape("   "), None);
    assert_eq!(search_cap(None), 20);
    assert_eq!(search_cap(Some(5)), 5);
    assert_eq!(search_cap(Some(1000)), 100);
    assert_eq!(like_pattern("  boss "), "%boss%");
}

// ── Metadata requests ───────────────────────────────────────────────────────

#[test]
fn backoff_doubles_up_to_sixteen_seconds() {
    let delays: Vec<u64> = (0..7).map(backoff_delay).collect();
    assert_eq!(delays, vec![1000, 2000, 4000, 8000, 16000, 16000, 16000]);
}

#[test]
fn retry_policy() {
    assert_eq!(next_step(0, Reply::Success), NextStep::ReadBody);
    assert_eq!(next_step(0, Reply::ErrorStatus), NextStep::Fail);
    assert_eq!(next_step(0, Reply::TooManyRequests), NextStep::Retry { attempts: 1, delay_ms: 2000 });
    assert_eq!(next_step(1, Reply::SendFailed), NextStep::Retry { attempts: 2, delay_ms: 4000 });
    assert_eq!(next_step(2, Reply::TooManyRequests), NextStep::GiveUp { attempts: 3 });
}

#[test]
fn provider_messages() {
    assert_eq!(give_up_message(Provider::Rawg, None), "RAWG API rate limit exceeded after retries");
    assert_eq!(status_error_message(Provider::Igdb, "500"), "IGDB API error: 500");
    assert_eq!(parse_error_message(Provider::Rawg, "eof"), "Failed to parse RAWG response: eof");
}

#[test]
fn request_texts() {
    assert_eq!(
        rawg_search_url("k", "half life & co"),
        "https://api.rawg.io/api/games?key=k&search=half%20life%20%26%20co&page_size=10"
    );
    assert_eq!(rawg_game_url("k", 42), "https://api.rawg.io/api/games/42?key=k");
    assert_eq!(
        igdb_search_body("a \"b\""),
        "search \"a b\"; fields name,summary,cover.url,genres.name,release_dates.date,release_dates.human,rating; limit 10;"
    );
    assert_eq!(bearer("tok"), "Bearer tok");
}

#[test]
fn rate_window_allows_ten_per_minute() {
    let mut w = new_rate_window(0);
    for i in 0..10u64 {
        let (nw, wait) = rate_check(w, i);
        assert_eq!(wait, None);
        w = nw;
    }
    assert_eq!(w.request_count, 10);
    let (w2, wait) = rate_check(w, 1000);
    assert_eq!(wait, Some(59000));
    assert_eq!(w2, w);
    let (w3, wait) = rate_check(w, 60000);
    assert_eq!(wait, None);
    assert_eq!(w3.request_count, 1);
    assert_eq!(w3.window_start_ms, 60000);
    assert_eq!(after_wait(70000).request_count, 1);
}

#[test]
fn igdb_spacing() {
    assert_eq!(igdb_wait(None, 5), 0);
    assert_eq!(igdb_wait(Some(100), 150), 200);
    assert_eq!(igdb_wait(Some(100), 400), 0);
}

// ── Images ──────────────────────────────────────────────────────────────────

#[test]
fn image_format_and_names() {
    assert_eq!(output_format("/c/a.png"), OutputFormat::Png);
    assert_eq!(output_format("/c/a.webp"), OutputFormat::WebP);
    assert_eq!(output_format("/c/a.WEBP"), OutputFormat::Jpeg);
    assert_eq!(output_format("/c/a.jpg"), OutputFormat::Jpeg);
    assert_eq!(output_format("/c/noext"), OutputFormat::Jpeg);
    assert_eq!(ImageType::Background.target_dimensions(), (1920, 1080));
    let (final_name, temp) = artwork_file_names("g1", ImageType::Cover);
    assert_eq!(final_name, "g1_cover.jpg");
    assert_eq!(temp, "g1_cover_temp.jpg");
    assert_eq!(process_downloaded_image("/x.jpg", Ok(())), Ok("/x.jpg".to_string()));
    assert_eq!(process_downloaded_image("/x.jpg", Err("bad".to_string())), Err("bad".to_string()));
}

#[test]
fn download_retries_then_gives_up() {
    assert_eq!(download_retry(0), DownloadRetry::Wait { attempts: 1, delay_ms: 2000 });
    assert_eq!(download_retry(1), DownloadRetry::Wait { attempts: 2, delay_ms: 4000 });
    assert_eq!(download_retry(2), DownloadRetry::GiveUp);
    assert_eq!(download_failure_message("timeout"), "Download failed after 3 retries: timeout");
}

// ── Smart collections ───────────────────────────────────────────────────────

fn row(id: &str, status: &str, genre: Option<&str>, secs: i64, dev: Option<&str>, fav: bool) -> GameRow {
    GameRow {
        id: id.to_string(),
        status: status.to_string(),
        genre: genre.map(String::from),
        total_playtime_secs: secs,
        developer: dev.map(String::from),
        is_favorite: fav,
    }
}

fn rule(field: SmartField, operator: SmartOp, value: &str) -> SmartRule {
    SmartRule { field, operator, value: value.to_string() }
}

#[test]
fn smart_rules_select_games() {
    let games = vec![
        row("a", "playing", Some("RPG, Action"), 7200, Some("CD Projekt Red"), true),
        row("b", "completed", Some("Puzzle"), 600, None, false),
        row("c", "playing", Some("rpg"), 30, Some("Other"), false),
    ];
    assert!(matches_rule(&games[0], &rule(SmartField::Genre, SmartOp::Contains, "action")));
    assert!(!matches_rule(&games[1], &rule(SmartField::Genre, SmartOp::Contains, "action")));
    assert!(matches_rule(&games[0], &rule(SmartField::Developer, SmartOp::Contains, "projekt")));
    assert!(matches_rule(&games[0], &rule(SmartField::IsFavorite, SmartOp::IsTrue, "")));
    assert!(!matches_rule(&games[0], &rule(SmartField::Status, SmartOp::Gt, "x")));
    let rules = vec![
        rule(SmartField::Status, SmartOp::Eq, "playing"),
        rule(SmartField::Genre, SmartOp::Contains, "RPG"),
        rule(SmartField::Playtime, SmartOp::Gt, "60"),
    ];
    assert_eq!(evaluate_rules(&games, &rules), vec!["a".to_string()]);
    assert_eq!(evaluate_rules(&games, &Vec::new()).len(), 3);
}

#[test]
fn smart_collection_without_rules_lists_every_game_in_order() {
    let games = vec![
        row("z", "playing", None, 0, None, false),
        row("a", "completed", Some("Puzzle"), 600, None, true),
        row("m", "backlog", Some("rpg"), 30, Some("Other"), false),
    ];
    assert_eq!(
        evaluate_rules(&games, &Vec::new()),
        vec!["z".to_string(), "a".to_string(), "m".to_string()]
    );
}

#[test]
fn smart_membership_and_names() {
    let existing = vec!["a".to_string(), "b".to_string()];
    let matching = vec!["b".to_string(), "c".to_string()];
    let (leave, join) = membership_changes(&existing, &matching);
    assert_eq!(leave, vec!["a".to_string()]);
    assert_eq!(join, vec!["c".to_string()]);
    assert_eq!(collection_name("  Backlog "), Ok("Backlog".to_string()));
    assert_eq!(collection_name("   "), Err("Collection name cannot be empty.".to_string()));
    assert_eq!(smart_rule_text(false, None), Err("Not a smart collection.".to_string()));
    assert_eq!(smart_rule_text(true, None), Err("Smart collection has no rule_json.".to_string()));
    assert_eq!(smart_rule_text(true, Some("[]".to_string())), Ok("[]".to_string()));
}

// ── Scanner ─────────────────────────────────────────────────────────────────

fn facts(stem: &str, path: &str, folder: Option<&str>, game_files: bool, size: u64) -> ExeFacts {
    ExeFacts {
        stem: stem.to_string(),
        path: path.to_string(),
        folder_name: folder.map(String::from),
        folder_has_game_files: game_files,
        size_bytes: size,
    }
}

fn found(path: &str, confidence: u32) -> ScanResult {
    ScanResult {
        name: path.to_string(),
        exe_path: path.to_string(),
        already_added: false,
        confidence_tenths: confidence,
        size_bytes: MIN_EXE_SIZE,
        folder_name: String::new(),
    }
}

#[test]
fn scanner_filters_and_scores() {
    assert!(blocked_stem("UnInstall"));
    assert!(!blocked_stem("setuptown"));
    assert!(game_file_ext("PAK"));
    assert!(!game_file_ext("txt"));
    let f = facts("Hades", "C:\\Games\\Hades\\bin\\Hades.exe", Some("hades"), true, 60 * 1024 * 1024);
    assert_eq!(compute_confidence(&f), 10);
    let small = facts("Tiny", "/g/Tiny.exe", None, false, 1024);
    assert!(scan_candidate(&small, &Vec::new()).is_none());
    let blocked = facts("setup", "/g/setup.exe", None, false, MIN_EXE_SIZE);
    assert!(scan_candidate(&blocked, &Vec::new()).is_none());
    let ok = facts("Game", "/g/x/Game.exe", Some("x"), false, MIN_EXE_SIZE);
    let c = scan_candidate(&ok, &vec!["/g/x/Game.exe".to_string()]).unwrap();
    assert!(c.already_added);
    assert_eq!(c.confidence_tenths, 3);
    assert_eq!(c.folder_name, "x");
}

#[test]
fn scan_results_ranked_and_merged() {
    let ranked = rank_scan_results(&vec![found("/a", 3), found("/b", 9), found("/c", 3)]);
    let paths: Vec<&str> = ranked.iter().map(|r| r.exe_path.as_str()).collect();
    assert_eq!(paths, vec!["/b", "/a", "/c"]);
    let merged = merge_scans(&vec![vec![found("/a", 3), found("/b", 5)], vec![found("/a", 8), found("/c", 7)]]);
    let paths: Vec<&str> = merged.iter().map(|r| r.exe_path.as_str()).collect();
    assert_eq!(paths, vec!["/c", "/b", "/a"]);
    assert_eq!(merged[2].confidence_tenths, 3);
}

#[test]
fn scan_directories_list() {
    let dirs = add_directory(vec!["/a".to_string()], "/b".to_string());
    assert_eq!(dirs, vec!["/a".to_string(), "/b".to_string()]);
    let same = add_directory(dirs.clone(), "/a".to_string());
    assert_eq!(same, dirs);
    assert_eq!(remove_directory(&dirs, "/a"), vec!["/b".to_string()]);
}

// ── Launcher ────────────────────────────────────────────────────────────────

#[test]
fn one_game_at_a_time() {
    let mut s = LauncherState::new();
    assert!(s.check_can_launch().is_ok());
    s.start(RunningGame { game_id: "g1".to_string(), pid: 42, session_id: "s1".to_string(), started_at: 100 });
    assert_eq!(
        s.check_can_launch(),
        Err("A game is already running. Close it before launching another.".to_string())
    );
    assert_eq!(s.running_game_id(), Some("g1".to_string()));
    s.stop();
    assert!(s.running_game_id().is_none());
    assert_eq!(session_duration(100, 160), 60);
    assert_eq!(session_duration(100, 90), 0);
    assert_eq!(monitor_step(true, 0, 10), MonitorStep::KeepWatching);
    assert_eq!(monitor_step(false, 0, 10), MonitorStep::Finish { duration_secs: 10 });
}

// ── Library ─────────────────────────────────────────────────────────────────

#[test]
fn library_queries_and_checks() {
    assert!(game_list_query(false, false, false, false).ends_with(" WHERE 1=1 ORDER BY LOWER(title) ASC"));
    assert_eq!(contains_pattern("zel"), "%zel%");
    assert_eq!(update_statement(&vec![]), None);
    assert_eq!(
        update_statement(&vec!["title", "genre"]),
        Some("UPDATE games SET title = ?1, genre = ?2 WHERE id = ?3".to_string())
    );
    assert_eq!(journal_body("  hi ", None), Ok("hi".to_string()));
    assert_eq!(journal_body("  ", Some("Title")), Ok("".to_string()));
    assert_eq!(journal_body(" ", Some("  ")), Err("Entry must have a body or title.".to_string()));
    assert_eq!(reported_db_path(Some("C:\\data")), "C:\\data\\pirate_harbor.db");
    assert_eq!(reported_db_path(None), "%APPDATA%\\com.pirateharbor.app\\pirate_harbor.db");
    let h = db_health(7, 10, 4096, "WAL", 1);
    assert!(h.schema_up_to_date && h.wal_enabled && h.foreign_keys_enabled);
    assert_eq!(h.db_size_bytes, 40960);
    assert!(integrity_ok(&vec!["OK".to_string()]));
    assert!(!integrity_ok(&vec!["row 3 missing".to_string()]));
    assert_eq!(not_found_message("Game", "no rows"), "Game not found: no rows");
}

#[test]
fn exact_fraction_comparison() {
    assert!(fraction_less(1, 3, 1, 2));
    assert!(!fraction_less(1, 2, 1, 3));
    assert!(!fraction_less(2, 4, 1, 2));
    assert!(fraction_less(-1, 2, 0, 1));
    assert!(fraction_less(i64::MAX as i128, u64::MAX as u128 - 1, 1, 1));
}

fn sample_collection() -> CollectionFields {
    CollectionFields {
        name: "  Favourites ".to_string(),
        description: Some("old".to_string()),
        cover_path: None,
        cover_mode: "auto".to_string(),
        cover_game_id: Some("g1".to_string()),
    }
}

#[test]
fn updated_collection_keeps_fields_not_given_and_trims_name() {
    let r = updated_collection(sample_collection(), None, None, None, None, None);
    assert_eq!(r.name, "Favourites");
    assert_eq!(r.description, Some("old".to_string()));
    assert_eq!(r.cover_path, None);
    assert_eq!(r.cover_mode, "auto");
    assert_eq!(r.cover_game_id, Some("g1".to_string()));
}

#[test]
fn updated_collection_replaces_given_fields() {
    let r = updated_collection(
        sample_collection(),
        Some("  RPGs\t".to_string()),
        Some("new".to_string()),
        Some("/covers/a.webp".to_string()),
        Some("custom".to_string()),
        Some("g2".to_string()),
    );
    assert_eq!(r.name, "RPGs");
    assert_eq!(r.description, Some("new".to_string()));
    assert_eq!(r.cover_path, Some("/covers/a.webp".to_string()));
    assert_eq!(r.cover_mode, "custom");
    assert_eq!(r.cover_game_id, Some("g2".to_string()));
}

#[test]
fn updated_journal_replaces_only_given_parts() {
    let current = (Some("Day one".to_string()), "body".to_string(), "note".to_string());
    let kept = updated_journal(current.clone(), None, None, None);
    assert_eq!(kept, current);
    let changed = updated_journal(current, None, Some("new body".to_string()), Some("milestone".to_string()));
    assert_eq!(changed, (Some("Day one".to_string()), "new body".to_string(), "milestone".to_string()));
}

#[test]
fn tracking_status_reads_flag_and_count() {
    let on = tracking_status(1, Some("440".to_string()), Some(12));
    assert!(on.enabled);
    assert_eq!(on.steam_app_id, Some("440".to_string()));
    assert_eq!(on.mapping_count, 12);
    let off = tracking_status(0, None, None);
    assert!(!off.enabled);
    assert_eq!(off.steam_app_id, None);
    assert_eq!(off.mapping_count, 0);
}

fn def(name: &str, shown: &str, description: Option<&str>) -> AchievementDef {
    AchievementDef {
        name: name.to_string(),
        display_name: shown.to_string(),
        description: description.map(|d| d.to_string()),
    }
}

#[test]
fn imported_mappings_keep_only_inserted_rows_in_order() {
    let defs = vec![
        def("ACH_WIN", "Winner", Some("Win a match")),
        def("ACH_LOSE", "Good sport", None),
        def("ACH_ALL", "Completionist", None),
    ];
    let ids = vec!["a".to_string(), "b".to_string(), "c".to_string()];
    let changed = vec![1, 0, 1];
    let r = imported_mappings(&"game-1".to_string(), &"2024-05-01T00:00:00+00:00".to_string(), &defs, &ids, &changed);
    assert_eq!(r.len(), 2);
    assert_eq!(r[0].id, "a");
    assert_eq!(r[0].game_id, "game-1");
    assert_eq!(r[0].steam_id, "ACH_WIN");
    assert_eq!(r[0].display_name, "Winner");
    assert_eq!(r[0].description, Some("Win a match".to_string()));
    assert_eq!(r[0].points, 10);
    assert_eq!(r[0].created_at, "2024-05-01T00:00:00+00:00");
    assert_eq!(r[1].id, "c");
    assert_eq!(r[1].steam_id, "ACH_ALL");
    assert_eq!(r[1].description, None);
    assert_eq!(r[1].points, IMPORTED_POINTS);
    let none = imported_mappings(&"g".to_string(), &"t".to_string(), &defs, &ids, &vec![0, 0, 0]);
    assert!(none.is_empty());
}

#[test]
fn update_check_reports_found_release() {
    let found = update_check_result(Some(("0.2.0".to_string(), Some("Fixes".to_string()))));
    assert!(found.available);
    assert_eq!(found.version, Some("0.2.0".to_string()));
    assert_eq!(found.notes, Some("Fixes".to_string()));
    let none = update_check_result(None);
    assert!(!none.available);
    assert_eq!(none.version, None);
    assert_eq!(none.notes, None);
}

#[test]
fn integrity_result_keeps_lines_and_reads_ok() {
    let r = integrity_result(vec!["ok".to_string()]);
    assert!(r.ok);
    assert_eq!(r.messages, vec!["ok".to_string()]);
    let bad = integrity_result(vec!["ok".to_string(), "page 4 broken".to_string()]);
    assert!(!bad.ok);
    assert_eq!(bad.messages.len(), 2);
}

#[test]
fn adding_a_smart_rule_only_narrows_the_collection() {
    let games = vec![
        row("a", "playing", Some("RPG"), 7200, None, false),
        row("b", "unplayed", Some("RPG"), 0, None, false),
        row("c", "playing", Some("Racing"), 9000, None, false),
    ];
    let one = vec![rule(SmartField::Genre, SmartOp::Contains, "RPG")];
    let two = vec![rule(SmartField::Genre, SmartOp::Contains, "RPG"), rule(SmartField::Status, SmartOp::Eq, "playing")];
    let wide = evaluate_rules(&games, &one);
    let narrow = evaluate_rules(&games, &two);
    assert_eq!(wide, vec!["a".to_string(), "b".to_string()]);
    assert_eq!(narrow, vec!["a".to_string()]);
    assert!(narrow.iter().all(|id| wide.contains(id)));
}

#[test]
fn try_start_checks_and_records_in_one_step() {
    let mut s = LauncherState::new();
    assert!(s.try_start(RunningGame { game_id: "g1".to_string(), pid: 1, session_id: "s1".to_string(), started_at: 0 }).is_ok());
    assert_eq!(
        s.try_start(RunningGame { game_id: "g2".to_string(), pid: 2, session_id: "s2".to_string(), started_at: 5 }),
        Err("A game is already running. Close it before launching another.".to_string())
    );
    assert_eq!(s.running_game_id(), Some("g1".to_string()));
}

#[test]
fn reserved_launch_records_its_pid_later() {
    let mut s = LauncherState::new();
    assert!(s.try_start(RunningGame { game_id: "g1".to_string(), pid: 0, session_id: "s1".to_string(), started_at: 0 }).is_ok());
    s.record_pid(4242);
    assert_eq!(s.running_game_id(), Some("g1".to_string()));
    assert!(s.check_can_launch().is_err());
}
