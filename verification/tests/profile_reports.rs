use std::hash::{Hash, Hasher};
use pirate_harbor::backup::{
    archive_image_path, auto_backup_file_name, auto_backups_to_prune, backup_created_message, check_backup_path,
    classify_backup_file, default_backup_dir, images_to_restore, insert_statement, is_auto_backup_due, new_manifest,
    restore_clear_order, restore_fill_order, sort_backups, BackupInfo, BACKUP_SCHEMA_VERSION,
};
use pirate_harbor::dates::{date_part, day_number, hours_between, instant_of};
use pirate_harbor::export::{
    build_export_preview, check_export_path, json_export_summary, markdown_export_summary, render_profile_markdown,
    CompletedGameRow, ExportFormat, JournalRow, MilestoneRow, ProfileReport, TopGameRow,
};
use pirate_harbor::identity::{
    calculate_current_streak, calculate_profile_summary, calculate_runtime_stats, classify_personality,
    generate_personality_description, rank_genre_preferences, GenreRow, ProfileGame, SessionRow,
};
use pirate_harbor::metadata::{
    bulk_step, bulk_summary, enrich_plan, enrichment_from_fetch, image_download_result, queue_progress,
    rawg_to_metadata, search_plan, EnrichmentStatus, ImageStep, LookupPlan, RawgGame, RawgGenre, RawgPlatform,
    RawgPlatformWrapper,
};
use pirate_harbor::milestones::{
    build_timeline, checked_title, default_template_id_of, default_template_list, format_template_id,
    journal_to_milestone, milestone_rate, weekly_average, TimelineRow,
};
use pirate_harbor::recommend::Fraction;

// ── Dates ───────────────────────────────────────────────────────────────────

#[test]
fn calendar_dates_and_instants() {
    assert_eq!(day_number("2024-03-01").unwrap() - day_number("2024-02-28").unwrap(), 2);
    assert_eq!(day_number("2024-02-30"), None);
    assert_eq!(date_part("2024-05-06T10:11:12Z"), "2024-05-06");
    let a = instant_of("2024-01-01T00:00:00Z").unwrap();
    let b = instant_of("2024-01-02T01:30:00+00:00").unwrap();
    assert_eq!(a.0, 1704067200);
    assert_eq!(hours_between(a, b), 25);
    assert!(instant_of("yesterday").is_none());
}

// ── Profile ─────────────────────────────────────────────────────────────────

fn pgame(status: &str, secs: i64, fav: bool, added: &str) -> ProfileGame {
    ProfileGame { status: status.to_string(), total_playtime_secs: secs, is_favorite: fav, added_at: added.to_string() }
}

#[test]
fn profile_summary_counts() {
    let games = vec![
        pgame("completed", 3600, true, "2023-05-01"),
        pgame("playing", 1800, false, "2022-01-01"),
        pgame("unplayed", 0, false, "2024-01-01"),
        pgame("dropped", 600, true, "2023-01-01"),
    ];
    let p = calculate_profile_summary(&games, 12, 3);
    assert_eq!(p.total_games, 4);
    assert_eq!(p.total_playtime_secs, 6000);
    assert_eq!(p.completed_games, 1);
    assert_eq!(p.playing_games, 1);
    assert_eq!(p.favorite_games, 2);
    assert_eq!(p.completion_rate, Fraction { num: 100, den: 3 });
    assert_eq!(p.gaming_since, Some("2022-01-01".to_string()));
    assert_eq!(p.total_sessions, 12);
    assert_eq!(p.total_milestones, 3);
    let empty = calculate_profile_summary(&Vec::new(), 0, 0);
    assert_eq!(empty.completion_rate, Fraction { num: 0, den: 1 });
    assert_eq!(empty.gaming_since, None);
}

#[test]
fn streak_counts_consecutive_days() {
    let today = day_number("2025-03-10").unwrap();
    let dates = vec![
        "2025-03-10T20:00:00+00:00".to_string(),
        "2025-03-10T08:00:00+00:00".to_string(),
        "2025-03-09T21:00:00+00:00".to_string(),
        "not a date".to_string(),
        "2025-03-08T10:00:00+00:00".to_string(),
        "2025-03-05T10:00:00+00:00".to_string(),
    ];
    let n = calculate_current_streak(&dates, today);
    assert_eq!(n, 4);
    assert_eq!(calculate_current_streak(&Vec::new(), today), 0);
}

#[test]
fn runtime_statistics() {
    let sessions = vec![
        SessionRow { started_at: "2025-01-01T10:00:00".to_string(), duration_secs: 3600 },
        SessionRow { started_at: "2025-02-20T10:00:00".to_string(), duration_secs: 7200 },
        SessionRow { started_at: "2025-02-25T10:00:00".to_string(), duration_secs: 1800 },
    ];
    let r = calculate_runtime_stats(12600, &sessions, "2025-02-01T00:00:00", 4);
    assert_eq!(r.total_playtime_secs, 12600);
    assert_eq!(r.total_sessions, 3);
    assert_eq!(r.longest_session_secs, 7200);
    assert_eq!(r.average_session, Fraction { num: 12600, den: 3 });
    assert_eq!(r.sessions_last_30_days, 2);
    assert_eq!(r.playtime_last_30_days_secs, 9000);
    assert_eq!(r.streak_current_days, 4);
    assert_eq!(r.streak_longest_days, 4);
}

#[test]
fn genre_preferences_rank_by_score() {
    let rows = vec![
        GenreRow { genre: "Puzzle".to_string(), game_count: 1, total_playtime_secs: 3600, milestone_count: 0 },
        GenreRow { genre: "RPG".to_string(), game_count: 4, total_playtime_secs: 36000, milestone_count: 5 },
    ];
    let r = rank_genre_preferences(&rows);
    assert_eq!(r.len(), 2);
    assert_eq!(r[0].genre, "RPG");
    assert_eq!(r[1].genre, "Puzzle");
    assert!(r[0].preference_tenths > r[1].preference_tenths);
}

#[test]
fn personality_from_statistics() {
    let games: Vec<ProfileGame> = (0..10).map(|_| pgame("completed", 100, false, "2024-01-01")).collect();
    let profile = calculate_profile_summary(&games, 10, 0);
    let runtime = calculate_runtime_stats(1000, &Vec::new(), "2025-01-01", 0);
    let p = classify_personality(&profile, &Vec::new(), &runtime);
    assert_eq!(p.primary_type, "completionist");
    assert_eq!(p.secondary_type, Some("casual".to_string()));
    assert_eq!(p.traits, vec!["Completionist".to_string(), "Casual".to_string()]);
    assert_eq!(
        p.description,
        "You strive to see everything a game has to offer, achieving full completion, with a casual streak."
    );
    assert_eq!(generate_personality_description("wanderer", None), "You have a unique gaming style.");
}

// ── Export ──────────────────────────────────────────────────────────────────

#[test]
fn markdown_profile_report() {
    let report = ProfileReport {
        generated_on: "2025-03-01".to_string(),
        total_games: 4,
        completed: 1,
        playing: 2,
        unplayed: 1,
        total_secs: 7300,
        milestones: 1,
        top_games: vec![TopGameRow { title: "Hades".to_string(), total_playtime_secs: 3725, status: "playing".to_string() }],
        completed_games: vec![CompletedGameRow {
            title: "Celeste".to_string(),
            genre: None,
            developer: Some("EXOK".to_string()),
            total_playtime_secs: 7300,
        }],
        milestone_rows: vec![MilestoneRow {
            title: "Summit".to_string(),
            category: "completion".to_string(),
            achievement_date: "2025-02-02T10:00:00".to_string(),
            game_title: Some("Celeste".to_string()),
            points: 50,
        }],
        journal_rows: Vec::new(),
    };
    let md = render_profile_markdown(&report);
    assert!(md.starts_with("# Pirate Harbor — Gaming Profile\n\n*Generated on 2025-03-01*\n\n---\n\n"));
    assert!(md.contains("| Completed      | 1 (25%) |\n"));
    assert!(md.contains("| Total Playtime | 2h |\n"));
    assert!(md.contains("| 1 | Hades | 1h 2m | playing |\n"));
    assert!(md.contains("| Celeste | — | EXOK | 2h |\n"));
    assert!(md.contains("| Summit | Celeste | completion | 2025-02-02 | 50 |\n"));
    assert!(md.contains("*No journal entries yet.*"));
    assert!(md.ends_with("---\n\n*Exported by Pirate Harbor — Your Gaming Library Manager*\n"));
}

#[test]
fn export_checks_and_summaries() {
    assert!(check_export_path("/x/lib.json", ExportFormat::Json).is_ok());
    assert!(check_export_path("/x/lib.md", ExportFormat::Json).is_err());
    assert!(check_export_path("/x/profile.md", ExportFormat::Markdown).is_ok());
    assert_eq!(markdown_export_summary("/p.md", 12), "Profile exported to '/p.md' (12 bytes)");
    assert_eq!(json_export_summary(3, "/l.json", 4096), "Exported 3 games to '/l.json' (4 KB)");
    let p = build_export_preview(2, 1, 1, 4);
    assert_eq!(p.estimated_size_bytes, 2 * 2048 + 512 + 512 + 4 * 256);
}

// ── Backup ──────────────────────────────────────────────────────────────────

fn info(path: &str, created: &str) -> BackupInfo {
    BackupInfo { path: path.to_string(), created_at: created.to_string(), size_bytes: 1, game_count: 0, is_auto: false }
}

#[test]
fn backup_paths_and_manifest() {
    assert_eq!(default_backup_dir("/appdata"), "/appdata/backups");
    let m = new_manifest("now".to_string(), "1.0".to_string(), 3, true);
    assert_eq!(m.schema_version, BACKUP_SCHEMA_VERSION);
    assert_eq!(m.game_count, 3);
    assert!(m.is_auto);
    assert!(check_backup_path("/b/x.phb").is_ok());
    assert_eq!(check_backup_path("/b/x.zip"), Err("Backup file must have .phb extension".to_string()));
    assert_eq!(classify_backup_file("/b/auto_1.phb", "auto_1.phb"), (true, true));
    assert_eq!(classify_backup_file("/b/mine.txt", "mine.txt"), (false, false));
    assert_eq!(auto_backup_file_name("20250101_000000"), "auto_20250101_000000.phb");
    assert_eq!(backup_created_message("/b/x.phb", 99), "Backup created: /b/x.phb (99 bytes)");
    assert_eq!(archive_image_path("covers\\g1.webp"), "images/covers/g1.webp");
}

#[test]
fn auto_backup_schedule() {
    let now = instant_of("2025-01-08T00:00:00Z").unwrap();
    assert!(!is_auto_backup_due(Some("never"), None, now));
    assert!(is_auto_backup_due(None, None, now));
    assert!(is_auto_backup_due(Some("weekly"), Some("2025-01-01T00:00:00Z"), now));
    assert!(!is_auto_backup_due(Some("weekly"), Some("2025-01-01T00:00:01Z"), now));
    assert!(is_auto_backup_due(Some("daily"), Some("2025-01-07T00:00:00Z"), now));
    assert!(!is_auto_backup_due(Some("monthly"), Some("2025-01-01T00:00:00Z"), now));
    assert!(is_auto_backup_due(Some("daily"), Some("garbage"), now));
    assert!(!is_auto_backup_due(Some("hourly"), Some("2020-01-01T00:00:00Z"), now));
}

#[test]
fn only_the_newest_five_auto_backups_stay() {
    let names: Vec<String> = (1..=7).rev().map(|i| format!("auto_2025010{}.phb", i)).chain(vec!["manual.phb".to_string()]).collect();
    let pruned = auto_backups_to_prune(&names);
    assert_eq!(pruned, vec!["auto_20250101.phb".to_string(), "auto_20250102.phb".to_string()]);
    assert!(auto_backups_to_prune(&vec!["auto_1.phb".to_string()]).is_empty());
}

#[test]
fn backup_listing_and_restore_plan() {
    let sorted = sort_backups(&vec![info("a", "2025-01-01"), info("b", "2025-03-01"), info("c", "2025-02-01")]);
    let paths: Vec<&str> = sorted.iter().map(|b| b.path.as_str()).collect();
    assert_eq!(paths, vec!["b", "c", "a"]);
    assert_eq!(restore_clear_order()[0], "collection_games");
    assert_eq!(restore_fill_order()[0], "games");
    assert_eq!(
        insert_statement("games", &vec!["id".to_string(), "title".to_string()]),
        "INSERT OR IGNORE INTO games (id, title) VALUES (?1, ?2)"
    );
    let names = vec!["settings.json".to_string(), "images/covers/g1.webp".to_string(), "images/".to_string()];
    assert_eq!(images_to_restore(&names), vec!["covers/g1.webp".to_string()]);
}

// ── Metadata ────────────────────────────────────────────────────────────────

#[test]
fn rawg_results_become_metadata() {
    let g = RawgGame {
        id: 7,
        name: "Hades".to_string(),
        released: Some("2020-09-17".to_string()),
        background_image: None,
        genres: Some(vec![RawgGenre { name: "Action".to_string() }, RawgGenre { name: "Roguelike".to_string() }]),
        platforms: Some(vec![RawgPlatformWrapper { platform: RawgPlatform { name: "PC".to_string() } }]),
        metacritic: Some(93),
    };
    let m = rawg_to_metadata(&g);
    assert_eq!(m.provider, "rawg");
    assert_eq!(m.api_id, 7);
    assert_eq!(m.release_year, Some(2020));
    assert_eq!(m.genres, "Action, Roguelike");
    let r = enrichment_from_fetch("g1".to_string(), Ok(vec![m]));
    assert_eq!(r.status, EnrichmentStatus::Success);
    let r = enrichment_from_fetch("g1".to_string(), Ok(Vec::new()));
    assert_eq!(r.status, EnrichmentStatus::NotFound);
    let r = enrichment_from_fetch("g1".to_string(), Err("down".to_string()));
    assert_eq!(r.status, EnrichmentStatus::Failed);
    assert_eq!(r.error, Some("down".to_string()));
}

#[test]
fn lookup_plans_and_progress() {
    assert_eq!(enrich_plan(false, true), LookupPlan::MissingKey);
    assert_eq!(enrich_plan(true, true), LookupPlan::UseCache);
    assert_eq!(search_plan(false, true), LookupPlan::UseCache);
    assert_eq!(search_plan(true, false), LookupPlan::Fetch);
    let p = queue_progress(7, 0, 0);
    assert_eq!(p.pending, 7);
    let mut p = p;
    let mut pauses = 0;
    for i in 0..7 {
        let (q, pause) = bulk_step(p, i % 3 != 0);
        if pause {
            pauses += 1;
        }
        p = q;
    }
    assert_eq!(pauses, 1);
    assert_eq!(bulk_summary(p), "Bulk enrichment complete: 7 processed, 3 failed (of 7)");
}

#[test]
fn image_download_report() {
    let r = image_download_result("g1".to_string(), Some(ImageStep::Stored("/c.jpg".to_string())), None);
    assert!(r.success);
    assert_eq!(r.cover_path, Some("/c.jpg".to_string()));
    let r = image_download_result(
        "g1".to_string(),
        Some(ImageStep::DownloadFailed("404".to_string())),
        Some(ImageStep::ProcessFailed("bad".to_string())),
    );
    assert!(!r.success);
    assert_eq!(r.error, Some("Cover download failed: 404; Background processing failed: bad".to_string()));
}

// ── Milestones ──────────────────────────────────────────────────────────────

#[test]
fn milestone_figures_and_ids() {
    assert_eq!(milestone_rate(6, false, 3), Fraction { num: 6, den: 3 });
    assert_eq!(milestone_rate(6, false, 0), Fraction { num: 0, den: 1 });
    assert_eq!(weekly_average(10, Some("2025-01-01T00:00:00Z"), Some("2025-01-15T00:00:00Z")), Fraction { num: 70, den: 14 });
    assert_eq!(weekly_average(10, Some("2025-01-01T00:00:00Z"), Some("2025-01-03T00:00:00Z")), Fraction { num: 10, den: 1 });
    assert_eq!(format_template_id(0x0123_4567_89ab_cdef), "01234567-89ab-4def-8123-000089abcdef");
    let id = default_template_id_of("completion", "First Completion");
    assert_eq!(id, default_template_id_of("completion", "First Completion"));
    assert_eq!(id.len(), 36);
    let list = default_template_list();
    assert!(!list.is_empty());
    assert_eq!(list[0].title, "First Completion");
    assert_eq!(list[0].id, default_template_id_of(list[0].category, list[0].title));
}

#[test]
fn milestone_timeline_and_checks() {
    let rows = vec![
        TimelineRow { date: "2025-01-02".to_string(), category: "boss".to_string(), count: 2 },
        TimelineRow { date: "2025-01-02".to_string(), category: "story".to_string(), count: 1 },
        TimelineRow { date: "2025-01-05".to_string(), category: "boss".to_string(), count: 4 },
    ];
    let t = build_timeline(&rows);
    assert_eq!(t.len(), 2);
    assert_eq!(t[0].date, "2025-01-05");
    assert_eq!(t[0].count, 4);
    assert_eq!(t[1].date, "2025-01-02");
    assert_eq!(t[1].count, 3);
    assert_eq!(t[1].category_breakdown.len(), 2);
    let m = journal_to_milestone("j1", None, String::new());
    assert_eq!(m.title, "Milestone");
    assert_eq!(m.description, None);
    assert_eq!(checked_title("  Boss  ", false), Ok("Boss".to_string()));
    assert!(checked_title("  ", true).is_err());
}

#[test]
fn journal_to_milestone_escapes_the_journal_id() {
    let m = journal_to_milestone("a\"b\\c\n\u{1}", Some("Boss".to_string()), "won".to_string());
    assert_eq!(m.metadata, "{\"migrated_from_journal\":true,\"original_journal_id\":\"a\\\"b\\\\c\\n\\u0001\"}");
    assert_eq!(m.title, "Boss");
    assert_eq!(m.description, Some("won".to_string()));
}

fn journal_report(body: String) -> ProfileReport {
    ProfileReport {
        generated_on: "2025-03-01".to_string(),
        total_games: 0,
        completed: 0,
        playing: 0,
        unplayed: 0,
        total_secs: 0,
        milestones: 0,
        top_games: Vec::new(),
        completed_games: Vec::new(),
        milestone_rows: Vec::new(),
        journal_rows: vec![JournalRow {
            title: None,
            body,
            entry_type: "note".to_string(),
            created_at: "2025-02-02T10:00:00Z".to_string(),
            game_title: None,
        }],
    }
}

#[test]
fn journal_preview_cuts_at_two_hundred_characters() {
    let short: String = "é".repeat(151);
    let md = render_profile_markdown(&journal_report(short.clone()));
    assert!(md.contains(&format!("(2025-02-02)  \n{}\n\n", short)));
    let long: String = "é".repeat(201);
    let md = render_profile_markdown(&journal_report(long));
    assert!(md.contains(&format!("(2025-02-02)  \n{}…\n\n", "é".repeat(200))));
}

#[test]
fn default_template_ids_match_str_hashing() {
    for (category, title) in [("completion", "First Completion"), ("mastery", "No Death Run"), ("social", "Zürich ✓")] {
        let seed = format!("{}:{}", category, title);
        let mut h = std::collections::hash_map::DefaultHasher::new();
        seed.hash(&mut h);
        let hash = h.finish();
        let expected = format!(
            "{:08x}-{:04x}-4{:03x}-{:04x}-{:012x}",
            (hash >> 32) as u32,
            ((hash >> 16) & 0xFFFF) as u16,
            (hash & 0x0FFF) as u16,
            (((hash >> 48) & 0x3FFF) | 0x8000) as u16,
            hash & 0x0000_FFFF_FFFF,
        );
        assert_eq!(default_template_id_of(category, title), expected);
    }
}
