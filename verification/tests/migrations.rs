use pirate_harbor::schema::{
    migration5_alters, migration_sql, pending_migrations, schema_version_from_setting, schema_version_text,
    starting_version,
    COUNT_MILESTONES_TABLE, CURRENT_SCHEMA_VERSION, SELECT_SCHEMA_VERSION, UPSERT_SCHEMA_VERSION,
};
use pirate_harbor::milestones::statistics_queries;
use pirate_harbor::sqldate::sqlite_month_exec;
use rusqlite::Connection;

fn get_schema_version(conn: &Connection) -> i32 {
    let stored: Option<String> = conn.query_row(SELECT_SCHEMA_VERSION, [], |row| row.get::<_, String>(0)).ok();
    schema_version_from_setting(stored.as_deref())
}

fn set_schema_version(conn: &Connection, version: i32) -> Result<(), rusqlite::Error> {
    conn.execute(UPSERT_SCHEMA_VERSION, [schema_version_text(version)])?;
    Ok(())
}

fn run_migrations(conn: &Connection) -> Result<(), rusqlite::Error> {
    let mut current = get_schema_version(conn);
    if current == 0 {
        let has_milestones = conn.query_row(COUNT_MILESTONES_TABLE, [], |row| row.get::<_, i64>(0)).unwrap_or(0) > 0;
        let start = starting_version(current, has_milestones);
        if start != current {
            set_schema_version(conn, start)?;
        }
        current = get_schema_version(conn);
    }
    for version in pending_migrations(current) {
        conn.execute_batch(migration_sql(version).unwrap())?;
        if version == 5 {
            for sql in migration5_alters() {
                let _ = conn.execute_batch(&sql);
            }
        }
        set_schema_version(conn, version)?;
    }
    Ok(())
}

#[test]
fn test_migrations_apply_cleanly() {
    let conn = Connection::open_in_memory().unwrap();
    run_migrations(&conn).unwrap();

    let tables: Vec<String> = conn
        .prepare("SELECT name FROM sqlite_master WHERE type='table' ORDER BY name")
        .unwrap()
        .query_map([], |row| row.get(0))
        .unwrap()
        .filter_map(|r| r.ok())
        .collect();

    assert!(tables.contains(&"games".to_string()));
    assert!(tables.contains(&"sessions".to_string()));
    assert!(tables.contains(&"settings".to_string()));
    assert!(tables.contains(&"search_cache".to_string()));
    assert!(tables.contains(&"metadata_cache".to_string()));
    assert!(tables.contains(&"collections".to_string()));
    assert!(tables.contains(&"collection_games".to_string()));
    assert!(tables.contains(&"journal_entries".to_string()));
    assert!(tables.contains(&"milestones".to_string()));
    assert!(tables.contains(&"milestone_templates".to_string()));
    assert!(tables.contains(&"games_fts".to_string()), "games_fts virtual table missing");
    assert!(tables.contains(&"journal_fts".to_string()), "journal_fts virtual table missing");
}

#[test]
fn test_fresh_db_reaches_current_version() {
    let conn = Connection::open_in_memory().unwrap();
    run_migrations(&conn).unwrap();
    let version = get_schema_version(&conn);
    assert_eq!(version, CURRENT_SCHEMA_VERSION, "Fresh DB should reach schema version {}", CURRENT_SCHEMA_VERSION);
}

#[test]
fn test_migrations_are_idempotent() {
    let conn = Connection::open_in_memory().unwrap();
    run_migrations(&conn).unwrap();
    run_migrations(&conn).unwrap();
    assert_eq!(get_schema_version(&conn), CURRENT_SCHEMA_VERSION);
}

#[test]
fn test_fts_search_works() {
    let conn = Connection::open_in_memory().unwrap();
    run_migrations(&conn).unwrap();
    conn.execute_batch("PRAGMA journal_mode=WAL; PRAGMA foreign_keys=ON;").unwrap();

    conn.execute(
        "INSERT INTO games (id, title, exe_path, is_favorite, added_at, total_playtime_secs, launch_count, status)
         VALUES ('g1', 'The Witcher 3', '/path/witcher.exe', 0, '2024-01-01T00:00:00Z', 0, 0, 'unplayed')",
        [],
    )
    .unwrap();

    let count: i64 = conn
        .query_row("SELECT COUNT(*) FROM games_fts WHERE games_fts MATCH 'Witcher*'", [], |row| row.get(0))
        .expect("FTS5 MATCH query failed");
    assert_eq!(count, 1, "Should find 1 game matching 'Witcher*'");

    conn.execute("UPDATE games SET developer = 'CD Projekt Red' WHERE id = 'g1'", []).unwrap();
    let dev_count: i64 = conn
        .query_row("SELECT COUNT(*) FROM games_fts WHERE games_fts MATCH 'Projekt*'", [], |row| row.get(0))
        .expect("FTS5 developer MATCH failed");
    assert_eq!(dev_count, 1, "Should find 1 game matching developer 'Projekt*'");

    conn.execute("DELETE FROM games WHERE id = 'g1'", []).unwrap();
    let after_delete: i64 = conn
        .query_row("SELECT COUNT(*) FROM games_fts WHERE games_fts MATCH 'Witcher*'", [], |row| row.get(0))
        .expect("FTS5 MATCH after delete failed");
    assert_eq!(after_delete, 0, "Deleted game should not appear in FTS");
}

#[test]
fn test_journal_fts_search_works() {
    let conn = Connection::open_in_memory().unwrap();
    run_migrations(&conn).unwrap();

    conn.execute(
        "INSERT INTO journal_entries (id, title, body, entry_type, created_at, updated_at)
         VALUES ('j1', 'Epic Victory', 'I defeated the final boss in Elden Ring!', 'note', '2024-01-01T00:00:00Z', '2024-01-01T00:00:00Z')",
        [],
    )
    .unwrap();

    let count: i64 = conn
        .query_row("SELECT COUNT(*) FROM journal_fts WHERE journal_fts MATCH 'Victory*'", [], |row| row.get(0))
        .expect("Journal FTS MATCH failed");
    assert_eq!(count, 1, "Should find 1 entry matching 'Victory*'");

    let body_count: i64 = conn
        .query_row("SELECT COUNT(*) FROM journal_fts WHERE journal_fts MATCH 'Elden*'", [], |row| row.get(0))
        .expect("Journal body FTS MATCH failed");
    assert_eq!(body_count, 1, "Should find 1 entry matching body 'Elden*'");
}

#[test]
fn test_existing_db_auto_detected_as_v6() {
    let conn = Connection::open_in_memory().unwrap();
    for version in 1..=CURRENT_SCHEMA_VERSION {
        conn.execute_batch(migration_sql(version).unwrap()).unwrap();
    }
    for sql in migration5_alters() {
        let _ = conn.execute_batch(&sql);
    }
    assert_eq!(get_schema_version(&conn), 0);
    run_migrations(&conn).unwrap();
    assert_eq!(get_schema_version(&conn), CURRENT_SCHEMA_VERSION);
}

#[test]
fn test_set_and_get_schema_version() {
    let conn = Connection::open_in_memory().unwrap();
    conn.execute_batch("CREATE TABLE settings (key TEXT PRIMARY KEY, value TEXT NOT NULL);").unwrap();
    set_schema_version(&conn, 3).unwrap();
    assert_eq!(get_schema_version(&conn), 3);
    set_schema_version(&conn, 5).unwrap();
    assert_eq!(get_schema_version(&conn), 5);
}

#[test]
fn migrations_test_foreign_keys_enabled() {
    let conn = Connection::open_in_memory().unwrap();
    run_migrations(&conn).unwrap();
    let count: i64 = conn
        .query_row("SELECT COUNT(*) FROM sqlite_master WHERE type='table' AND name='sessions'", [], |row| row.get(0))
        .unwrap();
    assert_eq!(count, 1);
}

#[test]
fn every_version_has_its_sql() {
    for v in 1..=CURRENT_SCHEMA_VERSION {
        assert!(migration_sql(v).is_some());
    }
    assert!(migration_sql(0).is_none());
    assert!(migration_sql(CURRENT_SCHEMA_VERSION + 1).is_none());
}

#[test]
fn milestone_statistics_queries_run_for_all_games_and_one_game() {
    let conn = Connection::open_in_memory().unwrap();
    run_migrations(&conn).unwrap();
    let (all_count, all_cat, all_diff) = statistics_queries(false);
    assert_eq!(all_diff, "SELECT difficulty, COUNT(*) as count FROM milestones WHERE difficulty IS NOT NULL GROUP BY difficulty");
    let total: i64 = conn.query_row(&all_count, [], |r| r.get(0)).unwrap();
    assert_eq!(total, 0);
    conn.prepare(&all_cat).unwrap();
    conn.prepare(&all_diff).unwrap();
    let (one_count, one_cat, one_diff) = statistics_queries(true);
    let total: i64 = conn.query_row(&one_count, ["g1"], |r| r.get(0)).unwrap();
    assert_eq!(total, 0);
    conn.prepare(&one_cat).unwrap();
    conn.prepare(&one_diff).unwrap();
}

#[test]
fn schema_version_text_reads_back() {
    for v in [0, 7, -3, i32::MAX, i32::MIN] {
        assert_eq!(schema_version_text(v), v.to_string());
        assert_eq!(schema_version_from_setting(Some(&schema_version_text(v))), v);
    }
}

#[test]
fn month_reading_matches_sqlite_strftime() {
    let conn = Connection::open_in_memory().unwrap();
    let texts = [
        "2025-03-15",
        "2025-03-15 10:00:00",
        "2025-03-15T10:00:00.123456+00:00",
        "2025-03-15junk",
        "2025-02-30 10:00:00",
        "2024-02-29",
        "2023-02-29",
        "2025-04-31",
        "2025-01-31 24:00",
        "2025-01-28 24:00",
        "2025-01-31T23:30:00-02:00",
        "2025-02-01T00:30:00+01:00",
        "2025-02-01T00:30:00Z",
        "2025-12-31T23:59:59.9996",
        "2025-03-15 10:00:00 +01:00 ",
        "2025-03-15  T 10:00",
        "2025-13-01",
        "2025-00-10",
        "2025-3-15",
        "12:30",
        "00:30+01:00",
        "-0001-06-01",
        "-4713-11-24 12:00",
        "-4714-01-01",
        "",
        "2025-03-15 25:00",
    ];
    for t in texts {
        let expected: Option<i64> =
            conn.query_row("SELECT CAST(strftime('%m', ?1) AS INTEGER)", [t], |r| r.get(0)).unwrap();
        assert_eq!(sqlite_month_exec(t), expected, "text {:?}", t);
    }
}
