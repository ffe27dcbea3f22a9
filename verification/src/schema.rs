//! Schema versioning: which migrations a database still needs, how a
//! version is stored, and the database file's place.

use vstd::prelude::*;
use crate::numfmt::{all_digits, dec_int, dec_nat, digit_char_of, digit_value, digits_value, fmt_i64, parse_i32, parse_i32_spec, parse_radix, push_str};
use crate::paths::{joined, path_join};

verus! {

/// The schema version the migrations bring a database to.
pub const CURRENT_SCHEMA_VERSION: i32 = 7;

/// The version a database of the old, unversioned layout is stamped with
/// when its milestones table is found.
pub const DETECTED_LEGACY_VERSION: i32 = 6;

/// The stored schema version: the setting read as an `i32`, 0 when it is
/// absent or not a number.
pub open spec fn stored_version(setting: Option<Seq<char>>) -> int {
    match setting {
        Some(s) => match parse_i32_spec(s) {
            Some(v) => v,
            None => 0,
        },
        None => 0,
    }
}

/// The text a schema version is stored as: its decimal form.
pub fn schema_version_text(version: i32) -> (s: String)
    ensures
        s@ == dec_int(version as int),
{
    fmt_i64(version as i64)
}

proof fn lemma_decimal_digits(n: nat)
    ensures
        all_digits(dec_nat(n), 10),
        digits_value(dec_nat(n), 10) == n,
        dec_nat(n).len() >= 1,
        '0' <= dec_nat(n)[0] <= '9',
    decreases n,
{
    let s = dec_nat(n);
    if n < 10 {
        assert(s.drop_last() =~= Seq::<char>::empty());
        assert(digit_value(digit_char_of(n), 10) == Some(n));
        assert(digits_value(Seq::<char>::empty(), 10) == 0);
        assert(s.last() == digit_char_of(n));
        assert(digits_value(s, 10) == digits_value(s.drop_last(), 10) * 10 + n);
    } else {
        lemma_decimal_digits(n / 10);
        let d = n % 10;
        assert(digit_value(digit_char_of(d), 10) == Some(d));
        assert(s.drop_last() =~= dec_nat(n / 10));
        assert(s[0] == dec_nat(n / 10)[0]);
        assert forall|i: int| 0 <= i < s.len() implies (#[trigger] digit_value(s[i], 10)) is Some by {
            if i < s.len() - 1 {
                assert(s[i] == dec_nat(n / 10)[i]);
            }
        }
        assert(n == (n / 10) * 10 + d);
        assert(s.last() == digit_char_of(d));
        assert(digits_value(s, 10) == digits_value(s.drop_last(), 10) * 10 + d);
    }
}

/// A schema version reads back as written: its decimal text is read as
/// that version.
pub proof fn lemma_version_roundtrip(version: i32)
    ensures
        stored_version(Some(dec_int(version as int))) == version,
{
    let v = version as int;
    if v < 0 {
        let m = (-v) as nat;
        lemma_decimal_digits(m);
        let s = dec_int(v);
        assert(s.drop_first() =~= dec_nat(m));
        assert(s.len() >= 2);
        assert(parse_radix(s, 10, true) == Some(-(m as int)));
    } else {
        lemma_decimal_digits(v as nat);
        let s = dec_int(v);
        assert(s[0] != '+' && s[0] != '-');
        assert(parse_radix(s, 10, true) == Some(v));
    }
}

/// Read the stored schema version.
pub fn schema_version_from_setting(setting: Option<&str>) -> (v: i32)
    ensures
        v == stored_version(match setting {
            Some(s) => Some(s@),
            None => None,
        }),
{
    match setting {
        Some(s) => match parse_i32(s) {
            Some(v) => v,
            None => 0,
        },
        None => 0,
    }
}

/// The version migrations start from: an unversioned database that already
/// has the milestones table counts as version 6.
pub open spec fn start_version(stored: int, has_milestones: bool) -> int {
    if stored == 0 && has_milestones { DETECTED_LEGACY_VERSION as int } else { stored }
}

/// Executable `start_version`.
pub fn starting_version(stored: i32, has_milestones: bool) -> (v: i32)
    ensures
        v == start_version(stored as int, has_milestones),
{
    if stored == 0 && has_milestones { DETECTED_LEGACY_VERSION } else { stored }
}

/// The migrations still to apply from version `current`, in order: every
/// version from 1 to 7 above it.
pub open spec fn pending(current: int) -> Seq<int> {
    Seq::new(7, |i: int| i + 1).filter(|v: int| v > current)
}

proof fn lemma_pending_shape(current: int)
    ensures
        forall|k: int| 0 <= k < pending(current).len() ==> #[trigger] pending(current)[k] == (if current < 0 { 0 } else { current }) + k + 1,
        pending(current).len() == if current >= 7 { 0 } else if current < 0 { 7 } else { 7 - current },
{
    reveal(Seq::filter);
    let all = Seq::new(7, |i: int| i + 1);
    let f = |v: int| v > current;
    assert forall|n: int| 0 <= n <= 7 implies #[trigger] all.take(n).filter(f) =~= Seq::new(
        if current >= n { 0 } else if current < 0 { n as nat } else { (n - current) as nat },
        |k: int| (if current < 0 { 0 } else { current }) + k + 1,
    ) by {
        lemma_prefix_filter(current, n);
    }
    assert(all.take(7) =~= all);
}

proof fn lemma_prefix_filter(current: int, n: int)
    requires
        0 <= n <= 7,
    ensures
        Seq::new(7, |i: int| i + 1).take(n).filter(|v: int| v > current) =~= Seq::new(
            if current >= n { 0 } else if current < 0 { n as nat } else { (n - current) as nat },
            |k: int| (if current < 0 { 0 } else { current }) + k + 1,
        ),
    decreases n,
{
    reveal(Seq::filter);
    let all = Seq::new(7, |i: int| i + 1);
    if n > 0 {
        lemma_prefix_filter(current, n - 1);
        assert(all.take(n).drop_last() =~= all.take(n - 1));
        assert(all.take(n).last() == n);
    }
}

/// The versions to migrate to from `current`.
pub fn pending_migrations(current: i32) -> (r: Vec<i32>)
    ensures
        r@.map_values(|v: i32| v as int) == pending(current as int),
{
    proof {
        lemma_pending_shape(current as int);
    }
    let mut r: Vec<i32> = Vec::new();
    let mut v: i32 = 1;
    while v <= CURRENT_SCHEMA_VERSION
        invariant
            1 <= v <= 8,
            r@.map_values(|x: i32| x as int) == pending(current as int).take(r@.len() as int),
            r@.len() == if current >= v - 1 { 0 } else if current < 0 { (v - 1) as nat } else { (v - 1 - current) as nat },
            forall|k: int| 0 <= k < pending(current as int).len() ==> #[trigger] pending(current as int)[k] == (if current < 0 { 0 } else { current as int }) + k + 1,
            pending(current as int).len() == if current >= 7 { 0 } else if current < 0 { 7 } else { 7 - current },
        decreases 8 - v,
    {
        if v > current {
            let ghost before = r@;
            r.push(v);
            proof {
                assert(r@.map_values(|x: i32| x as int) =~= before.map_values(|x: i32| x as int).push(v as int));
                assert(pending(current as int).take(r@.len() as int) =~= pending(current as int).take(before.len() as int).push(v as int));
            }
        }
        v = v + 1;
    }
    assert(pending(current as int).take(r@.len() as int) =~= pending(current as int));
    r
}

/// Migration 1: games, sessions and settings, with their indexes.
pub const MIGRATION_001: &'static str = r#"
CREATE TABLE IF NOT EXISTS games (
    id                  TEXT PRIMARY KEY,
    title               TEXT NOT NULL,
    exe_path            TEXT NOT NULL,
    cover_path          TEXT,
    banner_path         TEXT,
    developer           TEXT,
    publisher           TEXT,
    genre               TEXT,
    is_favorite         INTEGER NOT NULL DEFAULT 0,
    added_at            TEXT NOT NULL,
    last_played         TEXT,
    total_playtime_secs INTEGER NOT NULL DEFAULT 0,
    launch_count        INTEGER NOT NULL DEFAULT 0,
    status              TEXT NOT NULL DEFAULT 'unplayed'
);

CREATE TABLE IF NOT EXISTS sessions (
    id            TEXT PRIMARY KEY,
    game_id       TEXT NOT NULL REFERENCES games(id) ON DELETE CASCADE,
    started_at    TEXT NOT NULL,
    ended_at      TEXT,
    duration_secs INTEGER NOT NULL DEFAULT 0
);

CREATE TABLE IF NOT EXISTS settings (
    key   TEXT PRIMARY KEY,
    value TEXT NOT NULL
);

CREATE INDEX IF NOT EXISTS idx_sessions_game ON sessions(game_id);
CREATE INDEX IF NOT EXISTS idx_games_title ON games(title);
CREATE INDEX IF NOT EXISTS idx_games_status ON games(status);
CREATE INDEX IF NOT EXISTS idx_games_favorite ON games(is_favorite);
"#;

/// Migration 2: the RAWG search cache, keyed by lower-cased query.
pub const MIGRATION_002: &'static str = r#"
CREATE TABLE IF NOT EXISTS search_cache (
    query       TEXT PRIMARY KEY,
    results_json TEXT NOT NULL,
    cached_at   TEXT NOT NULL DEFAULT (datetime('now'))
);
"#;

/// Migration 3: collections and their games.
pub const MIGRATION_003: &'static str = r#"
CREATE TABLE IF NOT EXISTS collections (
    id            TEXT PRIMARY KEY,
    name          TEXT NOT NULL,
    description   TEXT,
    cover_path    TEXT,
    cover_mode    TEXT NOT NULL DEFAULT 'auto',
    cover_game_id TEXT REFERENCES games(id) ON DELETE SET NULL,
    created_at    TEXT NOT NULL,
    updated_at    TEXT NOT NULL
);

CREATE TABLE IF NOT EXISTS collection_games (
    collection_id TEXT NOT NULL REFERENCES collections(id) ON DELETE CASCADE,
    game_id       TEXT NOT NULL REFERENCES games(id) ON DELETE CASCADE,
    added_at      TEXT NOT NULL,
    PRIMARY KEY (collection_id, game_id)
);

CREATE INDEX IF NOT EXISTS idx_collection_games_coll ON collection_games(collection_id);
CREATE INDEX IF NOT EXISTS idx_collection_games_game ON collection_games(game_id);
"#;

/// Migration 4: journal entries.
pub const MIGRATION_004: &'static str = r#"
CREATE TABLE IF NOT EXISTS journal_entries (
    id          TEXT PRIMARY KEY,
    game_id     TEXT REFERENCES games(id) ON DELETE CASCADE,
    game_title  TEXT,
    title       TEXT,
    body        TEXT NOT NULL DEFAULT '',
    entry_type  TEXT NOT NULL DEFAULT 'note',
    created_at  TEXT NOT NULL,
    updated_at  TEXT NOT NULL
);

CREATE INDEX IF NOT EXISTS idx_journal_game    ON journal_entries(game_id);
CREATE INDEX IF NOT EXISTS idx_journal_created ON journal_entries(created_at DESC);
"#;

/// Migration 5: the metadata cache and the enrichment queue (the image
/// columns of `games` follow as separate statements).
pub const MIGRATION_005: &'static str = r#"
CREATE TABLE IF NOT EXISTS metadata_cache (
    id          TEXT PRIMARY KEY,
    game_title  TEXT NOT NULL,
    provider    TEXT NOT NULL,
    api_id      INTEGER,
    metadata    TEXT NOT NULL,
    cached_at   TEXT NOT NULL,
    expires_at  TEXT NOT NULL
);

CREATE TABLE IF NOT EXISTS metadata_enrichment_queue (
    id          TEXT PRIMARY KEY,
    game_id     TEXT NOT NULL REFERENCES games(id) ON DELETE CASCADE,
    priority    INTEGER NOT NULL DEFAULT 0,
    status      TEXT NOT NULL DEFAULT 'pending',
    created_at  TEXT NOT NULL,
    updated_at  TEXT NOT NULL
);

CREATE INDEX IF NOT EXISTS idx_metadata_cache_title ON metadata_cache(game_title);
CREATE INDEX IF NOT EXISTS idx_enrichment_queue_status ON metadata_enrichment_queue(status);
"#;

/// Migration 6: milestones and milestone templates.
pub const MIGRATION_006: &'static str = r#"
CREATE TABLE IF NOT EXISTS milestones (
    id              TEXT PRIMARY KEY,
    game_id         TEXT NOT NULL REFERENCES games(id) ON DELETE CASCADE,
    title           TEXT NOT NULL,
    description     TEXT,
    category        TEXT NOT NULL,
    difficulty      TEXT,
    achievement_date TEXT NOT NULL,
    points          INTEGER DEFAULT 0,
    metadata        TEXT,
    created_at      TEXT NOT NULL,
    updated_at      TEXT NOT NULL
);

CREATE TABLE IF NOT EXISTS milestone_templates (
    id          TEXT PRIMARY KEY,
    title       TEXT NOT NULL,
    description TEXT,
    category    TEXT NOT NULL,
    difficulty  TEXT,
    is_global   INTEGER NOT NULL DEFAULT 0,
    created_at  TEXT NOT NULL
);

CREATE INDEX IF NOT EXISTS idx_milestones_game ON milestones(game_id);
CREATE INDEX IF NOT EXISTS idx_milestones_category ON milestones(category);
CREATE INDEX IF NOT EXISTS idx_milestones_date ON milestones(achievement_date);
"#;

/// Migration 7: full-text search tables for games and journal entries, kept
/// in step by triggers.
pub const MIGRATION_007: &'static str = r#"
-- ── FTS5 virtual tables ───────────────────────────────────────────────────────────────
CREATE VIRTUAL TABLE IF NOT EXISTS games_fts USING fts5(
    title, developer, publisher, genre,
    content='games', content_rowid='rowid'
);

CREATE VIRTUAL TABLE IF NOT EXISTS journal_fts USING fts5(
    title, body,
    content='journal_entries', content_rowid='rowid'
);

-- ── games sync triggers ──────────────────────────────────────────────────────────────
CREATE TRIGGER IF NOT EXISTS games_ai
AFTER INSERT ON games BEGIN
    INSERT INTO games_fts(rowid, title, developer, publisher, genre)
    VALUES (new.rowid, new.title, new.developer, new.publisher,
            REPLACE(COALESCE(new.genre, ''), ',', ' '));
END;

CREATE TRIGGER IF NOT EXISTS games_ad
AFTER DELETE ON games BEGIN
    INSERT INTO games_fts(games_fts, rowid, title, developer, publisher, genre)
    VALUES ('delete', old.rowid, old.title, old.developer, old.publisher,
            REPLACE(COALESCE(old.genre, ''), ',', ' '));
END;

CREATE TRIGGER IF NOT EXISTS games_au
AFTER UPDATE ON games BEGIN
    INSERT INTO games_fts(games_fts, rowid, title, developer, publisher, genre)
    VALUES ('delete', old.rowid, old.title, old.developer, old.publisher,
            REPLACE(COALESCE(old.genre, ''), ',', ' '));
    INSERT INTO games_fts(rowid, title, developer, publisher, genre)
    VALUES (new.rowid, new.title, new.developer, new.publisher,
            REPLACE(COALESCE(new.genre, ''), ',', ' '));
END;

-- ── journal_entries sync triggers ─────────────────────────────────────────────────
CREATE TRIGGER IF NOT EXISTS journal_ai
AFTER INSERT ON journal_entries BEGIN
    INSERT INTO journal_fts(rowid, title, body)
    VALUES (new.rowid, new.title, new.body);
END;

CREATE TRIGGER IF NOT EXISTS journal_ad
AFTER DELETE ON journal_entries BEGIN
    INSERT INTO journal_fts(journal_fts, rowid, title, body)
    VALUES ('delete', old.rowid, old.title, old.body);
END;

CREATE TRIGGER IF NOT EXISTS journal_au
AFTER UPDATE ON journal_entries BEGIN
    INSERT INTO journal_fts(journal_fts, rowid, title, body)
    VALUES ('delete', old.rowid, old.title, old.body);
    INSERT INTO journal_fts(rowid, title, body)
    VALUES (new.rowid, new.title, new.body);
END;
"#;

/// The SQL of the migration that brings the schema to `version`, none for
/// versions without one.
pub open spec fn migration_text(version: int) -> Option<&'static str> {
    if version == 1 {
        Some(MIGRATION_001)
    } else if version == 2 {
        Some(MIGRATION_002)
    } else if version == 3 {
        Some(MIGRATION_003)
    } else if version == 4 {
        Some(MIGRATION_004)
    } else if version == 5 {
        Some(MIGRATION_005)
    } else if version == 6 {
        Some(MIGRATION_006)
    } else if version == 7 {
        Some(MIGRATION_007)
    } else {
        None
    }
}

/// The SQL of one migration.
pub fn migration_sql(version: i32) -> (s: Option<&'static str>)
    ensures
        s == migration_text(version as int),
{
    if version == 1 {
        Some(MIGRATION_001)
    } else if version == 2 {
        Some(MIGRATION_002)
    } else if version == 3 {
        Some(MIGRATION_003)
    } else if version == 4 {
        Some(MIGRATION_004)
    } else if version == 5 {
        Some(MIGRATION_005)
    } else if version == 6 {
        Some(MIGRATION_006)
    } else if version == 7 {
        Some(MIGRATION_007)
    } else {
        None
    }
}

/// Every pending migration has its SQL.
pub proof fn lemma_pending_have_sql(current: int)
    ensures
        forall|k: int| 0 <= k < pending(current).len() ==> (#[trigger] migration_text(pending(current)[k])).is_some(),
{
    lemma_pending_shape(current);
}

/// Reads the stored schema version.
pub const SELECT_SCHEMA_VERSION: &'static str = "SELECT value FROM settings WHERE key = 'schema_version'";

/// Stores the schema version (`?1` is its text).
pub const UPSERT_SCHEMA_VERSION: &'static str = "INSERT INTO settings (key, value) VALUES ('schema_version', ?1)
         ON CONFLICT(key) DO UPDATE SET value = excluded.value";

/// Counts the milestones table (1 when the old layout is present).
pub const COUNT_MILESTONES_TABLE: &'static str = "SELECT COUNT(*) FROM sqlite_master WHERE type='table' AND name='milestones'";

/// The version a database holds after all pending migrations ran.
pub open spec fn after_migrations(current: int) -> int {
    if current >= CURRENT_SCHEMA_VERSION { current } else { CURRENT_SCHEMA_VERSION as int }
}

/// Migrating is idempotent: after the pending migrations of any version
/// have run, none is pending, and running the procedure again changes
/// nothing.
pub proof fn lemma_migrations_idempotent(current: int)
    ensures
        pending(after_migrations(current)).len() == 0,
        after_migrations(after_migrations(current)) == after_migrations(current),
        pending(current).len() > 0 ==> pending(current).last() == after_migrations(current),
{
    lemma_pending_shape(current);
    lemma_pending_shape(after_migrations(current));
}

/// The extra columns migration 5 adds to `games`, one statement each.
pub fn migration5_alters() -> (r: Vec<String>)
    ensures
        r@.len() == 3,
        r@[0]@ == "ALTER TABLE games ADD COLUMN cover_path_local TEXT"@,
        r@[1]@ == "ALTER TABLE games ADD COLUMN background_path_local TEXT"@,
        r@[2]@ == "ALTER TABLE games ADD COLUMN images_enriched_at TEXT"@,
{
    let mut r: Vec<String> = Vec::new();
    r.push(alter_statement("games", "cover_path_local", "TEXT"));
    r.push(alter_statement("games", "background_path_local", "TEXT"));
    r.push(alter_statement("games", "images_enriched_at", "TEXT"));
    proof {
        reveal_strlit("ALTER TABLE games ADD COLUMN cover_path_local TEXT");
        reveal_strlit("ALTER TABLE games ADD COLUMN background_path_local TEXT");
        reveal_strlit("ALTER TABLE games ADD COLUMN images_enriched_at TEXT");
        reveal_strlit("ALTER TABLE ");
        reveal_strlit(" ADD COLUMN ");
        reveal_strlit(" ");
        reveal_strlit("games");
        reveal_strlit("cover_path_local");
        reveal_strlit("background_path_local");
        reveal_strlit("images_enriched_at");
        reveal_strlit("TEXT");
        assert(r@[0]@ =~= "ALTER TABLE games ADD COLUMN cover_path_local TEXT"@);
        assert(r@[1]@ =~= "ALTER TABLE games ADD COLUMN background_path_local TEXT"@);
        assert(r@[2]@ =~= "ALTER TABLE games ADD COLUMN images_enriched_at TEXT"@);
    }
    r
}

/// `ALTER TABLE {table} ADD COLUMN {column} {ty}`.
pub fn alter_statement(table: &str, column: &str, ty: &str) -> (s: String)
    ensures
        s@ == "ALTER TABLE "@ + table@ + " ADD COLUMN "@ + column@ + " "@ + ty@,
{
    let mut s = String::new();
    push_str(&mut s, "ALTER TABLE ");
    push_str(&mut s, table);
    push_str(&mut s, " ADD COLUMN ");
    push_str(&mut s, column);
    push_str(&mut s, " ");
    push_str(&mut s, ty);
    s
}

/// The database file inside the application data directory.
pub fn database_path(app_data_dir: &str) -> (p: String)
    ensures
        joined(app_data_dir@, "pirate_harbor.db"@, p@),
{
    path_join(app_data_dir, "pirate_harbor.db")
}

/// Whether auto-backups are scheduled at startup: unless the setting reads
/// exactly `false`.
pub fn auto_backup_enabled(setting: Option<&str>) -> (b: bool)
    ensures
        b == match setting {
            Some(s) => s@ != "false"@,
            None => true,
        },
{
    match setting {
        Some(s) => !crate::text::text_eq(s, "false"),
        None => true,
    }
}

} // verus!
