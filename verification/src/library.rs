//! The game library, journal and diagnostics: the statements that filter
//! and update games, entry checks, and the health report's figures.

use vstd::prelude::*;
use crate::numfmt::{dec_nat, push_str, push_u64};
use crate::text::{eq_ignore_ascii_case, eq_ignore_ascii_case_spec, join, join_seq, text_eq, to_lowercase, trim, trim_seq, unicode_lowercase};

verus! {

/// The column list every game query selects.
pub const SELECT_GAME: &'static str = "SELECT id, title, exe_path, cover_path, banner_path, developer, publisher,
            genre, is_favorite, added_at, last_played, total_playtime_secs,
            launch_count, status
     FROM games";

/// The filtering clauses of the game list, in order: title search (always
/// parameter 1), status, genre (numbered after the ones before), favourites.
pub open spec fn game_filter_clauses(query: bool, status: bool, genre: bool, favorites: bool) -> Seq<char> {
    let n_status: nat = if query { 2 } else { 1 };
    let n_genre: nat = n_status + if status { 1nat } else { 0nat };
    (if query { " AND (LOWER(title) LIKE LOWER(?1))"@ } else { Seq::empty() }) + (if status {
        " AND status = ?"@ + dec_nat(n_status)
    } else {
        Seq::empty()
    }) + (if genre { " AND genre LIKE ?"@ + dec_nat(n_genre) } else { Seq::empty() }) + (if favorites {
        " AND is_favorite = 1"@
    } else {
        Seq::empty()
    })
}

/// The game list statement for the filters given, ordered by title.
pub fn game_list_query(query: bool, status: bool, genre: bool, favorites: bool) -> (q: String)
    ensures
        q@ == SELECT_GAME@ + " WHERE 1=1"@ + game_filter_clauses(query, status, genre, favorites) + " ORDER BY LOWER(title) ASC"@,
{
    let mut q = String::new();
    push_str(&mut q, SELECT_GAME);
    push_str(&mut q, " WHERE 1=1");
    let ghost base = q@;
    let mut n: u64 = 0;
    if query {
        push_str(&mut q, " AND (LOWER(title) LIKE LOWER(?1))");
        n = 1;
    }
    let ghost s1 = q@;
    if status {
        push_str(&mut q, " AND status = ?");
        push_u64(&mut q, n + 1);
        n = n + 1;
    }
    let ghost s2 = q@;
    if genre {
        push_str(&mut q, " AND genre LIKE ?");
        push_u64(&mut q, n + 1);
    }
    let ghost s3 = q@;
    if favorites {
        push_str(&mut q, " AND is_favorite = 1");
    }
    proof {
        reveal_strlit("");
        assert(q@ =~= base + game_filter_clauses(query, status, genre, favorites));
    }
    push_str(&mut q, " ORDER BY LOWER(title) ASC");
    q
}

/// `%text%`, the pattern of a substring search.
pub fn contains_pattern(text: &str) -> (p: String)
    ensures
        p@ == "%"@ + text@ + "%"@,
{
    let mut p = String::new();
    push_str(&mut p, "%");
    push_str(&mut p, text);
    push_str(&mut p, "%");
    p
}

/// `{field} = ?{n}` for each field given, numbered from 1.
pub open spec fn assignments(fields: Seq<Seq<char>>) -> Seq<Seq<char>> {
    Seq::new(fields.len(), |i: int| fields[i] + " = ?"@ + dec_nat((i + 1) as nat))
}

/// The statement that updates the fields given (parameters numbered in
/// order, the id last); none when no field is given.
pub fn update_statement(fields: &Vec<&str>) -> (s: Option<String>)
    requires
        fields@.len() + 1 < u64::MAX,
    ensures
        fields@.len() == 0 ==> s.is_none(),
        fields@.len() > 0 ==> s.is_some() && s.unwrap()@ == "UPDATE games SET "@ + join_seq(
            assignments(fields@.map_values(|f: &str| f@)),
            ", "@,
        ) + " WHERE id = ?"@ + dec_nat((fields@.len() + 1) as nat),
{
    if fields.len() == 0 {
        return None;
    }
    let ghost fv = fields@.map_values(|f: &str| f@);
    let mut sets: Vec<String> = Vec::new();
    let mut i: usize = 0;
    while i < fields.len()
        invariant
            i <= fields@.len(),
            fields@.len() + 1 < u64::MAX,
            fv == fields@.map_values(|f: &str| f@),
            sets@.len() == i,
            forall|j: int| 0 <= j < i ==> #[trigger] sets@[j]@ == fv[j] + " = ?"@ + dec_nat((j + 1) as nat),
        decreases fields@.len() - i,
    {
        let mut a = String::new();
        push_str(&mut a, fields[i]);
        push_str(&mut a, " = ?");
        push_u64(&mut a, (i + 1) as u64);
        sets.push(a);
        i = i + 1;
    }
    assert(sets@.map_values(|x: String| x@) =~= assignments(fv));
    let mut s = String::new();
    push_str(&mut s, "UPDATE games SET ");
    let body = join(&sets, ", ");
    push_str(&mut s, body.as_str());
    push_str(&mut s, " WHERE id = ?");
    push_u64(&mut s, fields.len() as u64 + 1);
    Some(s)
}

/// A new journal entry needs a body or a title (after trimming); its body
/// is stored trimmed.
pub fn journal_body(body: &str, title: Option<&str>) -> (r: Result<String, String>)
    ensures
        ({
            let t = match title {
                Some(t) => trim_seq(t@),
                None => Seq::<char>::empty(),
            };
            match r {
                Ok(b) => (trim_seq(body@).len() > 0 || t.len() > 0) && b@ == trim_seq(body@),
                Err(e) => trim_seq(body@).len() == 0 && t.len() == 0 && e@ == "Entry must have a body or title."@,
            }
        }),
{
    let b = trim(body);
    let title_empty = match title {
        Some(t) => trim(t).as_str().is_empty(),
        None => true,
    };
    if b.as_str().is_empty() && title_empty {
        Err("Entry must have a body or title.".to_string())
    } else {
        Ok(b)
    }
}

/// The editable fields of a collection.
pub struct CollectionFields {
    pub name: String,
    pub description: Option<String>,
    pub cover_path: Option<String>,
    pub cover_mode: String,
    pub cover_game_id: Option<String>,
}

/// A collection after an update: each field given replaces the stored one
/// (the name trimmed, also when kept), fields not given stay.
pub fn updated_collection(
    current: CollectionFields,
    name: Option<String>,
    description: Option<String>,
    cover_path: Option<String>,
    cover_mode: Option<String>,
    cover_game_id: Option<String>,
) -> (r: CollectionFields)
    ensures
        r.name@ == trim_seq(
            match name {
                Some(n) => n@,
                None => current.name@,
            },
        ),
        r.description == (if description.is_some() { description } else { current.description }),
        r.cover_path == (if cover_path.is_some() { cover_path } else { current.cover_path }),
        r.cover_mode == (match cover_mode {
            Some(m) => m,
            None => current.cover_mode,
        }),
        r.cover_game_id == (if cover_game_id.is_some() { cover_game_id } else { current.cover_game_id }),
{
    let new_name = match &name {
        Some(n) => trim(n.as_str()),
        None => trim(current.name.as_str()),
    };
    CollectionFields {
        name: new_name,
        description: if description.is_some() { description } else { current.description },
        cover_path: if cover_path.is_some() { cover_path } else { current.cover_path },
        cover_mode: match cover_mode {
            Some(m) => m,
            None => current.cover_mode,
        },
        cover_game_id: if cover_game_id.is_some() { cover_game_id } else { current.cover_game_id },
    }
}

/// A journal entry's title, body and type after an update: each one given
/// replaces the stored one.
pub fn updated_journal(
    current: (Option<String>, String, String),
    title: Option<String>,
    body: Option<String>,
    entry_type: Option<String>,
) -> (r: (Option<String>, String, String))
    ensures
        r.0 == (if title.is_some() { title } else { current.0 }),
        r.1 == (match body {
            Some(b) => b,
            None => current.1,
        }),
        r.2 == (match entry_type {
            Some(t) => t,
            None => current.2,
        }),
{
    let (t0, b0, e0) = current;
    (
        if title.is_some() { title } else { t0 },
        match body {
            Some(b) => b,
            None => b0,
        },
        match entry_type {
            Some(t) => t,
            None => e0,
        },
    )
}

/// Where the diagnostics report the database: in the recorded data
/// directory, or the default location when none is recorded.
pub fn reported_db_path(app_data_dir: Option<&str>) -> (p: String)
    ensures
        p@ == match app_data_dir {
            Some(d) => d@ + "\\pirate_harbor.db"@,
            None => "%APPDATA%\\com.pirateharbor.app\\pirate_harbor.db"@,
        },
{
    match app_data_dir {
        Some(d) => {
            let mut p = String::new();
            push_str(&mut p, d);
            push_str(&mut p, "\\pirate_harbor.db");
            p
        },
        None => "%APPDATA%\\com.pirateharbor.app\\pirate_harbor.db".to_string(),
    }
}

/// The database figures of the health report.
pub struct DbHealth {
    pub schema_version: i32,
    pub target_schema_version: i32,
    pub schema_up_to_date: bool,
    pub db_size_bytes: i64,
    pub wal_enabled: bool,
    pub foreign_keys_enabled: bool,
}

/// The database figures from the pragmas read.
pub fn db_health(schema_version: i32, page_count: i64, page_size: i64, journal_mode: &str, foreign_keys: i64) -> (h: DbHealth)
    requires
        i64::MIN <= page_count * page_size <= i64::MAX,
    ensures
        h.schema_version == schema_version,
        h.target_schema_version == crate::schema::CURRENT_SCHEMA_VERSION,
        h.schema_up_to_date == (schema_version == crate::schema::CURRENT_SCHEMA_VERSION),
        h.db_size_bytes == page_count * page_size,
        h.wal_enabled == (unicode_lowercase(journal_mode@) == "wal"@),
        h.foreign_keys_enabled == (foreign_keys == 1),
{
    let mode = to_lowercase(journal_mode);
    DbHealth {
        schema_version,
        target_schema_version: crate::schema::CURRENT_SCHEMA_VERSION,
        schema_up_to_date: schema_version == crate::schema::CURRENT_SCHEMA_VERSION,
        db_size_bytes: page_count * page_size,
        wal_enabled: text_eq(mode.as_str(), "wal"),
        foreign_keys_enabled: foreign_keys == 1,
    }
}

/// The integrity check passed: a single message reading `ok` (any case).
pub fn integrity_ok(messages: &Vec<String>) -> (ok: bool)
    ensures
        ok == (messages@.len() == 1 && eq_ignore_ascii_case_spec(messages@[0]@, "ok"@)),
{
    messages.len() == 1 && eq_ignore_ascii_case(messages[0].as_str(), "ok")
}

/// The outcome of `PRAGMA integrity_check`.
pub struct IntegrityResult {
    /// Whether the only line is `ok`.
    pub ok: bool,
    /// The lines the check returned.
    pub messages: Vec<String>,
}

/// The integrity report of the check's lines.
pub fn integrity_result(messages: Vec<String>) -> (r: IntegrityResult)
    ensures
        r.ok == (messages@.len() == 1 && eq_ignore_ascii_case_spec(messages@[0]@, "ok"@)),
        r.messages@ == messages@,
{
    let ok = integrity_ok(&messages);
    IntegrityResult { ok, messages }
}

/// The error for a lookup that found nothing (`kind` names what).
pub fn not_found_message(kind: &str, err: &str) -> (m: String)
    ensures
        m@ == kind@ + " not found: "@ + err@,
{
    let mut m = String::new();
    push_str(&mut m, kind);
    push_str(&mut m, " not found: ");
    push_str(&mut m, err);
    m
}

} // verus!
