//! Local backups (`.phb` archives): their layout, the auto-backup schedule
//! and retention, listing order, and the statements a restore runs.

use vstd::prelude::*;
use crate::paths::{joined, path_join};
use crate::images::{extension_of, path_extension};
use crate::dates::{hours_between, instant_of, rfc3339_instant, whole_hours};
use crate::numfmt::{dec_int, dec_nat, push_i64, push_str, push_u64};
use crate::order::{sort_by_text, stable_by_text};
use crate::text::{ends_with, join, join_seq, starts_with, text_eq};

verus! {

/// Auto-backups kept after pruning.
pub const MAX_AUTO_BACKUPS: usize = 5;

/// Version of the archive layout written into each manifest.
pub const BACKUP_SCHEMA_VERSION: u32 = 1;

/// The default backup directory: `backups` under the application data
/// directory.
pub fn default_backup_dir(app_data_dir: &str) -> (d: String)
    ensures
        joined(app_data_dir@, "backups"@, d@),
{
    path_join(app_data_dir, "backups")
}

/// The manifest stored in every archive.
pub struct BackupManifest {
    pub schema_version: u32,
    pub created_at: String,
    pub app_version: String,
    pub game_count: i64,
    pub is_auto: bool,
}

/// A new manifest (schema version 1).
pub fn new_manifest(created_at: String, app_version: String, game_count: i64, is_auto: bool) -> (m: BackupManifest)
    ensures
        m.schema_version == BACKUP_SCHEMA_VERSION,
        m.created_at == created_at,
        m.app_version == app_version,
        m.game_count == game_count,
        m.is_auto == is_auto,
{
    BackupManifest { schema_version: BACKUP_SCHEMA_VERSION, created_at, app_version, game_count, is_auto }
}

/// Whether a requested backup path carries the `.phb` extension.
pub fn check_backup_path(path: &str) -> (r: Result<(), String>)
    ensures
        path_extension(path@) == Some("phb"@) <==> r.is_ok(),
        r.is_err() ==> r.unwrap_err()@ == "Backup file must have .phb extension"@,
{
    match extension_of(path) {
        Some(e) => {
            if text_eq(e.as_str(), "phb") {
                return Ok(());
            }
        },
        None => {},
    }
    Err("Backup file must have .phb extension".to_string())
}

/// The interval setting in force: the stored one, `weekly` when unset.
pub open spec fn interval_in_force(interval: Option<Seq<char>>) -> Seq<char> {
    match interval {
        Some(i) => i,
        None => "weekly"@,
    }
}

/// Whether an auto-backup is due at instant `now`: never with interval
/// `never`; always when no earlier auto-backup is recorded or its time
/// cannot be read; otherwise after 24 hours (`daily`), 7 days (`weekly`) or
/// 30 days (`monthly`), and never for an unknown interval.
pub open spec fn backup_due(interval: Option<Seq<char>>, last: Option<Seq<char>>, now: (int, int)) -> bool {
    let iv = interval_in_force(interval);
    if iv == "never"@ {
        false
    } else {
        match last {
            None => true,
            Some(l) => match rfc3339_instant(l) {
                None => true,
                Some(t) => {
                    let h = whole_hours(t, now);
                    if iv == "daily"@ {
                        h >= 24
                    } else if iv == "weekly"@ {
                        h >= 24 * 7
                    } else if iv == "monthly"@ {
                        h >= 24 * 30
                    } else {
                        false
                    }
                },
            },
        }
    }
}

/// `is_auto_backup_due`, from the two settings and the current instant
/// (Unix seconds and nanoseconds).
pub fn is_auto_backup_due(interval: Option<&str>, last: Option<&str>, now: (i64, u32)) -> (due: bool)
    ensures
        due == backup_due(
            match interval {
                Some(i) => Some(i@),
                None => None,
            },
            match last {
                Some(l) => Some(l@),
                None => None,
            },
            (now.0 as int, now.1 as int),
        ),
{
    let iv: &str = match interval {
        Some(i) => i,
        None => "weekly",
    };
    if text_eq(iv, "never") {
        return false;
    }
    let l = match last {
        None => return true,
        Some(l) => l,
    };
    let t = match instant_of(l) {
        None => return true,
        Some(t) => t,
    };
    let h = hours_between(t, now);
    if text_eq(iv, "daily") {
        h >= 24
    } else if text_eq(iv, "weekly") {
        h >= 24 * 7
    } else if text_eq(iv, "monthly") {
        h >= 24 * 30
    } else {
        false
    }
}

/// An auto-backup file name: `auto_…​.phb`.
pub open spec fn is_auto_backup_name(name: Seq<char>) -> bool {
    "auto_"@.len() <= name.len() && name.take(5) == "auto_"@ && ".phb"@.len() <= name.len() && name.skip(name.len() - 4)
        == ".phb"@
}

/// The auto-backup names among `names`, in order.
pub open spec fn auto_names(names: Seq<Seq<char>>) -> Seq<Seq<char>> {
    names.filter(|n: Seq<char>| is_auto_backup_name(n))
}

/// Which auto-backups pruning deletes from a directory holding `names`:
/// the auto-backups sorted by name, all but the last five.
pub fn auto_backups_to_prune(names: &Vec<String>) -> (r: Vec<String>)
    ensures
        ({
            let autos = auto_names(names@.map_values(|n: String| n@));
            exists|order: Seq<usize>| #[trigger] stable_by_text(autos, order, false) && r@.map_values(|n: String| n@)
                == (if autos.len() > MAX_AUTO_BACKUPS {
                    order.take(autos.len() - MAX_AUTO_BACKUPS).map_values(|k: usize| autos[k as int])
                } else {
                    Seq::empty()
                })
        }),
{
    let ghost nv = names@.map_values(|n: String| n@);
    let ghost f = |n: Seq<char>| is_auto_backup_name(n);
    let mut autos: Vec<String> = Vec::new();
    let mut i: usize = 0;
    proof {
        reveal_strlit("auto_");
        reveal_strlit(".phb");
    }
    while i < names.len()
        invariant
            i <= names@.len(),
            nv == names@.map_values(|n: String| n@),
            f == (|n: Seq<char>| is_auto_backup_name(n)),
            autos@.map_values(|n: String| n@) == nv.take(i as int).filter(f),
            "auto_"@.len() == 5,
            ".phb"@.len() == 4,
        decreases names@.len() - i,
    {
        let n = names[i].as_str();
        proof {
            reveal(Seq::filter);
            assert(nv.take(i as int + 1).drop_last() =~= nv.take(i as int));
            assert(nv.take(i as int + 1).last() == n@);
        }
        let ghost before = autos@;
        if starts_with(n, "auto_") && ends_with(n, ".phb") {
            autos.push(names[i].clone());
            proof {
                assert(autos@.map_values(|n: String| n@) =~= before.map_values(|n: String| n@).push(nv[i as int]));
            }
        }
        i = i + 1;
    }
    proof {
        assert(nv.take(names@.len() as int) =~= nv);
    }
    let ghost av = autos@.map_values(|n: String| n@);
    let order = sort_by_text(&autos, false);
    let mut r: Vec<String> = Vec::new();
    if autos.len() > MAX_AUTO_BACKUPS {
        let cut = autos.len() - MAX_AUTO_BACKUPS;
        let mut k: usize = 0;
        while k < cut
            invariant
                cut <= order@.len(),
                order@.len() == autos@.len(),
                av == autos@.map_values(|n: String| n@),
                forall|j: int| 0 <= j < order@.len() ==> #[trigger] order@[j] < autos@.len(),
                k <= cut,
                r@.map_values(|n: String| n@) == order@.take(k as int).map_values(|q: usize| av[q as int]),
            decreases cut - k,
        {
            let q = order[k];
            let ghost before = r@;
            r.push(autos[q].clone());
            proof {
                assert(order@.take(k as int + 1) =~= order@.take(k as int).push(q));
                assert(r@.map_values(|n: String| n@) =~= before.map_values(|n: String| n@).push(av[q as int]));
                assert(order@.take(k as int + 1).map_values(|q: usize| av[q as int]) =~= order@.take(k as int).map_values(|q: usize| av[q as int]).push(av[q as int]));
            }
            k = k + 1;
        }
    }
    proof {
        let autos_spec = auto_names(nv);
        assert(av == autos_spec);
        assert(stable_by_text(autos_spec, order@, false));
        if autos@.len() <= MAX_AUTO_BACKUPS {
            assert(r@.map_values(|n: String| n@) =~= Seq::<Seq<char>>::empty());
        } else {
            let cut = autos@.len() - MAX_AUTO_BACKUPS;
            assert(r@.map_values(|n: String| n@) =~= order@.take(cut).map_values(|k: usize| autos_spec[k as int]));
        }
    }
    r
}

/// One archive found in the backup directory.
pub struct BackupInfo {
    pub path: String,
    pub created_at: String,
    pub size_bytes: u64,
    pub game_count: i64,
    pub is_auto: bool,
}

impl BackupInfo {
    /// A field-by-field copy.
    pub fn duplicate(&self) -> (r: Self)
        ensures
            r == *self,
    {
        BackupInfo {
            path: self.path.clone(),
            created_at: self.created_at.clone(),
            size_bytes: self.size_bytes,
            game_count: self.game_count,
            is_auto: self.is_auto,
        }
    }
}

/// Whether a file in the backup directory is listed (extension `phb`), and
/// whether it is an auto-backup (name starting with `auto_`).
pub fn classify_backup_file(path: &str, file_name: &str) -> (r: (bool, bool))
    ensures
        r.0 == (path_extension(path@) == Some("phb"@)),
        r.1 == ("auto_"@.len() <= file_name@.len() && file_name@.take("auto_"@.len() as int) == "auto_"@),
{
    let listed = match extension_of(path) {
        Some(e) => text_eq(e.as_str(), "phb"),
        None => false,
    };
    (listed, starts_with(file_name, "auto_"))
}

/// The creation times of listed archives.
pub open spec fn created_keys(infos: Seq<BackupInfo>) -> Seq<Seq<char>> {
    infos.map_values(|b: BackupInfo| b.created_at@)
}

/// Archives newest first by recorded creation time (equal times keep their
/// order).
pub fn sort_backups(infos: &Vec<BackupInfo>) -> (r: Vec<BackupInfo>)
    ensures
        exists|order: Seq<usize>| #[trigger] stable_by_text(created_keys(infos@), order, true)
            && r@ == order.map_values(|k: usize| infos@[k as int]),
{
    let mut keys: Vec<String> = Vec::new();
    let mut i: usize = 0;
    while i < infos.len()
        invariant
            i <= infos@.len(),
            keys@.len() == i,
            forall|j: int| 0 <= j < i ==> #[trigger] keys@[j]@ == infos@[j].created_at@,
        decreases infos@.len() - i,
    {
        keys.push(infos[i].created_at.clone());
        i = i + 1;
    }
    assert(keys@.map_values(|k: String| k@) =~= created_keys(infos@));
    let order = sort_by_text(&keys, true);
    let mut r: Vec<BackupInfo> = Vec::new();
    let mut k: usize = 0;
    while k < order.len()
        invariant
            k <= order@.len(),
            order@.len() == infos@.len(),
            forall|j: int| 0 <= j < order@.len() ==> #[trigger] order@[j] < infos@.len(),
            r@ == order@.take(k as int).map_values(|q: usize| infos@[q as int]),
        decreases order@.len() - k,
    {
        r.push(infos[order[k]].duplicate());
        proof {
            assert(order@.take(k as int + 1) =~= order@.take(k as int).push(order@[k as int]));
            assert(order@.take(k as int + 1).map_values(|q: usize| infos@[q as int]) =~= order@.take(k as int).map_values(|q: usize| infos@[q as int]).push(infos@[order@[k as int] as int]));
        }
        k = k + 1;
    }
    assert(order@.take(order@.len() as int) =~= order@);
    assert(stable_by_text(created_keys(infos@), order@, true));
    r
}

/// The tables a backup stores, in order, with the query that reads each.
pub fn backup_tables() -> (t: Vec<(&'static str, &'static str)>)
    ensures
        t@.len() == 6,
        t@[0].0@ == "games"@ && t@[0].1@ == "SELECT * FROM games"@,
        t@[1].0@ == "sessions"@ && t@[1].1@ == "SELECT * FROM sessions"@,
        t@[2].0@ == "collections"@ && t@[2].1@ == "SELECT * FROM collections"@,
        t@[3].0@ == "collection_games"@ && t@[3].1@ == "SELECT * FROM collection_games"@,
        t@[4].0@ == "milestones"@ && t@[4].1@ == "SELECT * FROM milestones"@,
        t@[5].0@ == "journal_entries"@ && t@[5].1@ == "SELECT * FROM journal_entries"@,
{
    let mut t: Vec<(&'static str, &'static str)> = Vec::new();
    t.push(("games", "SELECT * FROM games"));
    t.push(("sessions", "SELECT * FROM sessions"));
    t.push(("collections", "SELECT * FROM collections"));
    t.push(("collection_games", "SELECT * FROM collection_games"));
    t.push(("milestones", "SELECT * FROM milestones"));
    t.push(("journal_entries", "SELECT * FROM journal_entries"));
    t
}

/// The order in which a restore empties tables (children before parents).
pub fn restore_clear_order() -> (t: Vec<&'static str>)
    ensures
        t@.len() == 6,
        t@[0]@ == "collection_games"@,
        t@[1]@ == "journal_entries"@,
        t@[2]@ == "milestones"@,
        t@[3]@ == "sessions"@,
        t@[4]@ == "collections"@,
        t@[5]@ == "games"@,
{
    let mut t: Vec<&'static str> = Vec::new();
    t.push("collection_games");
    t.push("journal_entries");
    t.push("milestones");
    t.push("sessions");
    t.push("collections");
    t.push("games");
    t
}

/// The order in which a restore refills tables (parents before children).
pub fn restore_fill_order() -> (t: Vec<&'static str>)
    ensures
        t@.len() == 6,
        t@[0]@ == "games"@,
        t@[1]@ == "sessions"@,
        t@[2]@ == "collections"@,
        t@[3]@ == "collection_games"@,
        t@[4]@ == "milestones"@,
        t@[5]@ == "journal_entries"@,
{
    let mut t: Vec<&'static str> = Vec::new();
    t.push("games");
    t.push("sessions");
    t.push("collections");
    t.push("collection_games");
    t.push("milestones");
    t.push("journal_entries");
    t
}

/// `?1, ?2, …, ?n`.
pub open spec fn placeholders(n: nat) -> Seq<char> {
    join_seq(Seq::new(n, |i: int| "?"@ + dec_nat((i + 1) as nat)), ", "@)
}

/// The statement that restores one row: `INSERT OR IGNORE INTO t (c1, …)
/// VALUES (?1, …)`.
pub fn insert_statement(table: &str, columns: &Vec<String>) -> (sql: String)
    requires
        columns@.len() < u64::MAX,
    ensures
        sql@ == "INSERT OR IGNORE INTO "@ + table@ + " ("@ + join_seq(columns@.map_values(|c: String| c@), ", "@)
            + ") VALUES ("@ + placeholders(columns@.len()) + ")"@,
{
    let mut ph: Vec<String> = Vec::new();
    let mut i: usize = 0;
    while i < columns.len()
        invariant
            i <= columns@.len(),
            columns@.len() < u64::MAX,
            ph@.len() == i,
            forall|j: int| 0 <= j < i ==> #[trigger] ph@[j]@ == "?"@ + dec_nat((j + 1) as nat),
        decreases columns@.len() - i,
    {
        let mut p = String::new();
        push_str(&mut p, "?");
        push_u64(&mut p, (i + 1) as u64);
        ph.push(p);
        i = i + 1;
    }
    assert(ph@.map_values(|p: String| p@) =~= Seq::new(columns@.len(), |i: int| "?"@ + dec_nat((i + 1) as nat)));
    let mut sql = String::new();
    push_str(&mut sql, "INSERT OR IGNORE INTO ");
    push_str(&mut sql, table);
    push_str(&mut sql, " (");
    let cols = join(columns, ", ");
    push_str(&mut sql, cols.as_str());
    push_str(&mut sql, ") VALUES (");
    let phs = join(&ph, ", ");
    push_str(&mut sql, phs.as_str());
    push_str(&mut sql, ")");
    sql
}

/// `s` with every `\` turned into `/`.
pub open spec fn forward_slashes(s: Seq<char>) -> Seq<char> {
    s.map_values(|c: char| if c == '\\' { '/' } else { c })
}

/// Where an asset file goes inside the archive: `images/` and its path
/// relative to the data directory, with forward slashes.
pub fn archive_image_path(relative: &str) -> (p: String)
    ensures
        p@ == "images/"@ + forward_slashes(relative@),
{
    let mut p = String::new();
    push_str(&mut p, "images/");
    let ghost start = p@;
    let n = relative.unicode_len();
    let mut i: usize = 0;
    while i < n
        invariant
            n == relative@.len(),
            i <= n,
            p@ == start + forward_slashes(relative@.take(i as int)),
        decreases n - i,
    {
        let c = relative.get_char(i);
        crate::numfmt::push_char(&mut p, if c == '\\' { '/' } else { c });
        proof {
            assert(forward_slashes(relative@.take(i as int + 1)) =~= forward_slashes(relative@.take(i as int)).push(
                if c == '\\' { '/' } else { c },
            ));
        }
        i = i + 1;
    }
    assert(relative@.take(n as int) =~= relative@);
    p
}

/// The asset files an archive restores: for each entry under `images/`
/// with something after that prefix, the rest of its name.
pub open spec fn restored_images(names: Seq<Seq<char>>) -> Seq<Seq<char>>
    decreases names.len(),
{
    if names.len() == 0 {
        Seq::empty()
    } else {
        let n = names.last();
        restored_images(names.drop_last()) + if n.len() > 7 && n.take(7) == "images/"@ {
            seq![n.skip(7)]
        } else {
            Seq::empty()
        }
    }
}

/// The relative paths of the asset files to extract from an archive.
pub fn images_to_restore(names: &Vec<String>) -> (r: Vec<String>)
    ensures
        r@.map_values(|s: String| s@) == restored_images(names@.map_values(|s: String| s@)),
{
    proof {
        reveal_strlit("images/");
    }
    let ghost nv = names@.map_values(|s: String| s@);
    let mut r: Vec<String> = Vec::new();
    let mut i: usize = 0;
    while i < names.len()
        invariant
            i <= names@.len(),
            nv == names@.map_values(|s: String| s@),
            r@.map_values(|s: String| s@) == restored_images(nv.take(i as int)),
            "images/"@.len() == 7,
        decreases names@.len() - i,
    {
        let n = names[i].as_str();
        let ghost before = r@;
        proof {
            assert(nv.take(i as int + 1).drop_last() =~= nv.take(i as int));
            assert(nv.take(i as int + 1).last() == n@);
        }
        let len = n.unicode_len();
        if starts_with(n, "images/") && len > 7 {
            let rest = n.substring_char(7, len).to_string();
            r.push(rest);
            proof {
                assert(n@.subrange(7, len as int) =~= n@.skip(7));
                assert(r@.map_values(|s: String| s@) =~= before.map_values(|s: String| s@).push(n@.skip(7)));
            }
        }
        i = i + 1;
    }
    assert(nv.take(names@.len() as int) =~= nv);
    r
}

/// The warning for a row a restore had to skip.
pub fn row_skip_warning(table: &str, err: &str) -> (w: String)
    ensures
        w@ == "Row skip ("@ + table@ + "): "@ + err@,
{
    let mut w = String::new();
    push_str(&mut w, "Row skip (");
    push_str(&mut w, table);
    push_str(&mut w, "): ");
    push_str(&mut w, err);
    w
}

/// The warning for an archive without settings.
pub fn missing_settings_warning() -> (w: String)
    ensures
        w@ == "settings.json missing from backup"@,
{
    "settings.json missing from backup".to_string()
}

/// The file name of an auto-backup made at `stamp` (`%Y%m%d_%H%M%S`).
pub fn auto_backup_file_name(stamp: &str) -> (n: String)
    ensures
        n@ == "auto_"@ + stamp@ + ".phb"@,
{
    let mut n = String::new();
    push_str(&mut n, "auto_");
    push_str(&mut n, stamp);
    push_str(&mut n, ".phb");
    n
}

/// Summary of a requested backup.
pub fn backup_created_message(path: &str, size_bytes: u64) -> (m: String)
    ensures
        m@ == "Backup created: "@ + path@ + " ("@ + dec_nat(size_bytes as nat) + " bytes)"@,
{
    let mut m = String::new();
    push_str(&mut m, "Backup created: ");
    push_str(&mut m, path);
    push_str(&mut m, " (");
    push_u64(&mut m, size_bytes);
    push_str(&mut m, " bytes)");
    m
}

/// Summary of an auto-backup.
pub fn auto_backup_message(size_bytes: u64) -> (m: String)
    ensures
        m@ == "Auto-backup created: "@ + dec_nat(size_bytes as nat) + " bytes"@,
{
    let mut m = String::new();
    push_str(&mut m, "Auto-backup created: ");
    push_u64(&mut m, size_bytes);
    push_str(&mut m, " bytes");
    m
}

} // verus!
