//! The watched-folder scanner: which executables are offered for import,
//! how likely each is a game, and in what order they are listed.

use vstd::prelude::*;
use crate::numfmt::push_str;
use crate::order::{sort_desc_by_key, stable_desc};
use crate::text::{contains_spec, contains_text, text_eq, to_lowercase, unicode_lowercase};
use crate::background::dup_opt_string;

verus! {

/// Deepest folder level searched below a root.
pub const MAX_DEPTH: usize = 4;

/// Executables smaller than this (20 MiB) are skipped.
pub const MIN_EXE_SIZE: u64 = 20 * 1024 * 1024;

/// Executables larger than this (50 MiB) score higher.
pub const LARGE_EXE_SIZE: u64 = 50 * 1024 * 1024;

/// Utility executables that are never game launchers (lower-case stems).
pub open spec fn blocklist() -> Seq<Seq<char>> {
    seq![
        "unitycrashandler64"@, "unitycrashandler"@, "crashhandler"@, "crashreporter"@, "unins000"@,
        "uninstall"@, "setup"@, "install"@, "dxsetup"@, "vcredist_x64"@, "vcredist_x86"@,
        "ue4prereqsetup_x64"@, "dotnetfx"@, "directx"@, "redist"@, "easyanticheat_setup"@,
        "battleye_setup"@, "registrator"@, "activation"@, "launcher_setup"@, "update"@, "updater"@,
        "patcher"@
    ]
}

fn blocklist_exec() -> (b: Vec<&'static str>)
    ensures
        b@.map_values(|s: &str| s@) == blocklist(),
{
    let mut b: Vec<&'static str> = Vec::new();
    b.push("unitycrashandler64");
    b.push("unitycrashandler");
    b.push("crashhandler");
    b.push("crashreporter");
    b.push("unins000");
    b.push("uninstall");
    b.push("setup");
    b.push("install");
    b.push("dxsetup");
    b.push("vcredist_x64");
    b.push("vcredist_x86");
    b.push("ue4prereqsetup_x64");
    b.push("dotnetfx");
    b.push("directx");
    b.push("redist");
    b.push("easyanticheat_setup");
    b.push("battleye_setup");
    b.push("registrator");
    b.push("activation");
    b.push("launcher_setup");
    b.push("update");
    b.push("updater");
    b.push("patcher");
    assert(b@.map_values(|s: &str| s@) =~= blocklist());
    b
}

/// Whether an executable stem is a blocked utility (compared lower-cased,
/// exactly — `setuptown` is not `setup`).
pub open spec fn is_blocked(stem: Seq<char>) -> bool {
    exists|i: int| 0 <= i < blocklist().len() && blocklist()[i] == unicode_lowercase(stem)
}

/// Check an executable stem against the blocklist.
pub fn blocked_stem(stem: &str) -> (b: bool)
    ensures
        b == is_blocked(stem@),
{
    let low = to_lowercase(stem);
    let list = blocklist_exec();
    let ghost lv = list@.map_values(|s: &str| s@);
    let mut i: usize = 0;
    while i < list.len()
        invariant
            i <= list@.len(),
            lv == list@.map_values(|s: &str| s@),
            lv == blocklist(),
            low@ == unicode_lowercase(stem@),
            forall|j: int| 0 <= j < i ==> #[trigger] lv[j] != low@,
        decreases list@.len() - i,
    {
        if text_eq(list[i], low.as_str()) {
            assert(lv[i as int] == low@);
            return true;
        }
        i = i + 1;
    }
    false
}

/// File extensions typical of game folders.
pub open spec fn is_game_ext(ext: Seq<char>) -> bool {
    let l = unicode_lowercase(ext);
    l == "dll"@ || l == "pak"@ || l == "uasset"@ || l == "unity3d"@ || l == "pck"@
}

/// Whether a file extension marks a game folder.
pub fn game_file_ext(ext: &str) -> (b: bool)
    ensures
        b == is_game_ext(ext@),
{
    let l = to_lowercase(ext);
    let s = l.as_str();
    text_eq(s, "dll") || text_eq(s, "pak") || text_eq(s, "uasset") || text_eq(s, "unity3d") || text_eq(s, "pck")
}

/// What the scanner learned of one executable on disk.
pub struct ExeFacts {
    /// File stem (name without extension).
    pub stem: String,
    /// Full path as text.
    pub path: String,
    /// Name of the folder holding it, when there is one.
    pub folder_name: Option<String>,
    /// Whether that folder holds files with game extensions.
    pub folder_has_game_files: bool,
    /// Size in bytes.
    pub size_bytes: u64,
}

/// Confidence that an executable is a game, in tenths: 3 for a named
/// parent folder, 2 for game files beside it, 2 when its stem is the
/// folder's name (ignoring case), 2 for a `bin`/`binaries` folder on its
/// path, 1 above 50 MiB; at most 10.
pub open spec fn confidence_tenths(f: ExeFacts) -> int {
    let path = unicode_lowercase(f.path@);
    let named = f.folder_name.is_some();
    let same = match f.folder_name {
        Some(n) => unicode_lowercase(f.stem@) == unicode_lowercase(n@),
        None => false,
    };
    let bin = contains_spec(path, "\\bin\\"@, false) || contains_spec(path, "\\binaries\\"@, false)
        || contains_spec(path, "/bin/"@, false) || contains_spec(path, "/binaries/"@, false);
    let t = (if named { 3int } else { 0int }) + (if f.folder_has_game_files { 2int } else { 0int }) + (if same {
        2int
    } else {
        0int
    }) + (if bin { 2int } else { 0int }) + (if f.size_bytes > LARGE_EXE_SIZE { 1int } else { 0int });
    if t < 10 { t } else { 10 }
}

/// The lower-cased path runs through a `bin` or `binaries` directory, with
/// either separator.
pub open spec fn in_bin_dir(path: Seq<char>) -> bool {
    let p = unicode_lowercase(path);
    contains_spec(p, "\\bin\\"@, false) || contains_spec(p, "\\binaries\\"@, false) || contains_spec(
        p,
        "/bin/"@,
        false,
    ) || contains_spec(p, "/binaries/"@, false)
}

/// Two executables that differ only in their path.
pub open spec fn same_but_path(f: ExeFacts, g: ExeFacts) -> bool {
    &&& f.stem == g.stem
    &&& f.folder_name == g.folder_name
    &&& f.folder_has_game_files == g.folder_has_game_files
    &&& f.size_bytes == g.size_bytes
}

/// Moving an executable into a `bin` or `binaries` directory (either
/// spelling, either separator) raises its confidence by two tenths, up to
/// the cap of 10; and all four directory forms count the same: two
/// executables that differ only in their path, both inside such a
/// directory, have the same confidence.
pub proof fn lemma_bin_dir_bonus(f: ExeFacts, g: ExeFacts)
    requires
        same_but_path(f, g),
    ensures
        !in_bin_dir(f.path@) && (contains_spec(unicode_lowercase(g.path@), "\\binaries\\"@, false) || contains_spec(
            unicode_lowercase(g.path@),
            "/binaries/"@,
            false,
        ) || contains_spec(unicode_lowercase(g.path@), "\\bin\\"@, false) || contains_spec(
            unicode_lowercase(g.path@),
            "/bin/"@,
            false,
        )) ==> confidence_tenths(g) == if confidence_tenths(f) + 2 < 10 {
            confidence_tenths(f) + 2
        } else {
            10
        },
        in_bin_dir(f.path@) && in_bin_dir(g.path@) ==> confidence_tenths(f) == confidence_tenths(g),
        !in_bin_dir(f.path@) && !in_bin_dir(g.path@) ==> confidence_tenths(f) == confidence_tenths(g),
        0 <= confidence_tenths(f) <= 10,
{
}

/// Score an executable.
pub fn compute_confidence(f: &ExeFacts) -> (t: u32)
    ensures
        t == confidence_tenths(*f),
{
    let mut t: u32 = 0;
    if f.folder_name.is_some() {
        t = t + 3;
    }
    if f.folder_has_game_files {
        t = t + 2;
    }
    match &f.folder_name {
        Some(n) => {
            let a = to_lowercase(f.stem.as_str());
            let b = to_lowercase(n.as_str());
            if text_eq(a.as_str(), b.as_str()) {
                t = t + 2;
            }
        },
        None => {},
    }
    let p = to_lowercase(f.path.as_str());
    let ps = p.as_str();
    if contains_text(ps, "\\bin\\", false) || contains_text(ps, "\\binaries\\", false) || contains_text(ps, "/bin/", false)
        || contains_text(ps, "/binaries/", false) {
        t = t + 2;
    }
    if f.size_bytes > LARGE_EXE_SIZE {
        t = t + 1;
    }
    if t < 10 { t } else { 10 }
}

/// A candidate offered for import.
pub struct ScanResult {
    pub name: String,
    pub exe_path: String,
    pub already_added: bool,
    pub confidence_tenths: u32,
    pub size_bytes: u64,
    pub folder_name: String,
}

impl ScanResult {
    /// A field-by-field copy.
    pub fn duplicate(&self) -> (r: Self)
        ensures
            r == *self,
    {
        ScanResult {
            name: self.name.clone(),
            exe_path: self.exe_path.clone(),
            already_added: self.already_added,
            confidence_tenths: self.confidence_tenths,
            size_bytes: self.size_bytes,
            folder_name: self.folder_name.clone(),
        }
    }
}

/// Whether a list of texts holds `s`.
pub open spec fn has_text(list: Seq<String>, s: Seq<char>) -> bool {
    exists|i: int| 0 <= i < list.len() && list[i]@ == s
}

fn list_has(list: &Vec<String>, s: &str) -> (b: bool)
    ensures
        b == has_text(list@, s@),
{
    let mut i: usize = 0;
    while i < list.len()
        invariant
            i <= list@.len(),
            forall|j: int| 0 <= j < i ==> list@[j]@ != s@,
        decreases list@.len() - i,
    {
        if text_eq(list[i].as_str(), s) {
            return true;
        }
        i = i + 1;
    }
    false
}

/// The candidate an executable yields, if any: blocked stems and files
/// under 20 MiB yield none; otherwise it is named after its stem, marked
/// when its path is already in the library, and scored.
pub fn scan_candidate(f: &ExeFacts, known_paths: &Vec<String>) -> (r: Option<ScanResult>)
    ensures
        match r {
            None => is_blocked(f.stem@) || f.size_bytes < MIN_EXE_SIZE,
            Some(c) => !is_blocked(f.stem@) && f.size_bytes >= MIN_EXE_SIZE && c.name@ == f.stem@ && c.exe_path@
                == f.path@ && c.already_added == has_text(known_paths@, f.path@) && c.confidence_tenths
                == confidence_tenths(*f) && c.size_bytes == f.size_bytes && c.folder_name@ == match f.folder_name {
                Some(n) => n@,
                None => Seq::<char>::empty(),
            },
        },
{
    if blocked_stem(f.stem.as_str()) {
        return None;
    }
    if f.size_bytes < MIN_EXE_SIZE {
        return None;
    }
    let folder = match &f.folder_name {
        Some(n) => n.clone(),
        None => String::new(),
    };
    Some(ScanResult {
        name: f.stem.clone(),
        exe_path: f.path.clone(),
        already_added: list_has(known_paths, f.path.as_str()),
        confidence_tenths: compute_confidence(f),
        size_bytes: f.size_bytes,
        folder_name: folder,
    })
}

/// Confidence keys of a list of candidates.
pub open spec fn confidence_keys(rs: Seq<ScanResult>) -> Seq<u128> {
    rs.map_values(|r: ScanResult| r.confidence_tenths as u128)
}

/// `rs` with consecutive entries of the same path reduced to the first.
pub open spec fn dedup_adjacent(rs: Seq<ScanResult>) -> Seq<ScanResult>
    decreases rs.len(),
{
    if rs.len() == 0 {
        rs
    } else {
        let d = dedup_adjacent(rs.drop_last());
        if rs.len() >= 2 && rs[rs.len() - 2].exe_path@ == rs.last().exe_path@ { d } else { d.push(rs.last()) }
    }
}

fn sort_by_confidence(rs: &Vec<ScanResult>) -> (r: Vec<ScanResult>)
    ensures
        exists|order: Seq<usize>| #[trigger] stable_desc(confidence_keys(rs@), order) && r@ == order.map_values(
            |k: usize| rs@[k as int],
        ),
{
    let mut keys: Vec<u128> = Vec::new();
    let mut i: usize = 0;
    while i < rs.len()
        invariant
            i <= rs@.len(),
            keys@.len() == i,
            forall|j: int| 0 <= j < i ==> #[trigger] keys@[j] == rs@[j].confidence_tenths as u128,
        decreases rs@.len() - i,
    {
        keys.push(rs[i].confidence_tenths as u128);
        i = i + 1;
    }
    assert(keys@ =~= confidence_keys(rs@));
    let order = sort_desc_by_key(&keys);
    let mut r: Vec<ScanResult> = Vec::new();
    let mut k: usize = 0;
    while k < order.len()
        invariant
            k <= order@.len(),
            order@.len() == rs@.len(),
            forall|j: int| 0 <= j < order@.len() ==> #[trigger] order@[j] < rs@.len(),
            r@ == order@.take(k as int).map_values(|q: usize| rs@[q as int]),
        decreases order@.len() - k,
    {
        r.push(rs[order[k]].duplicate());
        proof {
            assert(order@.take(k as int + 1) =~= order@.take(k as int).push(order@[k as int]));
            assert(order@.take(k as int + 1).map_values(|q: usize| rs@[q as int]) =~= order@.take(k as int).map_values(
                |q: usize| rs@[q as int],
            ).push(rs@[order@[k as int] as int]));
        }
        k = k + 1;
    }
    assert(order@.take(order@.len() as int) =~= order@);
    assert(stable_desc(confidence_keys(rs@), order@));
    r
}

fn dedup_paths(rs: &Vec<ScanResult>) -> (r: Vec<ScanResult>)
    ensures
        r@ == dedup_adjacent(rs@),
{
    let mut r: Vec<ScanResult> = Vec::new();
    let mut i: usize = 0;
    while i < rs.len()
        invariant
            i <= rs@.len(),
            r@ == dedup_adjacent(rs@.take(i as int)),
        decreases rs@.len() - i,
    {
        let ghost t = rs@.take(i as int + 1);
        proof {
            assert(t.drop_last() =~= rs@.take(i as int));
            assert(t.last() == rs@[i as int]);
            if i >= 1 {
                assert(t[t.len() - 2] == rs@[i - 1]);
            }
        }
        if i == 0 || !text_eq(rs[i - 1].exe_path.as_str(), rs[i].exe_path.as_str()) {
            r.push(rs[i].duplicate());
        }
        i = i + 1;
    }
    assert(rs@.take(rs@.len() as int) =~= rs@);
    r
}

/// The candidates of one folder as listed: by confidence, highest first
/// (equal scores keep discovery order), then adjacent entries of the same
/// path reduced to one.
pub fn rank_scan_results(found: &Vec<ScanResult>) -> (r: Vec<ScanResult>)
    ensures
        exists|order: Seq<usize>| #[trigger] stable_desc(confidence_keys(found@), order) && r@ == dedup_adjacent(
            order.map_values(|k: usize| found@[k as int]),
        ),
{
    let sorted = sort_by_confidence(found);
    dedup_paths(&sorted)
}

/// Entries whose path has not appeared before, in order.
pub open spec fn first_by_path(rs: Seq<ScanResult>) -> Seq<ScanResult>
    decreases rs.len(),
{
    if rs.len() == 0 {
        rs
    } else {
        let d = first_by_path(rs.drop_last());
        if exists|j: int| 0 <= j < rs.len() - 1 && rs[j].exe_path@ == rs.last().exe_path@ {
            d
        } else {
            d.push(rs.last())
        }
    }
}

proof fn lemma_first_by_path(rs: Seq<ScanResult>)
    ensures
        forall|k: int| 0 <= k < first_by_path(rs).len() ==> exists|m: int| 0 <= m < rs.len() && #[trigger] first_by_path(rs)[k] == rs[m],
        forall|i: int, j: int| 0 <= i < j < first_by_path(rs).len() ==> (#[trigger] first_by_path(rs)[i]).exe_path@ != (#[trigger] first_by_path(rs)[j]).exe_path@,
    decreases rs.len(),
{
    if rs.len() > 0 {
        let init = rs.drop_last();
        lemma_first_by_path(init);
        let d = first_by_path(init);
        let f = first_by_path(rs);
        assert forall|k: int| 0 <= k < d.len() implies exists|m: int| 0 <= m < rs.len() && #[trigger] d[k] == rs[m] by {
            let m = choose|m: int| 0 <= m < init.len() && d[k] == init[m];
            assert(init[m] == rs[m]);
        }
        if !(exists|j: int| 0 <= j < rs.len() - 1 && rs[j].exe_path@ == rs.last().exe_path@) {
            assert(f == d.push(rs.last()));
            assert forall|k: int| 0 <= k < d.len() implies (#[trigger] d[k]).exe_path@ != rs.last().exe_path@ by {
                let m = choose|m: int| 0 <= m < init.len() && d[k] == init[m];
                assert(init[m] == rs[m]);
            }
            assert forall|k: int| 0 <= k < f.len() implies exists|m: int| 0 <= m < rs.len() && #[trigger] f[k] == rs[m] by {
                if k < d.len() {
                    assert(f[k] == d[k]);
                } else {
                    assert(f[k] == rs[rs.len() - 1]);
                }
            }
            assert forall|i: int, j: int| 0 <= i < j < f.len() implies (#[trigger] f[i]).exe_path@ != (#[trigger] f[j]).exe_path@ by {
                if j < d.len() {
                    assert(f[i] == d[i] && f[j] == d[j]);
                } else {
                    assert(f[i] == d[i] && f[j] == rs.last());
                }
            }
        } else {
            assert(f == d);
        }
    }
}

/// The candidates of all folders: the lists joined in folder order, each
/// path kept at its first appearance, then ordered by confidence (equal
/// scores keep that order).
pub fn merge_scans(lists: &Vec<Vec<ScanResult>>) -> (r: Vec<ScanResult>)
    ensures
        ({
            let all = lists@.map_values(|l: Vec<ScanResult>| l@).flatten();
            let kept = first_by_path(all);
            exists|order: Seq<usize>| #[trigger] stable_desc(confidence_keys(kept), order) && r@ == order.map_values(
                |k: usize| kept[k as int],
            )
        }),
        forall|i: int, j: int| 0 <= i < j < r@.len() ==> (#[trigger] r@[i]).exe_path@ != (#[trigger] r@[j]).exe_path@,
{
    let ghost all = lists@.map_values(|l: Vec<ScanResult>| l@).flatten();
    let mut flat: Vec<ScanResult> = Vec::new();
    let mut i: usize = 0;
    while i < lists.len()
        invariant
            i <= lists@.len(),
            all == lists@.map_values(|l: Vec<ScanResult>| l@).flatten(),
            flat@ == lists@.take(i as int).map_values(|l: Vec<ScanResult>| l@).flatten(),
        decreases lists@.len() - i,
    {
        let l = &lists[i];
        let ghost before = flat@;
        let mut j: usize = 0;
        while j < l.len()
            invariant
                j <= l@.len(),
                flat@ == before + l@.take(j as int),
            decreases l@.len() - j,
        {
            flat.push(l[j].duplicate());
            proof {
                assert(l@.take(j as int + 1) =~= l@.take(j as int).push(l@[j as int]));
            }
            j = j + 1;
        }
        proof {
            assert(l@.take(l@.len() as int) =~= l@);
            let m = lists@.take(i as int + 1).map_values(|l: Vec<ScanResult>| l@);
            assert(m =~= lists@.take(i as int).map_values(|l: Vec<ScanResult>| l@).push(l@));
            m.drop_last().lemma_flatten_push(l@);
            assert(m.drop_last() =~= lists@.take(i as int).map_values(|l: Vec<ScanResult>| l@));
        }
        i = i + 1;
    }
    proof {
        assert(lists@.take(lists@.len() as int) =~= lists@);
    }
    let mut kept: Vec<ScanResult> = Vec::new();
    let mut k: usize = 0;
    while k < flat.len()
        invariant
            k <= flat@.len(),
            flat@ == all,
            kept@ == first_by_path(all.take(k as int)),
        decreases flat@.len() - k,
    {
        let ghost t = all.take(k as int + 1);
        proof {
            assert(t.drop_last() =~= all.take(k as int));
            assert(t.last() == all[k as int]);
        }
        let mut seen = false;
        let mut q: usize = 0;
        while q < k
            invariant
                q <= k,
                k < flat@.len(),
                flat@ == all,
                t == all.take(k as int + 1),
                seen <==> exists|j: int| 0 <= j < q && all[j].exe_path@ == all[k as int].exe_path@,
            decreases k - q,
        {
            if text_eq(flat[q].exe_path.as_str(), flat[k].exe_path.as_str()) {
                seen = true;
            }
            q = q + 1;
        }
        proof {
            assert((exists|j: int| 0 <= j < t.len() - 1 && t[j].exe_path@ == t.last().exe_path@) == seen) by {
                if seen {
                    let j = choose|j: int| 0 <= j < k && all[j].exe_path@ == all[k as int].exe_path@;
                    assert(t[j] == all[j]);
                }
                if exists|j: int| 0 <= j < t.len() - 1 && t[j].exe_path@ == t.last().exe_path@ {
                    let j = choose|j: int| 0 <= j < t.len() - 1 && t[j].exe_path@ == t.last().exe_path@;
                    assert(t[j] == all[j]);
                }
            }
        }
        if !seen {
            kept.push(flat[k].duplicate());
        }
        k = k + 1;
    }
    proof {
        assert(all.take(flat@.len() as int) =~= all);
    }
    let r = sort_by_confidence(&kept);
    proof {
        let kv = first_by_path(all);
        lemma_first_by_path(all);
        let order = choose|order: Seq<usize>| #[trigger] stable_desc(confidence_keys(kv), order) && r@ == order.map_values(
            |k: usize| kv[k as int],
        );
        assert forall|i: int, j: int| 0 <= i < j < r@.len() implies (#[trigger] r@[i]).exe_path@ != (#[trigger] r@[j]).exe_path@ by {
            let a = order[i] as int;
            let b = order[j] as int;
            assert(r@[i] == kv[a] && r@[j] == kv[b]);
            assert(a != b);
            if a < b {
                assert(kv[a].exe_path@ != kv[b].exe_path@);
            } else {
                assert(kv[b].exe_path@ != kv[a].exe_path@);
            }
        }
    }
    r
}

/// The message for a path that is not a directory.
pub fn not_a_directory(path: &str) -> (m: String)
    ensures
        m@ == "'"@ + path@ + "' is not a valid directory."@,
{
    let mut m = String::new();
    push_str(&mut m, "'");
    push_str(&mut m, path);
    push_str(&mut m, "' is not a valid directory.");
    m
}

/// Register a scan directory: appended unless already listed.
pub fn add_directory(dirs: Vec<String>, path: String) -> (r: Vec<String>)
    ensures
        has_text(dirs@, path@) ==> r@ == dirs@,
        !has_text(dirs@, path@) ==> r@ == dirs@.push(path),
{
    let mut dirs = dirs;
    if !list_has(&dirs, path.as_str()) {
        dirs.push(path);
    }
    dirs
}

/// Unregister a scan directory: every entry equal to it goes.
pub fn remove_directory(dirs: &Vec<String>, path: &str) -> (r: Vec<String>)
    ensures
        r@ == dirs@.filter(|d: String| d@ != path@),
{
    let ghost f = |d: String| d@ != path@;
    let mut r: Vec<String> = Vec::new();
    let mut i: usize = 0;
    while i < dirs.len()
        invariant
            i <= dirs@.len(),
            f == (|d: String| d@ != path@),
            r@ == dirs@.take(i as int).filter(f),
        decreases dirs@.len() - i,
    {
        proof {
            reveal(Seq::filter);
            assert(dirs@.take(i as int + 1).drop_last() =~= dirs@.take(i as int));
        }
        if !text_eq(dirs[i].as_str(), path) {
            r.push(dirs[i].clone());
        }
        i = i + 1;
    }
    assert(dirs@.take(dirs@.len() as int) =~= dirs@);
    r
}

} // verus!
