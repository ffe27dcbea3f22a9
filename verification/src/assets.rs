//! Asset storage layout: where covers, backgrounds, gallery images,
//! thumbnails and de-duplication markers live, and the bookkeeping the asset
//! pipeline reports (storage totals, orphan clean-up).
//!
//! ```text
//! <app_data_dir>/assets/
//! ├── covers/          {game_id}.webp
//! ├── backgrounds/     {game_id}.webp
//! ├── gallery/         {game_id}/{uuid}.webp
//! └── thumbnails/      {hash}_thumb.webp   and   {hash}_dedup
//! ```

use vstd::prelude::*;
use crate::numfmt::{fmt_hex16, hex16, parse_hex_u64, parse_hex_u64_spec, push_str, pow16, digit_char_of, digits_value, digit_value, parse_radix, all_digits};
use crate::paths::{joined, path_join};
use crate::text::{contains_string, ends_with, seq_has_text, substring, text_eq};
use crate::order::{sort_by_text, stable_by_text};
use crate::images::{extension_of, path_extension};

verus! {

/// Cover target width and height (pixels).
pub const COVER_WIDTH: u32 = 512;
/// Cover target height.
pub const COVER_HEIGHT: u32 = 512;
/// Background target width.
pub const BG_WIDTH: u32 = 1920;
/// Background target height.
pub const BG_HEIGHT: u32 = 1080;
/// Thumbnail target width.
pub const THUMB_WIDTH: u32 = 256;
/// Thumbnail target height.
pub const THUMB_HEIGHT: u32 = 256;

/// Kind of stored asset.
#[derive(Debug, Clone, Copy, PartialEq, Eq, Structural)]
pub enum AssetType {
    Cover,
    Background,
    Gallery,
    Thumbnail,
}

/// A handle to a stored asset.
#[derive(Debug)]
pub struct AssetRef {
    /// Filesystem path.
    pub path: String,
    /// Asset type tag.
    pub asset_type: AssetType,
    /// Content hash of the source file (16 hex digits), or empty when not computed.
    pub content_hash: String,
}

impl AssetRef {
    /// The path as stored in the database.
    pub fn path_str(&self) -> (s: String)
        ensures
            s@ == self.path@,
    {
        self.path.clone()
    }
}

/// Disk usage and counts for the asset store.
#[derive(Debug)]
pub struct StorageStats {
    pub total_bytes: u64,
    pub covers_bytes: u64,
    pub backgrounds_bytes: u64,
    pub gallery_bytes: u64,
    pub thumbnails_bytes: u64,
    pub file_count: u64,
}

/// Result of an orphan clean-up run.
#[derive(Debug)]
pub struct CleanupResult {
    pub deleted_count: u64,
    pub bytes_freed: u64,
}

/// `"{game_id}.webp"`.
pub open spec fn webp_name(stem: Seq<char>) -> Seq<char> {
    stem + ".webp"@
}

/// `"{hash:016x}_thumb.webp"`.
pub open spec fn thumb_name(hash: u64) -> Seq<char> {
    hex16(hash as nat) + "_thumb.webp"@
}

/// `"{hash:016x}_dedup"`.
pub open spec fn marker_name(hash: u64) -> Seq<char> {
    hex16(hash as nat) + "_dedup"@
}

fn webp_file_name(stem: &str) -> (r: String)
    ensures
        r@ == webp_name(stem@),
{
    let mut r = String::from_str(stem);
    push_str(&mut r, ".webp");
    r
}

/// Files up to this size are hashed whole (4 MiB).
pub const HASH_WHOLE_LIMIT: u64 = 4194304;

/// Bytes hashed from each end of a larger file (2 MiB).
pub const HASH_SAMPLE_BYTES: u64 = 2097152;

/// Which bytes of a file its content hash reads.
#[derive(Clone, Copy, Debug, PartialEq, Eq, Structural)]
pub enum HashSample {
    /// The whole file.
    Whole,
    /// The first `len` bytes, then `len` bytes from `tail_start` on.
    HeadAndTail { len: u64, tail_start: u64 },
}

/// The bytes a content hash reads for a file of `file_size` bytes: all of
/// a file up to 4 MiB, else its first and last 2 MiB.
pub fn hash_sample(file_size: u64) -> (h: HashSample)
    ensures
        file_size <= HASH_WHOLE_LIMIT ==> h == HashSample::Whole,
        file_size > HASH_WHOLE_LIMIT ==> h == (HashSample::HeadAndTail {
            len: HASH_SAMPLE_BYTES,
            tail_start: (file_size - HASH_SAMPLE_BYTES) as u64,
        }),
{
    if file_size <= HASH_WHOLE_LIMIT {
        HashSample::Whole
    } else {
        HashSample::HeadAndTail { len: HASH_SAMPLE_BYTES, tail_start: file_size - HASH_SAMPLE_BYTES }
    }
}

/// Format the hash as a 16-character lower-case hex string.
pub fn hash_to_hex(hash: u64) -> (s: String)
    ensures
        s@ == hex16(hash as nat),
{
    fmt_hex16(hash)
}

/// Canonical cover path for a game: `{covers_dir}/{game_id}.webp`.
pub fn cover_path(covers_dir: &str, game_id: &str) -> (p: String)
    ensures
        joined(covers_dir@, webp_name(game_id@), p@),
{
    let name = webp_file_name(game_id);
    path_join(covers_dir, name.as_str())
}

/// Canonical background path for a game: `{backgrounds_dir}/{game_id}.webp`.
pub fn background_path(backgrounds_dir: &str, game_id: &str) -> (p: String)
    ensures
        joined(backgrounds_dir@, webp_name(game_id@), p@),
{
    let name = webp_file_name(game_id);
    path_join(backgrounds_dir, name.as_str())
}

/// Canonical thumbnail path for a content hash.
pub fn thumbnail_path(thumbnails_dir: &str, content_hash: u64) -> (p: String)
    ensures
        joined(thumbnails_dir@, thumb_name(content_hash), p@),
{
    let mut name = fmt_hex16(content_hash);
    push_str(&mut name, "_thumb.webp");
    path_join(thumbnails_dir, name.as_str())
}

/// Canonical de-duplication marker path for a content hash.
pub fn dedup_marker_path(thumbnails_dir: &str, hash: u64) -> (p: String)
    ensures
        joined(thumbnails_dir@, marker_name(hash), p@),
{
    let mut name = fmt_hex16(hash);
    push_str(&mut name, "_dedup");
    path_join(thumbnails_dir, name.as_str())
}

/// The hash a marker file name was made for: the name must be exactly
/// sixteen lower-case hex digits followed by `_dedup`.
pub open spec fn hex_from_marker_spec(filename: Seq<char>) -> Option<int> {
    if exists|h: u64| #[trigger] marker_name(h) == filename {
        Some((choose|h: u64| #[trigger] marker_name(h) == filename) as int)
    } else {
        None
    }
}

/// Return the hash stored in a de-duplication marker file name, or `None`
/// when the name does not have the marker's shape (sixteen lower-case hex
/// digits, then `_dedup`).
pub fn hex_from_marker(filename: &str) -> (r: Option<u64>)
    ensures
        r matches Some(h) ==> filename@ == marker_name(h),
        r is None ==> forall|h: u64| #[trigger] marker_name(h) != filename@,
        match r {
            Some(h) => hex_from_marker_spec(filename@) == Some(h as int),
            None => hex_from_marker_spec(filename@) is None,
        },
{
    proof {
        reveal_strlit("_dedup");
    }
    if !ends_with(filename, "_dedup") {
        proof {
            assert forall|h: u64| #[trigger] marker_name(h) != filename@ by {
                if marker_name(h) == filename@ {
                    assert(filename@.skip(filename@.len() - 6) =~= "_dedup"@);
                }
            }
        }
        return None;
    }
    let n = filename.unicode_len();
    let stem = substring(filename, 0, n - 6);
    assert(stem@ =~= filename@.take(filename@.len() - 6));
    let parsed = parse_hex_u64(stem.as_str());
    match parsed {
        None => {
            proof {
                assert forall|h: u64| #[trigger] marker_name(h) != filename@ by {
                    if marker_name(h) == filename@ {
                        assert(stem@ =~= hex16(h as nat));
                        lemma_hex16_parses(h);
                    }
                }
                assert(!(exists|h: u64| #[trigger] marker_name(h) == filename@));
            }
            None
        },
        Some(v) => {
            let mut back = fmt_hex16(v);
            push_str(&mut back, "_dedup");
            if text_eq(back.as_str(), filename) {
                proof {
                    lemma_marker_injective(v);
                    assert(marker_name(v) == filename@);
                    let c = choose|h: u64| #[trigger] marker_name(h) == filename@;
                    assert(marker_name(c) == marker_name(v));
                }
                Some(v)
            } else {
                proof {
                    assert forall|h: u64| #[trigger] marker_name(h) != filename@ by {
                        if marker_name(h) == filename@ {
                            assert(stem@ =~= hex16(h as nat));
                            lemma_hex16_parses(h);
                        }
                    }
                }
                None
            }
        },
    }
}

proof fn lemma_hex_digit_value(d: nat)
    requires
        d < 16,
    ensures
        digit_value(digit_char_of(d), 16) == Some(d),
{
}

proof fn lemma_pow16_values()
    ensures
        pow16(16) == 0x1_0000_0000_0000_0000,
{
    reveal_with_fuel(pow16, 17);
}

proof fn lemma_hex16_prefix_value(h: u64, k: nat)
    requires
        k <= 16,
    ensures
        digits_value(hex16(h as nat).take(k as int), 16) == (h as nat) / pow16((16 - k) as nat),
    decreases k,
{
    let s = hex16(h as nat);
    if k == 0 {
        lemma_pow16_values();
        assert(s.take(0) =~= Seq::<char>::empty());
        assert((h as nat) / pow16(16) == 0);
    } else {
        lemma_hex16_prefix_value(h, (k - 1) as nat);
        let j = (k - 1) as int;
        let x = (h as nat) / pow16((15 - j) as nat);
        let d = x % 16;
        assert(s.take(k as int).drop_last() =~= s.take(j));
        assert(s.take(k as int).last() == s[j]);
        assert(s[j] == digit_char_of(d));
        lemma_hex_digit_value(d);
        crate::numfmt::lemma_pow16_step((15 - j) as nat);
        assert(pow16((16 - j) as nat) == 16 * pow16((15 - j) as nat));
        vstd::arithmetic::div_mod::lemma_div_denominator(h as int, pow16((15 - j) as nat) as int, 16);
        assert(pow16((15 - j) as nat) * 16 == 16 * pow16((15 - j) as nat)) by (nonlinear_arith);
        assert(x == (x / 16) * 16 + d) by {
            vstd::arithmetic::div_mod::lemma_fundamental_div_mod(x as int, 16);
        }
    }
}

/// Sixteen hex digits of a hash read back as that hash.
proof fn lemma_hex16_parses(hash: u64)
    ensures
        parse_hex_u64_spec(hex16(hash as nat)) == Some(hash as int),
{
    let s = hex16(hash as nat);
    lemma_hex16_prefix_value(hash, 16);
    assert(s.take(16) =~= s);
    assert(pow16(0) == 1);
    assert forall|i: int| 0 <= i < s.len() implies (#[trigger] digit_value(s[i], 16)) is Some by {
        lemma_hex_digit_value(((hash as nat) / pow16((15 - i) as nat)) % 16);
    }
    lemma_hex_digit_value(((hash as nat) / pow16(15)) % 16);
    assert(s[0] != '+' && s[0] != '-');
    assert(all_digits(s, 16));
    assert((hash as nat) / 1 == hash as nat);
    assert(digits_value(s, 16) == hash as nat);
    assert(s.len() == 16);
    assert(parse_radix(s, 16, false) == Some(hash as int));
}

/// Different hashes give different marker names.
proof fn lemma_marker_injective(a: u64)
    ensures
        forall|b: u64| #[trigger] marker_name(b) == marker_name(a) ==> b == a,
{
    reveal_strlit("_dedup");
    assert forall|b: u64| #[trigger] marker_name(b) == marker_name(a) implies b == a by {
        assert(marker_name(a).take(16) =~= hex16(a as nat));
        assert(marker_name(b).take(16) =~= hex16(b as nat));
        lemma_hex16_parses(a);
        lemma_hex16_parses(b);
    }
}

/// Reading the hash back from a de-duplication marker's file name gives the
/// hash the marker was made for.
pub proof fn lemma_marker_roundtrip(hash: u64)
    ensures
        hex_from_marker_spec(marker_name(hash)) == Some(hash as int),
{
    lemma_marker_injective(hash);
    assert(marker_name(hash) == marker_name(hash));
}

/// The asset store's directory layout under an application data directory.
pub struct AssetManager {
    base_dir: String,
    covers_dir: String,
    backgrounds_dir: String,
    gallery_dir: String,
    thumbnails_dir: String,
}

impl AssetManager {
    /// `<app_data_dir>/assets`.
    pub closed spec fn base_view(&self) -> Seq<char> {
        self.base_dir@
    }

    /// `<base>/covers`.
    pub closed spec fn covers_view(&self) -> Seq<char> {
        self.covers_dir@
    }

    /// `<base>/backgrounds`.
    pub closed spec fn backgrounds_view(&self) -> Seq<char> {
        self.backgrounds_dir@
    }

    /// `<base>/gallery`.
    pub closed spec fn gallery_view(&self) -> Seq<char> {
        self.gallery_dir@
    }

    /// `<base>/thumbnails`.
    pub closed spec fn thumbnails_view(&self) -> Seq<char> {
        self.thumbnails_dir@
    }

    /// The layout rooted at `<app_data_dir>/assets/` (directories are
    /// created by the caller).
    pub fn with_root(app_data_dir: &str) -> (m: Self)
        ensures
            joined(app_data_dir@, "assets"@, m.base_view()),
            joined(m.base_view(), "covers"@, m.covers_view()),
            joined(m.base_view(), "backgrounds"@, m.backgrounds_view()),
            joined(m.base_view(), "gallery"@, m.gallery_view()),
            joined(m.base_view(), "thumbnails"@, m.thumbnails_view()),
    {
        let base_dir = path_join(app_data_dir, "assets");
        let covers_dir = path_join(base_dir.as_str(), "covers");
        let backgrounds_dir = path_join(base_dir.as_str(), "backgrounds");
        let gallery_dir = path_join(base_dir.as_str(), "gallery");
        let thumbnails_dir = path_join(base_dir.as_str(), "thumbnails");
        AssetManager { base_dir, covers_dir, backgrounds_dir, gallery_dir, thumbnails_dir }
    }

    /// The asset root.
    pub fn base_dir(&self) -> (r: &str)
        ensures
            r@ == self.base_view(),
    {
        self.base_dir.as_str()
    }

    /// The covers directory.
    pub fn covers_dir(&self) -> (r: &str)
        ensures
            r@ == self.covers_view(),
    {
        self.covers_dir.as_str()
    }

    /// The backgrounds directory.
    pub fn backgrounds_dir(&self) -> (r: &str)
        ensures
            r@ == self.backgrounds_view(),
    {
        self.backgrounds_dir.as_str()
    }

    /// The gallery directory.
    pub fn gallery_dir(&self) -> (r: &str)
        ensures
            r@ == self.gallery_view(),
    {
        self.gallery_dir.as_str()
    }

    /// The thumbnails directory.
    pub fn thumbnails_dir(&self) -> (r: &str)
        ensures
            r@ == self.thumbnails_view(),
    {
        self.thumbnails_dir.as_str()
    }

    /// Duplicate detection for content with hash `hash`: when both its
    /// marker and its thumbnail are on disk, the stored thumbnail is returned
    /// so the caller can reuse it; otherwise the content is new.
    pub fn deduplicate(&self, hash: u64, marker_exists: bool, thumb_exists: bool) -> (r: Option<AssetRef>)
        ensures
            (marker_exists && thumb_exists) <==> r is Some,
            r matches Some(a) ==> {
                &&& joined(self.thumbnails_view(), thumb_name(hash), a.path@)
                &&& a.asset_type == AssetType::Thumbnail
                &&& a.content_hash@ == hex16(hash as nat)
            },
    {
        if marker_exists && thumb_exists {
            Some(AssetRef {
                path: thumbnail_path(self.thumbnails_dir.as_str(), hash),
                asset_type: AssetType::Thumbnail,
                content_hash: hash_to_hex(hash),
            })
        } else {
            None
        }
    }

    /// The record of a cover stored for `game_id` from content with hash `hash`.
    pub fn store_cover(&self, game_id: &str, hash: u64) -> (a: AssetRef)
        ensures
            joined(self.covers_view(), webp_name(game_id@), a.path@),
            a.asset_type == AssetType::Cover,
            a.content_hash@ == hex16(hash as nat),
    {
        AssetRef {
            path: cover_path(self.covers_dir.as_str(), game_id),
            asset_type: AssetType::Cover,
            content_hash: hash_to_hex(hash),
        }
    }

    /// The record of a background stored for `game_id` from content with hash `hash`.
    pub fn store_background(&self, game_id: &str, hash: u64) -> (a: AssetRef)
        ensures
            joined(self.backgrounds_view(), webp_name(game_id@), a.path@),
            a.asset_type == AssetType::Background,
            a.content_hash@ == hex16(hash as nat),
    {
        AssetRef {
            path: background_path(self.backgrounds_dir.as_str(), game_id),
            asset_type: AssetType::Background,
            content_hash: hash_to_hex(hash),
        }
    }

    /// The cover path for `game_id` when the file is on disk.
    pub fn get_cover(&self, game_id: &str, on_disk: bool) -> (r: Option<String>)
        ensures
            on_disk <==> r is Some,
            r matches Some(p) ==> joined(self.covers_view(), webp_name(game_id@), p@),
    {
        if on_disk {
            Some(cover_path(self.covers_dir.as_str(), game_id))
        } else {
            None
        }
    }

    /// The background path for `game_id` when the file is on disk.
    pub fn get_background(&self, game_id: &str, on_disk: bool) -> (r: Option<String>)
        ensures
            on_disk <==> r is Some,
            r matches Some(p) ==> joined(self.backgrounds_view(), webp_name(game_id@), p@),
    {
        if on_disk {
            Some(background_path(self.backgrounds_dir.as_str(), game_id))
        } else {
            None
        }
    }

    /// The folder holding a game's gallery: `<gallery>/<game_id>`.
    pub fn game_gallery_dir(&self, game_id: &str) -> (d: String)
        ensures
            joined(self.gallery_view(), game_id@, d@),
    {
        path_join(self.gallery_dir.as_str(), game_id)
    }

    /// The record of a gallery image of `game_id` stored under the file
    /// stem `stem` from content with hash `hash`:
    /// `<gallery>/<game_id>/<stem>.webp`.
    pub fn gallery_ref(&self, game_id: &str, stem: &str, hash: u64) -> (a: AssetRef)
        ensures
            exists|dir: Seq<char>| #[trigger] joined(self.gallery_view(), game_id@, dir) && joined(dir, webp_name(stem@), a.path@),
            a.asset_type == AssetType::Gallery,
            a.content_hash@ == hex16(hash as nat),
    {
        let dir = self.game_gallery_dir(game_id);
        let name = webp_file_name(stem);
        let path = path_join(dir.as_str(), name.as_str());
        assert(joined(self.gallery_view(), game_id@, dir@));
        AssetRef { path, asset_type: AssetType::Gallery, content_hash: hash_to_hex(hash) }
    }

    /// The record of a new gallery image of `game_id` (content hash
    /// `hash`): named by a fresh random UUID,
    /// `<gallery>/<game_id>/<uuid>.webp`.
    pub fn store_gallery_image(&self, game_id: &str, hash: u64) -> (a: AssetRef)
        ensures
            exists|dir: Seq<char>, stem: Seq<char>| #![trigger joined(self.gallery_view(), game_id@, dir), is_uuid_text(stem)]
                joined(self.gallery_view(), game_id@, dir) && is_uuid_text(stem) && joined(dir, webp_name(stem), a.path@),
            a.asset_type == AssetType::Gallery,
            a.content_hash@ == hex16(hash as nat),
    {
        let stem = new_uuid_text();
        let a = self.gallery_ref(game_id, stem.as_str(), hash);
        let ghost dir = choose|dir: Seq<char>| #[trigger] joined(self.gallery_view(), game_id@, dir) && joined(dir, webp_name(stem@), a.path@);
        assert(joined(self.gallery_view(), game_id@, dir) && is_uuid_text(stem@) && joined(dir, webp_name(stem@), a.path@));
        a
    }

    /// Storage statistics from the measured directory sizes and file
    /// counts: covers, backgrounds and thumbnails are counted one level deep,
    /// the gallery recursively; the file count leaves out de-duplication
    /// markers (it counts thumbnail `.webp` files only).
    pub fn get_storage_stats(
        &self,
        covers_bytes: u64,
        backgrounds_bytes: u64,
        gallery_bytes: u64,
        thumbnails_bytes: u64,
        covers_files: u64,
        backgrounds_files: u64,
        gallery_files: u64,
        thumbnail_webp_files: u64,
    ) -> (s: StorageStats)
        requires
            covers_bytes + backgrounds_bytes + gallery_bytes + thumbnails_bytes <= u64::MAX,
            covers_files + backgrounds_files + gallery_files + thumbnail_webp_files <= u64::MAX,
        ensures
            s.total_bytes == covers_bytes + backgrounds_bytes + gallery_bytes + thumbnails_bytes,
            s.covers_bytes == covers_bytes,
            s.backgrounds_bytes == backgrounds_bytes,
            s.gallery_bytes == gallery_bytes,
            s.thumbnails_bytes == thumbnails_bytes,
            s.file_count == covers_files + backgrounds_files + gallery_files + thumbnail_webp_files,
    {
        StorageStats {
            total_bytes: covers_bytes + backgrounds_bytes + gallery_bytes + thumbnails_bytes,
            covers_bytes,
            backgrounds_bytes,
            gallery_bytes,
            thumbnails_bytes,
            file_count: covers_files + backgrounds_files + gallery_files + thumbnail_webp_files,
        }
    }
}

/// The text of a hyphenated lower-case UUID: 36 characters, each a
/// lower-case hex digit or a hyphen.
pub open spec fn is_uuid_text(s: Seq<char>) -> bool {
    &&& s.len() == 36
    &&& forall|i: int| 0 <= i < s.len() ==> ('0' <= #[trigger] s[i] <= '9') || ('a' <= s[i] <= 'f') || s[i] == '-'
}

/// `Uuid::new_v4().to_string()`: a fresh random UUID in the crate's
/// `Display` form, the hyphenated lower-case text of 36 characters.  Which
/// UUID comes out is left open.
#[verifier::external_body]
fn new_uuid_text() -> (s: String)
    ensures
        is_uuid_text(s@),
{
    uuid::Uuid::new_v4().to_string()
}

/// The paths among `paths` that end in a `.webp` extension, in order.
pub open spec fn webp_paths(paths: Seq<String>) -> Seq<Seq<char>>
    decreases paths.len(),
{
    if paths.len() == 0 {
        Seq::empty()
    } else {
        webp_paths(paths.drop_last()) + if path_extension(paths.last()@) == Some("webp"@) {
            seq![paths.last()@]
        } else {
            Seq::empty()
        }
    }
}

/// The gallery of a game from the entries of its folder: the `.webp`
/// files, sorted by path, with no content hash.
pub fn gallery_listing(paths: &Vec<String>) -> (r: Vec<AssetRef>)
    ensures
        ({
            let kept = webp_paths(paths@);
            exists|order: Seq<usize>| #[trigger] stable_by_text(kept, order, false) && r@.len() == kept.len()
                && forall|j: int| 0 <= j < r@.len() ==> {
                    &&& (#[trigger] r@[j]).path@ == kept[order[j] as int]
                    &&& r@[j].asset_type == AssetType::Gallery
                    &&& r@[j].content_hash@.len() == 0
                }
        }),
{
    proof {
        reveal_strlit("webp");
    }
    let mut kept: Vec<String> = Vec::new();
    let mut i: usize = 0;
    while i < paths.len()
        invariant
            i <= paths@.len(),
            kept@.map_values(|k: String| k@) == webp_paths(paths@.take(i as int)),
        decreases paths@.len() - i,
    {
        proof {
            assert(paths@.take(i as int + 1).drop_last() =~= paths@.take(i as int));
        }
        let is_webp = match extension_of(paths[i].as_str()) {
            Some(e) => text_eq(e.as_str(), "webp"),
            None => false,
        };
        let ghost before = kept@;
        if is_webp {
            kept.push(paths[i].clone());
            assert(kept@.map_values(|k: String| k@) =~= before.map_values(|k: String| k@).push(paths@[i as int]@));
        }
        i = i + 1;
    }
    assert(paths@.take(paths@.len() as int) =~= paths@);
    let ghost kv = kept@.map_values(|k: String| k@);
    let order = sort_by_text(&kept, false);
    let mut r: Vec<AssetRef> = Vec::new();
    let mut j: usize = 0;
    while j < order.len()
        invariant
            j <= order@.len(),
            kv == kept@.map_values(|k: String| k@),
            stable_by_text(kv, order@, false),
            order@.len() == kv.len(),
            kept@.len() == kv.len(),
            forall|q: int| 0 <= q < order@.len() ==> #[trigger] order@[q] < kv.len(),
            r@.len() == j,
            forall|q: int| 0 <= q < j ==> {
                &&& (#[trigger] r@[q]).path@ == kv[order@[q] as int]
                &&& r@[q].asset_type == AssetType::Gallery
                &&& r@[q].content_hash@.len() == 0
            },
        decreases order@.len() - j,
    {
        let k = order[j];
        r.push(AssetRef { path: kept[k].clone(), asset_type: AssetType::Gallery, content_hash: String::new() });
        j = j + 1;
    }
    r
}

/// An asset entry named `stem` belongs to no game in `game_ids`.
pub open spec fn is_orphan(stem: Option<String>, game_ids: Seq<String>) -> bool {
    match stem {
        Some(s) => !seq_has_text(game_ids, s@),
        None => false,
    }
}

/// Positions (ascending) of the directory entries whose name stem matches
/// no game id: the files and gallery folders that orphan clean-up removes.
/// Entries whose name is not valid text (`None`) are kept.
pub fn orphan_positions(stems: &Vec<Option<String>>, game_ids: &Vec<String>) -> (r: Vec<usize>)
    ensures
        forall|i: int, j: int| 0 <= i < j < r@.len() ==> r@[i] < r@[j],
        forall|i: int| 0 <= i < r@.len() ==> #[trigger] r@[i] < stems@.len() && is_orphan(stems@[r@[i] as int], game_ids@),
        forall|p: int| 0 <= p < stems@.len() && is_orphan(#[trigger] stems@[p], game_ids@) ==> r@.contains(p as usize),
{
    let mut r: Vec<usize> = Vec::new();
    let mut i: usize = 0;
    while i < stems.len()
        invariant
            i <= stems.len(),
            forall|a: int, b: int| 0 <= a < b < r@.len() ==> r@[a] < r@[b],
            forall|a: int| 0 <= a < r@.len() ==> #[trigger] r@[a] < i && is_orphan(stems@[r@[a] as int], game_ids@),
            forall|p: int| 0 <= p < i && is_orphan(#[trigger] stems@[p], game_ids@) ==> r@.contains(p as usize),
        decreases stems.len() - i,
    {
        let orphan = match &stems[i] {
            Some(s) => !contains_string(game_ids, s.as_str()),
            None => false,
        };
        if orphan {
            let ghost before = r@;
            r.push(i);
            proof {
                assert forall|p: int| 0 <= p < i + 1 && is_orphan(#[trigger] stems@[p], game_ids@) implies r@.contains(p as usize) by {
                    if p < i {
                        let k = choose|k: int| 0 <= k < before.len() && before[k] == p as usize;
                        assert(r@[k] == p as usize);
                    } else {
                        assert(r@[before.len() as int] == i);
                    }
                }
            }
        }
        i = i + 1;
    }
    r
}

/// Number of files the successful removals deleted.
pub open spec fn removed_count(outcomes: Seq<(bool, u64, u64)>) -> nat
    decreases outcomes.len(),
{
    if outcomes.len() == 0 {
        0
    } else {
        removed_count(outcomes.drop_last()) + if outcomes.last().0 { outcomes.last().1 as nat } else { 0nat }
    }
}

/// Bytes of the successful removals.
pub open spec fn removed_bytes(outcomes: Seq<(bool, u64, u64)>) -> nat
    decreases outcomes.len(),
{
    if outcomes.len() == 0 {
        0
    } else {
        removed_bytes(outcomes.drop_last()) + if outcomes.last().0 { outcomes.last().2 as nat } else { 0nat }
    }
}

proof fn lemma_removed_prefix(outcomes: Seq<(bool, u64, u64)>, k: int)
    requires
        0 <= k <= outcomes.len(),
    ensures
        removed_bytes(outcomes.take(k)) <= removed_bytes(outcomes),
        removed_count(outcomes.take(k)) <= removed_count(outcomes),
    decreases outcomes.len() - k,
{
    if k < outcomes.len() {
        lemma_removed_prefix(outcomes, k + 1);
        assert(outcomes.take(k + 1).drop_last() =~= outcomes.take(k));
    } else {
        assert(outcomes.take(k) =~= outcomes);
    }
}

impl CleanupResult {
    /// Totals of an orphan clean-up run from each removal attempt
    /// (`(removed, files, bytes)`: a file, or a folder with the files in
    /// it): only removals that succeeded count.
    pub fn tally(outcomes: &Vec<(bool, u64, u64)>) -> (c: CleanupResult)
        requires
            removed_bytes(outcomes@) <= u64::MAX,
            removed_count(outcomes@) <= u64::MAX,
        ensures
            c.deleted_count == removed_count(outcomes@),
            c.bytes_freed == removed_bytes(outcomes@),
    {
        let mut deleted_count: u64 = 0;
        let mut bytes_freed: u64 = 0;
        let mut i: usize = 0;
        while i < outcomes.len()
            invariant
                i <= outcomes.len(),
                removed_bytes(outcomes@) <= u64::MAX,
                removed_count(outcomes@) <= u64::MAX,
                deleted_count == removed_count(outcomes@.take(i as int)),
                bytes_freed == removed_bytes(outcomes@.take(i as int)),
            decreases outcomes.len() - i,
        {
            proof {
                let t = outcomes@.take(i as int + 1);
                assert(t.drop_last() =~= outcomes@.take(i as int));
                lemma_removed_prefix(outcomes@, i as int + 1);
            }
            let (removed, files, size) = outcomes[i];
            if removed {
                deleted_count = deleted_count + files;
                bytes_freed = bytes_freed + size;
            }
            i = i + 1;
        }
        assert(outcomes@.take(outcomes.len() as int) =~= outcomes@);
        CleanupResult { deleted_count, bytes_freed }
    }
}

} // verus!
