//! Metadata enrichment: turning provider results into library records,
//! deciding between cache and network, and accounting for bulk runs.

use vstd::prelude::*;
use crate::numfmt::{dec_int, parse_i32, parse_i32_spec, push_str, push_u64};
use crate::text::{join, join_seq, lemma_split_nonempty, split_on, split_seq};
use crate::background::dup_opt_string;
use crate::recommend::opt_view;

verus! {

/// A genre of a RAWG game.
pub struct RawgGenre {
    pub name: String,
}

/// A platform of a RAWG game.
pub struct RawgPlatform {
    pub name: String,
}

/// The wrapper RAWG puts around each platform.
pub struct RawgPlatformWrapper {
    pub platform: RawgPlatform,
}

/// A game as RAWG describes it (its floating-point rating is carried beside
/// it by the caller).
pub struct RawgGame {
    pub id: i64,
    pub name: String,
    pub released: Option<String>,
    pub background_image: Option<String>,
    pub genres: Option<Vec<RawgGenre>>,
    pub platforms: Option<Vec<RawgPlatformWrapper>>,
    pub metacritic: Option<i32>,
}

/// A metadata match shown to the user and cached.
pub struct MetadataSearchResult {
    pub provider: String,
    pub api_id: i64,
    pub name: String,
    pub release_year: Option<i32>,
    pub genres: String,
    pub cover_url: Option<String>,
}

impl MetadataSearchResult {
    /// A field-by-field copy.
    pub fn duplicate(&self) -> (r: Self)
        ensures
            r == *self,
    {
        MetadataSearchResult {
            provider: self.provider.clone(),
            api_id: self.api_id,
            name: self.name.clone(),
            release_year: self.release_year,
            genres: self.genres.clone(),
            cover_url: dup_opt_string(&self.cover_url),
        }
    }
}

/// The year of a RAWG release date: the text before the first `-`, read
/// as an `i32`.
pub open spec fn release_year_of(released: Option<Seq<char>>) -> Option<int> {
    match released {
        Some(d) => parse_i32_spec(split_seq(d, '-')[0]),
        None => None,
    }
}

/// The genre names joined by `", "`; empty without a genre list.
pub open spec fn genres_text(genres: Option<Seq<RawgGenre>>) -> Seq<char> {
    match genres {
        Some(g) => join_seq(g.map_values(|x: RawgGenre| x.name@), ", "@),
        None => Seq::empty(),
    }
}

/// The names of the genres, in order.
fn genre_names(genres: &Vec<RawgGenre>) -> (r: Vec<String>)
    ensures
        r@.map_values(|s: String| s@) == genres@.map_values(|x: RawgGenre| x.name@),
{
    let mut r: Vec<String> = Vec::new();
    let mut i: usize = 0;
    while i < genres.len()
        invariant
            i <= genres.len(),
            r@.len() == i,
            forall|j: int| 0 <= j < i ==> (#[trigger] r@[j])@ == genres@[j].name@,
        decreases genres.len() - i,
    {
        r.push(genres[i].name.clone());
        i = i + 1;
    }
    assert(r@.map_values(|s: String| s@) =~= genres@.map_values(|x: RawgGenre| x.name@));
    r
}

/// `rawg_to_metadata`: a RAWG game as a metadata result.
pub fn rawg_to_metadata(game: &RawgGame) -> (r: MetadataSearchResult)
    ensures
        r.provider@ == "rawg"@,
        r.api_id == game.id,
        r.name@ == game.name@,
        match r.release_year {
            Some(y) => release_year_of(opt_view(game.released)) == Some(y as int),
            None => release_year_of(opt_view(game.released)).is_none(),
        },
        r.genres@ == genres_text(match game.genres {
            Some(g) => Some(g@),
            None => None,
        }),
        opt_view(r.cover_url) == opt_view(game.background_image),
{
    let genres = match &game.genres {
        Some(g) => join(&genre_names(g), ", "),
        None => String::new(),
    };
    let release_year = match &game.released {
        Some(d) => {
            let parts = split_on(d.as_str(), '-');
            proof {
                lemma_split_nonempty(d@, '-');
                assert(parts@.map_values(|p: String| p@).len() == parts@.len());
                assert(parts@.map_values(|p: String| p@)[0] == parts@[0]@);
            }
            parse_i32(parts[0].as_str())
        },
        None => None,
    };
    MetadataSearchResult {
        provider: "rawg".to_string(),
        api_id: game.id,
        name: game.name.clone(),
        release_year,
        genres,
        cover_url: dup_opt_string(&game.background_image),
    }
}

/// How one enrichment ended.
#[derive(Clone, Copy, Debug, PartialEq, Eq, Structural)]
pub enum EnrichmentStatus {
    Success,
    NotFound,
    Failed,
    Cached,
}

/// The outcome of enriching one game.
pub struct EnrichmentResult {
    pub game_id: String,
    pub status: EnrichmentStatus,
    pub metadata: Option<MetadataSearchResult>,
    pub error: Option<String>,
}

/// What a title lookup does first.
#[derive(Clone, Copy, Debug, PartialEq, Eq, Structural)]
pub enum LookupPlan {
    /// Answer from the cache.
    UseCache,
    /// Ask RAWG.
    Fetch,
    /// No API key is configured.
    MissingKey,
}

/// Single-game enrichment: the API key is checked first, then the cache.
pub fn enrich_plan(has_api_key: bool, has_cached: bool) -> (p: LookupPlan)
    ensures
        p == (if !has_api_key {
            LookupPlan::MissingKey
        } else if has_cached {
            LookupPlan::UseCache
        } else {
            LookupPlan::Fetch
        }),
{
    if !has_api_key {
        LookupPlan::MissingKey
    } else if has_cached {
        LookupPlan::UseCache
    } else {
        LookupPlan::Fetch
    }
}

/// Title search: the cache is checked first, then the API key.
pub fn search_plan(has_api_key: bool, has_cached: bool) -> (p: LookupPlan)
    ensures
        p == (if has_cached {
            LookupPlan::UseCache
        } else if !has_api_key {
            LookupPlan::MissingKey
        } else {
            LookupPlan::Fetch
        }),
{
    if has_cached {
        LookupPlan::UseCache
    } else if !has_api_key {
        LookupPlan::MissingKey
    } else {
        LookupPlan::Fetch
    }
}

/// The error for a missing API key.
pub fn missing_key_error() -> (e: String)
    ensures
        e@ == "RAWG API key not configured"@,
{
    "RAWG API key not configured".to_string()
}

/// Enrichment answered from the cache.
pub fn cached_enrichment(game_id: String, cached: MetadataSearchResult) -> (r: EnrichmentResult)
    ensures
        r.game_id == game_id,
        r.status == EnrichmentStatus::Cached,
        r.metadata == Some(cached),
        r.error.is_none(),
{
    EnrichmentResult { game_id, status: EnrichmentStatus::Cached, metadata: Some(cached), error: None }
}

/// Enrichment from a RAWG answer: the first match on success, "not found"
/// for an empty list, the error otherwise.
pub fn enrichment_from_fetch(game_id: String, fetched: Result<Vec<MetadataSearchResult>, String>) -> (r: EnrichmentResult)
    ensures
        r.game_id == game_id,
        match fetched {
            Ok(v) => if v@.len() > 0 {
                r.status == EnrichmentStatus::Success && r.metadata == Some(v@[0]) && r.error.is_none()
            } else {
                r.status == EnrichmentStatus::NotFound && r.metadata.is_none() && r.error.is_some()
                    && r.error.unwrap()@ == "No metadata found"@
            },
            Err(e) => r.status == EnrichmentStatus::Failed && r.metadata.is_none() && r.error == Some(e),
        },
{
    match fetched {
        Ok(v) => {
            if v.len() > 0 {
                let first = v[0].duplicate();
                EnrichmentResult { game_id, status: EnrichmentStatus::Success, metadata: Some(first), error: None }
            } else {
                EnrichmentResult {
                    game_id,
                    status: EnrichmentStatus::NotFound,
                    metadata: None,
                    error: Some("No metadata found".to_string()),
                }
            }
        },
        Err(e) => EnrichmentResult { game_id, status: EnrichmentStatus::Failed, metadata: None, error: Some(e) },
    }
}

/// Progress of a bulk enrichment.
#[derive(Clone, Copy, Debug, PartialEq, Eq, Structural)]
pub struct EnrichmentProgress {
    pub total: usize,
    pub completed: usize,
    pub pending: usize,
    pub failed: usize,
}

/// Queue status from its counts: pending is what is neither completed nor
/// failed (never below 0).
pub fn queue_progress(total: usize, completed: usize, failed: usize) -> (p: EnrichmentProgress)
    ensures
        p.total == total,
        p.completed == completed,
        p.failed == failed,
        p.pending == (if total >= completed + failed { total - completed - failed } else if total >= completed {
            0
        } else {
            0
        }),
{
    let a = if total >= completed { total - completed } else { 0 };
    let pending = if a >= failed { a - failed } else { 0 };
    EnrichmentProgress { total, completed, pending, failed }
}

/// Games enriched per batch of a bulk run.
pub const ENRICH_BATCH_SIZE: usize = 5;

/// One title of a bulk run processed: it counts as completed, and as
/// failed when RAWG found nothing or failed.  Returns the new progress and
/// whether the run pauses (six seconds) before the next title — after each
/// full batch while titles remain.
pub fn bulk_step(p: EnrichmentProgress, found: bool) -> (r: (EnrichmentProgress, bool))
    requires
        p.completed < p.total,
        p.failed <= p.completed,
    ensures
        r.0.total == p.total,
        r.0.completed == p.completed + 1,
        r.0.failed == p.failed + if found { 0usize } else { 1usize },
        r.0.pending == p.total - (p.completed + 1),
        r.1 == ((p.completed + 1) % (ENRICH_BATCH_SIZE as int) == 0 && p.completed + 1 < p.total),
{
    let completed = p.completed + 1;
    let failed = if found { p.failed } else { p.failed + 1 };
    let q = EnrichmentProgress { total: p.total, completed, pending: p.total - completed, failed };
    (q, completed % ENRICH_BATCH_SIZE == 0 && completed < p.total)
}

/// The summary of a finished bulk run.
pub fn bulk_summary(p: EnrichmentProgress) -> (m: String)
    ensures
        m@ == "Bulk enrichment complete: "@ + dec_int(p.completed as int) + " processed, "@ + dec_int(
            p.failed as int,
        ) + " failed (of "@ + dec_int(p.total as int) + ")"@,
{
    let mut m = String::new();
    push_str(&mut m, "Bulk enrichment complete: ");
    push_u64(&mut m, p.completed as u64);
    push_str(&mut m, " processed, ");
    push_u64(&mut m, p.failed as u64);
    push_str(&mut m, " failed (of ");
    push_u64(&mut m, p.total as u64);
    push_str(&mut m, ")");
    m
}

/// The summary of a stale-metadata refresh.
pub fn refresh_summary(refreshed: usize, skipped: usize, total: usize) -> (m: String)
    ensures
        m@ == "Metadata refresh: "@ + dec_int(refreshed as int) + " updated, "@ + dec_int(skipped as int)
            + " skipped (of "@ + dec_int(total as int) + " stale)"@,
{
    let mut m = String::new();
    push_str(&mut m, "Metadata refresh: ");
    push_u64(&mut m, refreshed as u64);
    push_str(&mut m, " updated, ");
    push_u64(&mut m, skipped as u64);
    push_str(&mut m, " skipped (of ");
    push_u64(&mut m, total as u64);
    push_str(&mut m, " stale)");
    m
}

/// How fetching one image ended.
pub enum ImageStep {
    /// The download failed with this error.
    DownloadFailed(String),
    /// The download worked but resizing failed with this error.
    ProcessFailed(String),
    /// The processed image is stored at this path.
    Stored(String),
}

/// What a download run reports.
pub struct ImageDownloadResult {
    pub game_id: String,
    pub cover_path: Option<String>,
    pub background_path: Option<String>,
    pub success: bool,
    pub error: Option<String>,
}

/// The stored path of an image step, if it got that far.
pub open spec fn stored_path(s: Option<ImageStep>) -> Option<Seq<char>> {
    match s {
        Some(ImageStep::Stored(p)) => Some(p@),
        _ => None,
    }
}

/// The error message an image step adds, if any (`kind` is "Cover" or
/// "Background").
pub open spec fn step_error(s: Option<ImageStep>, kind: Seq<char>) -> Option<Seq<char>> {
    match s {
        Some(ImageStep::DownloadFailed(e)) => Some(kind + " download failed: "@ + e@),
        Some(ImageStep::ProcessFailed(e)) => Some(kind + " processing failed: "@ + e@),
        _ => None,
    }
}

fn step_message(s: &Option<ImageStep>, cover: bool) -> (m: Option<String>)
    ensures
        match m {
            Some(t) => step_error(*s, if cover { "Cover"@ } else { "Background"@ }) == Some(t@),
            None => step_error(*s, if cover { "Cover"@ } else { "Background"@ }).is_none(),
        },
{
    match s {
        Some(ImageStep::DownloadFailed(e)) => {
            let mut t = String::new();
            if cover {
                push_str(&mut t, "Cover");
            } else {
                push_str(&mut t, "Background");
            }
            push_str(&mut t, " download failed: ");
            push_str(&mut t, e.as_str());
            Some(t)
        },
        Some(ImageStep::ProcessFailed(e)) => {
            let mut t = String::new();
            if cover {
                push_str(&mut t, "Cover");
            } else {
                push_str(&mut t, "Background");
            }
            push_str(&mut t, " processing failed: ");
            push_str(&mut t, e.as_str());
            Some(t)
        },
        _ => None,
    }
}

fn step_path(s: &Option<ImageStep>) -> (p: Option<String>)
    ensures
        opt_view(p) == stored_path(*s),
{
    match s {
        Some(ImageStep::Stored(p)) => Some(p.clone()),
        _ => None,
    }
}

/// The messages of the failed steps, cover first.
pub open spec fn image_errors(cover: Option<ImageStep>, background: Option<ImageStep>) -> Seq<Seq<char>> {
    let a = match step_error(cover, "Cover"@) {
        Some(e) => seq![e],
        None => Seq::empty(),
    };
    let b = match step_error(background, "Background"@) {
        Some(e) => seq![e],
        None => Seq::empty(),
    };
    a + b
}

/// The report of a download run (a step is `None` when no URL was given):
/// the stored paths, success when no step failed, and the failures joined
/// by `"; "`.
pub fn image_download_result(game_id: String, cover: Option<ImageStep>, background: Option<ImageStep>) -> (r: ImageDownloadResult)
    ensures
        r.game_id == game_id,
        opt_view(r.cover_path) == stored_path(cover),
        opt_view(r.background_path) == stored_path(background),
        r.success == (image_errors(cover, background).len() == 0),
        opt_view(r.error) == if image_errors(cover, background).len() == 0 {
            None::<Seq<char>>
        } else {
            Some(join_seq(image_errors(cover, background), "; "@))
        },
{
    let mut errors: Vec<String> = Vec::new();
    match step_message(&cover, true) {
        Some(t) => errors.push(t),
        None => {},
    }
    match step_message(&background, false) {
        Some(t) => errors.push(t),
        None => {},
    }
    proof {
        assert(errors@.map_values(|p: String| p@) =~= image_errors(cover, background));
    }
    let cover_path = step_path(&cover);
    let background_path = step_path(&background);
    let success = errors.len() == 0;
    let error = if success { None } else { Some(join(&errors, "; ")) };
    ImageDownloadResult { game_id, cover_path, background_path, success, error }
}

} // verus!
