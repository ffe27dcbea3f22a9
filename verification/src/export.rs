//! Library export: the Markdown profile report, export summaries, path
//! checks and the size preview.

use vstd::prelude::*;
use crate::numfmt::{dec_int, dec_nat, push_i64, push_str, push_u64};
use crate::dates::{cut_fits, date_part, date_prefix};
use crate::images::{extension_of, path_extension};
use crate::recommend::div_trunc;
use crate::text::{substring, text_eq};

verus! {

/// A row of the top-games table.
pub struct TopGameRow {
    pub title: String,
    pub total_playtime_secs: i64,
    pub status: String,
}

/// A row of the completed-games table.
pub struct CompletedGameRow {
    pub title: String,
    pub genre: Option<String>,
    pub developer: Option<String>,
    pub total_playtime_secs: i64,
}

/// A row of the milestones table.
pub struct MilestoneRow {
    pub title: String,
    pub category: String,
    pub achievement_date: String,
    pub game_title: Option<String>,
    pub points: i64,
}

/// A journal highlight.
pub struct JournalRow {
    pub title: Option<String>,
    pub body: String,
    pub entry_type: String,
    pub created_at: String,
    pub game_title: Option<String>,
}

/// What the profile report shows.
pub struct ProfileReport {
    pub generated_on: String,
    pub total_games: i64,
    pub completed: i64,
    pub playing: i64,
    pub unplayed: i64,
    pub total_secs: i64,
    pub milestones: i64,
    pub top_games: Vec<TopGameRow>,
    pub completed_games: Vec<CompletedGameRow>,
    pub milestone_rows: Vec<MilestoneRow>,
    pub journal_rows: Vec<JournalRow>,
}

/// Remainder of Rust's integer division (sign of the dividend).
pub open spec fn rem_trunc(a: int, b: int) -> int {
    a - b * div_trunc(a, b)
}

/// Optional text, or a stand-in.
pub open spec fn or_text(o: Option<String>, dflt: Seq<char>) -> Seq<char> {
    match o {
        Some(s) => s@,
        None => dflt,
    }
}

/// The report header.
pub open spec fn md_header(date: Seq<char>) -> Seq<char> {
    "# Pirate Harbor — Gaming Profile\n\n"@ + "*Generated on "@ + date + "*\n\n---\n\n"@
}

/// Completed games as a whole percentage of the library.
pub open spec fn completion_pct(completed: int, total: int) -> int {
    if total > 0 { div_trunc(completed * 100, total) } else { 0 }
}

/// The overview table.
pub open spec fn md_overview(r: ProfileReport) -> Seq<char> {
    "## 📊 Library Overview\n\n"@ + "| Stat | Value |\n|------|-------|\n"@ + "| Total Games    | "@ + dec_int(
        r.total_games as int,
    ) + " |\n"@ + "| Completed      | "@ + dec_int(r.completed as int) + " ("@ + dec_int(
        completion_pct(r.completed as int, r.total_games as int),
    ) + "%) |\n"@ + "| Currently Playing | "@ + dec_int(r.playing as int) + " |\n"@ + "| Unplayed       | "@
        + dec_int(r.unplayed as int) + " |\n"@ + "| Total Playtime | "@ + dec_int(div_trunc(r.total_secs as int, 3600))
        + "h |\n"@ + "| Milestones     | "@ + dec_int(r.milestones as int) + " |\n\n"@
}

/// One top-games row, numbered `n`.
pub open spec fn md_top_row(n: int, g: TopGameRow) -> Seq<char> {
    let s = g.total_playtime_secs as int;
    "| "@ + dec_int(n) + " | "@ + g.title@ + " | "@ + dec_int(div_trunc(s, 3600)) + "h "@ + dec_int(
        div_trunc(rem_trunc(s, 3600), 60),
    ) + "m | "@ + g.status@ + " |\n"@
}

/// The top-games rows.
pub open spec fn md_top_rows(rows: Seq<TopGameRow>) -> Seq<char>
    decreases rows.len(),
{
    if rows.len() == 0 {
        Seq::empty()
    } else {
        md_top_rows(rows.drop_last()) + md_top_row(rows.len() as int, rows.last())
    }
}

/// The top-games section.
pub open spec fn md_top(rows: Seq<TopGameRow>) -> Seq<char> {
    "## 🏆 Top 10 Games by Playtime\n\n"@ + "| # | Game | Playtime | Status |\n|---|------|----------|--------|\n"@
        + md_top_rows(rows) + "\n"@
}

/// One completed-games row.
pub open spec fn md_completed_row(g: CompletedGameRow) -> Seq<char> {
    "| "@ + g.title@ + " | "@ + or_text(g.genre, "—"@) + " | "@ + or_text(g.developer, "—"@) + " | "@ + dec_int(
        div_trunc(g.total_playtime_secs as int, 3600),
    ) + "h |\n"@
}

/// The completed-games rows.
pub open spec fn md_completed_rows(rows: Seq<CompletedGameRow>) -> Seq<char>
    decreases rows.len(),
{
    if rows.len() == 0 {
        Seq::empty()
    } else {
        md_completed_rows(rows.drop_last()) + md_completed_row(rows.last())
    }
}

/// The completed-games section.
pub open spec fn md_completed(rows: Seq<CompletedGameRow>) -> Seq<char> {
    "## ✅ Completed Games\n\n"@ + if rows.len() == 0 {
        "*No completed games yet — keep playing!*\n\n"@
    } else {
        "| Game | Genre | Developer | Playtime |\n|------|-------|-----------|----------|\n"@ + md_completed_rows(rows)
            + "\n"@
    }
}

/// One milestone row.
pub open spec fn md_milestone_row(m: MilestoneRow) -> Seq<char> {
    "| "@ + m.title@ + " | "@ + or_text(m.game_title, "—"@) + " | "@ + m.category@ + " | "@ + date_prefix(
        m.achievement_date@,
    ) + " | "@ + dec_int(m.points as int) + " |\n"@
}

/// The milestone rows.
pub open spec fn md_milestone_rows(rows: Seq<MilestoneRow>) -> Seq<char>
    decreases rows.len(),
{
    if rows.len() == 0 {
        Seq::empty()
    } else {
        md_milestone_rows(rows.drop_last()) + md_milestone_row(rows.last())
    }
}

/// The milestones section.
pub open spec fn md_milestones(rows: Seq<MilestoneRow>) -> Seq<char> {
    "## 🏅 Milestones\n\n"@ + if rows.len() == 0 {
        "*No milestones recorded yet.*\n\n"@
    } else {
        "| Milestone | Game | Category | Date | Points |\n|-----------|------|----------|------|--------|\n"@
            + md_milestone_rows(rows) + "\n"@
    }
}

/// A journal body as previewed: at most 200 characters, with an ellipsis
/// when cut.
pub open spec fn body_preview(body: Seq<char>) -> Seq<char> {
    if body.len() > 200 {
        body.take(200) + "…"@
    } else {
        body
    }
}

/// One journal entry.
pub open spec fn md_journal_entry(j: JournalRow) -> Seq<char> {
    "### "@ + or_text(j.title, "Untitled"@) + " `["@ + j.entry_type@ + "]` — *"@ + or_text(j.game_title, "General"@)
        + "* ("@ + date_prefix(j.created_at@) + ")  \n"@ + body_preview(j.body@) + "\n\n"@
}

/// The journal entries.
pub open spec fn md_journal_entries(rows: Seq<JournalRow>) -> Seq<char>
    decreases rows.len(),
{
    if rows.len() == 0 {
        Seq::empty()
    } else {
        md_journal_entries(rows.drop_last()) + md_journal_entry(rows.last())
    }
}

/// The journal section.
pub open spec fn md_journal(rows: Seq<JournalRow>) -> Seq<char> {
    "## 📓 Recent Journal Entries\n\n"@ + if rows.len() == 0 {
        "*No journal entries yet.*\n\n"@
    } else {
        md_journal_entries(rows)
    }
}

/// The closing line.
pub open spec fn md_footer() -> Seq<char> {
    "---\n\n*Exported by Pirate Harbor — Your Gaming Library Manager*\n"@
}

/// The whole report.
pub open spec fn profile_markdown(r: ProfileReport) -> Seq<char> {
    md_header(r.generated_on@) + md_overview(r) + md_top(r.top_games@) + md_completed(r.completed_games@)
        + md_milestones(r.milestone_rows@) + md_journal(r.journal_rows@) + md_footer()
}

/// The report can be rendered: the completion percentage fits, and every
/// date can be cut where the report cuts it.
pub open spec fn report_ok(r: ProfileReport) -> bool {
    &&& (r.total_games > 0 ==> i64::MIN <= r.completed * 100 <= i64::MAX)
    &&& forall|i: int| 0 <= i < r.milestone_rows@.len() ==> cut_fits((#[trigger] r.milestone_rows@[i]).achievement_date@, 10)
    &&& forall|i: int| 0 <= i < r.journal_rows@.len() ==> cut_fits((#[trigger] r.journal_rows@[i]).created_at@, 10)
}

fn trunc_div(a: i64, b: i64) -> (q: i64)
    requires
        b > 0,
    ensures
        q == div_trunc(a as int, b as int),
{
    let x = a as i128;
    let y = b as i128;
    if x >= 0 {
        (x / y) as i64
    } else {
        (-((-x) / y)) as i64
    }
}

fn push_opt(out: &mut String, o: &Option<String>, dflt: &str)
    ensures
        final(out)@ == old(out)@ + or_text(*o, dflt@),
{
    match o {
        Some(s) => push_str(out, s.as_str()),
        None => push_str(out, dflt),
    }
}

fn hours_minutes(secs: i64) -> (r: (i64, i64))
    ensures
        r.0 == div_trunc(secs as int, 3600),
        r.1 == div_trunc(rem_trunc(secs as int, 3600), 60),
{
    let x = secs as i128;
    if x >= 0 {
        ((x / 3600) as i64, ((x % 3600) / 60) as i64)
    } else {
        let p = -x;
        proof {
            assert(rem_trunc(secs as int, 3600) == -(p % 3600));
        }
        ((-(p / 3600)) as i64, (-((p % 3600) / 60)) as i64)
    }
}

fn render_top(out: &mut String, rows: &Vec<TopGameRow>)
    ensures
        final(out)@ == old(out)@ + md_top_rows(rows@),
{
    let ghost start = out@;
    let mut i: usize = 0;
    while i < rows.len()
        invariant
            i <= rows@.len(),
            out@ == start + md_top_rows(rows@.take(i as int)),
        decreases rows@.len() - i,
    {
        let g = &rows[i];
        let (h, m) = hours_minutes(g.total_playtime_secs);
        let ghost before = out@;
        push_str(out, "| ");
        push_u64(out, (i + 1) as u64);
        push_str(out, " | ");
        push_str(out, g.title.as_str());
        push_str(out, " | ");
        push_i64(out, h);
        push_str(out, "h ");
        push_i64(out, m);
        push_str(out, "m | ");
        push_str(out, g.status.as_str());
        push_str(out, " |\n");
        proof {
            let t = rows@.take(i as int + 1);
            assert(t.drop_last() =~= rows@.take(i as int));
            assert(t.last() == rows@[i as int]);
            assert(dec_nat((i + 1) as nat) == dec_int((i + 1) as int));
            assert(out@ =~= before + md_top_row(i as int + 1, rows@[i as int]));
        }
        i = i + 1;
    }
    assert(rows@.take(rows@.len() as int) =~= rows@);
}

fn render_completed(out: &mut String, rows: &Vec<CompletedGameRow>)
    ensures
        final(out)@ == old(out)@ + md_completed_rows(rows@),
{
    let ghost start = out@;
    let mut i: usize = 0;
    while i < rows.len()
        invariant
            i <= rows@.len(),
            out@ == start + md_completed_rows(rows@.take(i as int)),
        decreases rows@.len() - i,
    {
        let g = &rows[i];
        let ghost before = out@;
        push_str(out, "| ");
        push_str(out, g.title.as_str());
        push_str(out, " | ");
        push_opt(out, &g.genre, "—");
        push_str(out, " | ");
        push_opt(out, &g.developer, "—");
        push_str(out, " | ");
        push_i64(out, trunc_div(g.total_playtime_secs, 3600));
        push_str(out, "h |\n");
        proof {
            let t = rows@.take(i as int + 1);
            assert(t.drop_last() =~= rows@.take(i as int));
            assert(t.last() == rows@[i as int]);
            assert(out@ =~= before + md_completed_row(rows@[i as int]));
        }
        i = i + 1;
    }
    assert(rows@.take(rows@.len() as int) =~= rows@);
}

fn render_milestones(out: &mut String, rows: &Vec<MilestoneRow>)
    requires
        forall|i: int| 0 <= i < rows@.len() ==> cut_fits((#[trigger] rows@[i]).achievement_date@, 10),
    ensures
        final(out)@ == old(out)@ + md_milestone_rows(rows@),
{
    let ghost start = out@;
    let mut i: usize = 0;
    while i < rows.len()
        invariant
            i <= rows@.len(),
            forall|q: int| 0 <= q < rows@.len() ==> cut_fits((#[trigger] rows@[q]).achievement_date@, 10),
            out@ == start + md_milestone_rows(rows@.take(i as int)),
        decreases rows@.len() - i,
    {
        let m = &rows[i];
        assert(cut_fits(rows@[i as int].achievement_date@, 10));
        let ghost before = out@;
        push_str(out, "| ");
        push_str(out, m.title.as_str());
        push_str(out, " | ");
        push_opt(out, &m.game_title, "—");
        push_str(out, " | ");
        push_str(out, m.category.as_str());
        push_str(out, " | ");
        let d = date_part(m.achievement_date.as_str());
        push_str(out, d.as_str());
        push_str(out, " | ");
        push_i64(out, m.points);
        push_str(out, " |\n");
        proof {
            let t = rows@.take(i as int + 1);
            assert(t.drop_last() =~= rows@.take(i as int));
            assert(t.last() == rows@[i as int]);
            assert(out@ =~= before + md_milestone_row(rows@[i as int]));
        }
        i = i + 1;
    }
    assert(rows@.take(rows@.len() as int) =~= rows@);
}

fn render_journal_entry(out: &mut String, j: &JournalRow)
    requires
        cut_fits(j.created_at@, 10),
    ensures
        final(out)@ == old(out)@ + md_journal_entry(*j),
{
    let ghost before = out@;
    push_str(out, "### ");
    push_opt(out, &j.title, "Untitled");
    push_str(out, " `[");
    push_str(out, j.entry_type.as_str());
    push_str(out, "]` — *");
    push_opt(out, &j.game_title, "General");
    push_str(out, "* (");
    let d = date_part(j.created_at.as_str());
    push_str(out, d.as_str());
    push_str(out, ")  \n");
    let ghost mid = out@;
    if j.body.as_str().unicode_len() > 200 {
        let cut = substring(j.body.as_str(), 0, 200);
        assert(cut@ =~= j.body@.take(200));
        push_str(out, cut.as_str());
        push_str(out, "…");
    } else {
        push_str(out, j.body.as_str());
    }
    assert(out@ =~= mid + body_preview(j.body@));
    push_str(out, "\n\n");
    assert(out@ =~= before + md_journal_entry(*j));
}

fn render_journal(out: &mut String, rows: &Vec<JournalRow>)
    requires
        forall|i: int| 0 <= i < rows@.len() ==> cut_fits((#[trigger] rows@[i]).created_at@, 10),
    ensures
        final(out)@ == old(out)@ + md_journal_entries(rows@),
{
    let ghost start = out@;
    let mut i: usize = 0;
    while i < rows.len()
        invariant
            i <= rows@.len(),
            forall|q: int| 0 <= q < rows@.len() ==> cut_fits((#[trigger] rows@[q]).created_at@, 10),
            out@ == start + md_journal_entries(rows@.take(i as int)),
        decreases rows@.len() - i,
    {
        let j = &rows[i];
        assert(cut_fits(rows@[i as int].created_at@, 10));
        let ghost before = out@;
        render_journal_entry(out, j);
        proof {
            let t = rows@.take(i as int + 1);
            assert(t.drop_last() =~= rows@.take(i as int));
            assert(t.last() == rows@[i as int]);
            assert(out@ =~= before + md_journal_entry(rows@[i as int]));
        }
        i = i + 1;
    }
    assert(rows@.take(rows@.len() as int) =~= rows@);
}

fn render_overview(md: &mut String, r: &ProfileReport)
    requires
        r.total_games > 0 ==> i64::MIN <= r.completed * 100 <= i64::MAX,
    ensures
        final(md)@ == old(md)@ + md_overview(*r),
{
    let ghost before = md@;
    let pct: i64 = if r.total_games > 0 { trunc_div(r.completed * 100, r.total_games) } else { 0 };
    push_str(md, "## 📊 Library Overview\n\n");
    push_str(md, "| Stat | Value |\n|------|-------|\n");
    push_str(md, "| Total Games    | ");
    push_i64(md, r.total_games);
    push_str(md, " |\n");
    push_str(md, "| Completed      | ");
    push_i64(md, r.completed);
    push_str(md, " (");
    push_i64(md, pct);
    push_str(md, "%) |\n");
    push_str(md, "| Currently Playing | ");
    push_i64(md, r.playing);
    push_str(md, " |\n");
    push_str(md, "| Unplayed       | ");
    push_i64(md, r.unplayed);
    push_str(md, " |\n");
    push_str(md, "| Total Playtime | ");
    push_i64(md, trunc_div(r.total_secs, 3600));
    push_str(md, "h |\n");
    push_str(md, "| Milestones     | ");
    push_i64(md, r.milestones);
    push_str(md, " |\n\n");
    assert(md@ =~= before + md_overview(*r));
}

fn render_sections(md: &mut String, r: &ProfileReport)
    requires
        report_ok(*r),
    ensures
        final(md)@ == old(md)@ + md_top(r.top_games@) + md_completed(r.completed_games@) + md_milestones(r.milestone_rows@)
            + md_journal(r.journal_rows@),
{
    let ghost s0 = md@;
    push_str(md, "## 🏆 Top 10 Games by Playtime\n\n");
    push_str(md, "| # | Game | Playtime | Status |\n|---|------|----------|--------|\n");
    render_top(md, &r.top_games);
    push_str(md, "\n");
    assert(md@ =~= s0 + md_top(r.top_games@));
    let ghost s1 = md@;
    push_str(md, "## ✅ Completed Games\n\n");
    if r.completed_games.len() == 0 {
        push_str(md, "*No completed games yet — keep playing!*\n\n");
    } else {
        push_str(md, "| Game | Genre | Developer | Playtime |\n|------|-------|-----------|----------|\n");
        render_completed(md, &r.completed_games);
        push_str(md, "\n");
    }
    assert(md@ =~= s1 + md_completed(r.completed_games@));
    let ghost s2 = md@;
    push_str(md, "## 🏅 Milestones\n\n");
    if r.milestone_rows.len() == 0 {
        push_str(md, "*No milestones recorded yet.*\n\n");
    } else {
        push_str(md, "| Milestone | Game | Category | Date | Points |\n|-----------|------|----------|------|--------|\n");
        render_milestones(md, &r.milestone_rows);
        push_str(md, "\n");
    }
    assert(md@ =~= s2 + md_milestones(r.milestone_rows@));
    let ghost s3 = md@;
    push_str(md, "## 📓 Recent Journal Entries\n\n");
    if r.journal_rows.len() == 0 {
        push_str(md, "*No journal entries yet.*\n\n");
    } else {
        render_journal(md, &r.journal_rows);
    }
    assert(md@ =~= s3 + md_journal(r.journal_rows@));
    assert(md@ =~= s0 + md_top(r.top_games@) + md_completed(r.completed_games@) + md_milestones(r.milestone_rows@)
        + md_journal(r.journal_rows@));
}

/// Render the Markdown profile report.
pub fn render_profile_markdown(r: &ProfileReport) -> (md: String)
    requires
        report_ok(*r),
    ensures
        md@ == profile_markdown(*r),
{
    let mut md = String::new();
    push_str(&mut md, "# Pirate Harbor — Gaming Profile\n\n");
    push_str(&mut md, "*Generated on ");
    push_str(&mut md, r.generated_on.as_str());
    push_str(&mut md, "*\n\n---\n\n");
    assert(md@ =~= md_header(r.generated_on@));
    render_overview(&mut md, r);
    render_sections(&mut md, r);
    push_str(&mut md, "---\n\n*Exported by Pirate Harbor — Your Gaming Library Manager*\n");
    assert(md@ =~= profile_markdown(*r));
    md
}

/// The summary of a Markdown export (`bytes` is the report's size).
pub fn markdown_export_summary(path: &str, bytes: u64) -> (m: String)
    ensures
        m@ == "Profile exported to '"@ + path@ + "' ("@ + dec_nat(bytes as nat) + " bytes)"@,
{
    let mut m = String::new();
    push_str(&mut m, "Profile exported to '");
    push_str(&mut m, path);
    push_str(&mut m, "' (");
    push_u64(&mut m, bytes);
    push_str(&mut m, " bytes)");
    m
}

/// The summary of a JSON export (`bytes` is the document's size).
pub fn json_export_summary(game_count: u64, path: &str, bytes: u64) -> (m: String)
    ensures
        m@ == "Exported "@ + dec_nat(game_count as nat) + " games to '"@ + path@ + "' ("@ + dec_nat(
            (bytes / 1024) as nat,
        ) + " KB)"@,
{
    let mut m = String::new();
    push_str(&mut m, "Exported ");
    push_u64(&mut m, game_count);
    push_str(&mut m, " games to '");
    push_str(&mut m, path);
    push_str(&mut m, "' (");
    push_u64(&mut m, bytes / 1024);
    push_str(&mut m, " KB)");
    m
}

/// The two export formats.
#[derive(Clone, Copy, Debug, PartialEq, Eq, Structural)]
pub enum ExportFormat {
    Json,
    Markdown,
}

/// Check an export path's extension: `json` for the library dump, `md`
/// for the profile report.
pub fn check_export_path(path: &str, format: ExportFormat) -> (r: Result<(), String>)
    ensures
        r.is_ok() <==> path_extension(path@) == Some(match format {
            ExportFormat::Json => "json"@,
            ExportFormat::Markdown => "md"@,
        }),
        r.is_err() ==> r.unwrap_err()@ == match format {
            ExportFormat::Json => "Export file must have a .json extension (e.g. export.json)"@,
            ExportFormat::Markdown => "Profile export file must have a .md extension (e.g. profile.md)"@,
        },
{
    let ok = match extension_of(path) {
        Some(e) => match format {
            ExportFormat::Json => text_eq(e.as_str(), "json"),
            ExportFormat::Markdown => text_eq(e.as_str(), "md"),
        },
        None => false,
    };
    if ok {
        Ok(())
    } else {
        match format {
            ExportFormat::Json => Err("Export file must have a .json extension (e.g. export.json)".to_string()),
            ExportFormat::Markdown => Err("Profile export file must have a .md extension (e.g. profile.md)".to_string()),
        }
    }
}

/// Counts shown before an export, with a rough size estimate.
pub struct ExportPreview {
    pub game_count: i64,
    pub milestone_count: i64,
    pub journal_count: i64,
    pub session_count: i64,
    pub estimated_size_bytes: i64,
}

/// The size estimate: about 2 KiB per game, 512 bytes per milestone and
/// journal entry, 256 bytes per session.
pub open spec fn estimated_size(games: int, milestones: int, journal: int, sessions: int) -> int {
    games * 2048 + milestones * 512 + journal * 512 + sessions * 256
}

/// The export preview from the four counts.
pub fn build_export_preview(game_count: i64, milestone_count: i64, journal_count: i64, session_count: i64) -> (p: ExportPreview)
    requires
        0 <= game_count,
        0 <= milestone_count,
        0 <= journal_count,
        0 <= session_count,
        estimated_size(game_count as int, milestone_count as int, journal_count as int, session_count as int) <= i64::MAX,
    ensures
        p.game_count == game_count,
        p.milestone_count == milestone_count,
        p.journal_count == journal_count,
        p.session_count == session_count,
        p.estimated_size_bytes == estimated_size(game_count as int, milestone_count as int, journal_count as int, session_count as int),
{
    ExportPreview {
        game_count,
        milestone_count,
        journal_count,
        session_count,
        estimated_size_bytes: game_count * 2048 + milestone_count * 512 + journal_count * 512 + session_count * 256,
    }
}

} // verus!
