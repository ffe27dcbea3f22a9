//! Steam achievement mappings: the rows kept per game, the tracking status
//! report, and which imported definitions become mappings.

use vstd::prelude::*;

verus! {

/// Points given to each achievement imported from Steam's schema.
pub const IMPORTED_POINTS: i32 = 10;

/// A single Steam achievement mapped to a display name for one game.
#[derive(Debug)]
pub struct AchievementMapping {
    pub id: String,
    pub game_id: String,
    pub steam_id: String,
    pub display_name: String,
    pub description: Option<String>,
    pub points: i32,
    pub created_at: String,
}

/// Per-game achievement tracking status.
#[derive(Debug)]
pub struct TrackingStatus {
    pub enabled: bool,
    pub steam_app_id: Option<String>,
    pub mapping_count: usize,
}

/// One achievement definition from a game's Steam schema.
#[derive(Debug)]
pub struct AchievementDef {
    pub name: String,
    pub display_name: String,
    pub description: Option<String>,
}

/// The status report: tracking is on when the stored flag is non-zero, and
/// a mapping count the query could not give counts as zero.
pub fn tracking_status(enabled_flag: i32, steam_app_id: Option<String>, mapping_count: Option<i64>) -> (s:
    TrackingStatus)
    ensures
        s.enabled == (enabled_flag != 0),
        s.steam_app_id == steam_app_id,
        s.mapping_count == match mapping_count {
            Some(n) => n as usize,
            None => 0usize,
        },
{
    let count: usize = match mapping_count {
        Some(n) => n as usize,
        None => 0,
    };
    TrackingStatus { enabled: enabled_flag != 0, steam_app_id, mapping_count: count }
}

/// The positions, in order, whose insert changed a row.
pub open spec fn inserted_positions(changed: Seq<usize>) -> Seq<int>
    decreases changed.len(),
{
    if changed.len() == 0 {
        Seq::empty()
    } else {
        let rest = inserted_positions(changed.drop_last());
        if changed.last() > 0 {
            rest.push(changed.len() - 1)
        } else {
            rest
        }
    }
}

/// The mapping an import stores for a definition.
pub open spec fn imported_from(
    m: AchievementMapping,
    def: AchievementDef,
    id: String,
    game_id: String,
    created_at: String,
) -> bool {
    &&& m.id == id
    &&& m.game_id == game_id
    &&& m.steam_id == def.name
    &&& m.display_name == def.display_name
    &&& m.description == def.description
    &&& m.points == IMPORTED_POINTS
    &&& m.created_at == created_at
}

/// The mappings an import inserted: for each definition whose insert changed
/// a row, in order, a mapping with the id made for it, the game, the
/// definition's names and the fixed import points.
pub fn imported_mappings(
    game_id: &String,
    created_at: &String,
    defs: &Vec<AchievementDef>,
    ids: &Vec<String>,
    changed: &Vec<usize>,
) -> (r: Vec<AchievementMapping>)
    requires
        defs.len() == ids.len(),
        ids.len() == changed.len(),
    ensures
        r.len() == inserted_positions(changed@).len(),
        forall|k: int|
            0 <= k < r.len() ==> imported_from(
                #[trigger] r[k],
                defs[inserted_positions(changed@)[k]],
                ids[inserted_positions(changed@)[k]],
                *game_id,
                *created_at,
            ),
{
    let mut r: Vec<AchievementMapping> = Vec::new();
    let mut i: usize = 0;
    while i < changed.len()
        invariant
            i <= changed.len(),
            defs.len() == ids.len(),
            ids.len() == changed.len(),
            r.len() == inserted_positions(changed@.take(i as int)).len(),
            forall|k: int|
                0 <= k < r.len() ==> imported_from(
                    #[trigger] r[k],
                    defs[inserted_positions(changed@.take(i as int))[k]],
                    ids[inserted_positions(changed@.take(i as int))[k]],
                    *game_id,
                    *created_at,
                ),
        decreases changed.len() - i,
    {
        let ghost before = changed@.take(i as int);
        let ghost after = changed@.take(i + 1);
        assert(after.drop_last() =~= before);
        if changed[i] > 0 {
            let d = &defs[i];
            let description = match &d.description {
                Some(t) => Some(t.clone()),
                None => None,
            };
            r.push(
                AchievementMapping {
                    id: ids[i].clone(),
                    game_id: game_id.clone(),
                    steam_id: d.name.clone(),
                    display_name: d.display_name.clone(),
                    description,
                    points: IMPORTED_POINTS,
                    created_at: created_at.clone(),
                },
            );
        }
        i = i + 1;
    }
    assert(changed@.take(changed.len() as int) =~= changed@);
    r
}

/// The statement that records a mapping, replacing one with the same key.
pub const UPSERT_MAPPING: &'static str = "INSERT OR REPLACE INTO steam_achievement_mappings
         (id, game_id, steam_id, display_name, description, points, created_at)
         VALUES (?1, ?2, ?3, ?4, ?5, ?6, ?7)";

/// The statement that records an imported mapping, keeping an existing one.
pub const IMPORT_MAPPING: &'static str = "INSERT OR IGNORE INTO steam_achievement_mappings
                 (id, game_id, steam_id, display_name, description, points, created_at)
                 VALUES (?1, ?2, ?3, ?4, ?5, 10, ?6)";

/// A game's mappings, ordered by Steam id.
pub const SELECT_MAPPINGS: &'static str = "SELECT id, game_id, steam_id, display_name, description, points, created_at
             FROM steam_achievement_mappings
             WHERE game_id = ?1
             ORDER BY steam_id";

} // verus!
