//! Pirate Harbor core library: the verified logic behind the game launcher —
//! text handling, asset naming, background job scheduling, analytics,
//! recommendations, smart collections, scanning and backup policy.

pub mod numfmt;
pub mod order;
pub mod paths;
pub mod assets;
pub mod background;
pub mod text;
pub mod dates;
pub mod recommend;
pub mod api;
pub mod metadata;
pub mod images;
pub mod backup;
pub mod smart;
pub mod ratio;
pub mod identity;
pub mod export;
pub mod schema;
pub mod search;
pub mod scanner;
pub mod milestones;
pub mod stats;
pub mod launcher;
pub mod library;
pub mod achievements;
pub mod updates;
pub mod sqldate;
