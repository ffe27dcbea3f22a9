//! The answer to an update check.

use vstd::prelude::*;

verus! {

/// Whether a newer release is available, and which.
#[derive(Debug)]
pub struct UpdateCheckResult {
    /// True when a newer version is available at the configured endpoint.
    pub available: bool,
    /// The available version, such as "0.2.0"; `None` when up to date.
    pub version: Option<String>,
    /// The release notes of the update; `None` when up to date.
    pub notes: Option<String>,
}

/// The report for what the update check found: a found update (its version
/// and notes) is available; nothing found, or a check that failed, reads as
/// up to date.
pub fn update_check_result(found: Option<(String, Option<String>)>) -> (r: UpdateCheckResult)
    ensures
        r.available == found.is_some(),
        r.version == match found {
            Some(u) => Some(u.0),
            None => None::<String>,
        },
        r.notes == match found {
            Some(u) => u.1,
            None => None::<String>,
        },
{
    match found {
        Some((version, notes)) => UpdateCheckResult { available: true, version: Some(version), notes },
        None => UpdateCheckResult { available: false, version: None, notes: None },
    }
}

} // verus!
