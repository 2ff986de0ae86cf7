//! What changed in the ecosystem between two scans.
use vstd::prelude::*;
use crate::models::{ActivityTier, VcsStatus};
use crate::time::Timestamp;

verus! {

/// How a project changed.
#[derive(Debug, Clone, Copy, PartialEq, Eq, Structural)]
pub enum ChangeType {
    Added,
    Removed,
    Modified,
}

/// One project's change, with its state before and after.
#[derive(Debug, Clone)]
pub struct ProjectChange {
    pub name: String,
    pub change_type: ChangeType,
    pub old_vcs: Option<VcsStatus>,
    pub new_vcs: Option<VcsStatus>,
    pub old_activity: Option<ActivityTier>,
    pub new_activity: Option<ActivityTier>,
}

/// The changes found by one scan.
#[derive(Debug, Clone)]
pub struct EcosystemChangelog {
    pub timestamp: Timestamp,
    pub changes: Vec<ProjectChange>,
}

/// All changelogs, oldest first.
#[derive(Debug, Clone)]
pub struct ChangelogHistory {
    pub entries: Vec<EcosystemChangelog>,
}

impl Default for ChangelogHistory {
    fn default() -> (r: Self)
        ensures
            r.entries@.len() == 0,
    {
        ChangelogHistory { entries: Vec::new() }
    }
}

} // verus!
