//! Records of projects, their stacks and their state.
use vstd::prelude::*;
use crate::order::text_eq;

pub mod analytics;
pub mod changelog;
pub mod diagnostics;

verus! {

/// Whether some text of `names` equals some text of `files`.
pub open spec fn shares_a_name(names: Seq<String>, files: Seq<String>) -> bool {
    exists|i: int, j: int|
        0 <= i < names.len() && 0 <= j < files.len() && #[trigger] names[i]@ == #[trigger] files[j]@
}

/// A technology stack: the files that reveal it, the directories it builds,
/// the tags it gives, and its priority among stacks.
#[derive(Debug, Clone, PartialEq)]
pub struct StackStrategy {
    pub name: String,
    pub match_files: Vec<String>,
    pub artifacts: Vec<String>,
    pub tags: Vec<String>,
    pub priority: i32,
}

impl StackStrategy {
    /// Whether one of the strategy's marker files is among `files`.
    pub fn matches(&self, files: &[String]) -> (r: bool)
        ensures
            r == shares_a_name(self.match_files@, files@),
    {
        let mut i: usize = 0;
        while i < self.match_files.len()
            invariant
                i <= self.match_files@.len(),
                forall|a: int, b: int|
                    0 <= a < i && 0 <= b < files@.len() ==> #[trigger] self.match_files@[a]@
                        != #[trigger] files@[b]@,
            decreases self.match_files@.len() - i,
        {
            let mut j: usize = 0;
            while j < files.len()
                invariant
                    i < self.match_files@.len(),
                    j <= files@.len(),
                    forall|a: int, b: int|
                        0 <= a < i && 0 <= b < files@.len() ==> #[trigger] self.match_files@[a]@
                            != #[trigger] files@[b]@,
                    forall|b: int| 0 <= b < j ==> self.match_files@[i as int]@ != #[trigger] files@[b]@,
                decreases files@.len() - j,
            {
                if text_eq(self.match_files[i].as_str(), files[j].as_str()) {
                    assert(self.match_files@[i as int]@ == files@[j as int]@);
                    return true;
                }
                j = j + 1;
            }
            i = i + 1;
        }
        false
    }
}

/// A strategy matches a list of files exactly when one of its marker
/// files, whichever position it holds among them, is one of the files: any
/// marker found anywhere makes it match, and it matches on nothing else.
pub proof fn law_any_marker_file_matches(names: Seq<String>, files: Seq<String>, i: int, j: int)
    requires
        0 <= i < names.len(),
        0 <= j < files.len(),
    ensures
        names[i]@ == files[j]@ ==> shares_a_name(names, files),
        shares_a_name(names, files) ==> exists|a: int, b: int|
            0 <= a < names.len() && 0 <= b < files.len() && #[trigger] names[a]@ == #[trigger] files[b]@,
        !shares_a_name(names, files) ==> names[i]@ != files[j]@,
{
}

/// Matching does not depend on the order of the files, nor on the order of
/// the marker files: swapping two of either gives the same answer.
pub proof fn law_matching_ignores_order(names: Seq<String>, files: Seq<String>, a: int, b: int, c: int, d: int)
    requires
        0 <= a < names.len(),
        0 <= b < names.len(),
        0 <= c < files.len(),
        0 <= d < files.len(),
    ensures
        shares_a_name(names.update(a, names[b]).update(b, names[a]), files) == shares_a_name(names, files),
        shares_a_name(names, files.update(c, files[d]).update(d, files[c])) == shares_a_name(names, files),
{
    let n2 = names.update(a, names[b]).update(b, names[a]);
    let f2 = files.update(c, files[d]).update(d, files[c]);
    if shares_a_name(names, files) {
        let (i, j) = choose|i: int, j: int|
            0 <= i < names.len() && 0 <= j < files.len() && #[trigger] names[i]@ == #[trigger] files[j]@;
        let i2 = if i == a { b } else if i == b { a } else { i };
        assert(n2[i2] == names[i]);
        assert(n2[i2]@ == files[j]@);
        let j2 = if j == c { d } else if j == d { c } else { j };
        assert(f2[j2] == files[j]);
        assert(names[i]@ == f2[j2]@);
    }
    if shares_a_name(n2, files) {
        let (i, j) = choose|i: int, j: int|
            0 <= i < n2.len() && 0 <= j < files.len() && #[trigger] n2[i]@ == #[trigger] files[j]@;
        let i2 = if i == a { b } else if i == b { a } else { i };
        assert(names[i2] == n2[i]);
        assert(names[i2]@ == files[j]@);
    }
    if shares_a_name(names, f2) {
        let (i, j) = choose|i: int, j: int|
            0 <= i < names.len() && 0 <= j < f2.len() && #[trigger] names[i]@ == #[trigger] f2[j]@;
        let j2 = if j == c { d } else if j == d { c } else { j };
        assert(files[j2] == f2[j]);
        assert(names[i]@ == files[j2]@);
    }
}

/// How recently a project was worked on.
#[derive(Debug, Clone, Copy, PartialEq, Eq, Structural)]
pub enum ActivityTier {
    Active,
    Cold,
    Archive,
}

impl ActivityTier {
    /// The label the tier is shown with.
    pub fn label(&self) -> (r: String)
        ensures
            r@ == match *self {
                ActivityTier::Active => "🔥 Active"@,
                ActivityTier::Cold => "❄️ Cold"@,
                ActivityTier::Archive => "🗄️ Archive"@,
            },
    {
        match self {
            ActivityTier::Active => "🔥 Active".to_owned(),
            ActivityTier::Cold => "❄️ Cold".to_owned(),
            ActivityTier::Archive => "🗄️ Archive".to_owned(),
        }
    }
}

/// The state of a project's working copy.
#[derive(Debug, Clone, Copy, PartialEq, Eq, Structural)]
pub enum VcsStatus {
    Clean,
    Dirty,
    Untracked,
    NoRepo,
}

impl VcsStatus {
    /// The label the status is shown with.
    pub fn label(&self) -> (r: String)
        ensures
            r@ == match *self {
                VcsStatus::Clean => "✅ Clean"@,
                VcsStatus::Dirty => "⚠️ Dirty"@,
                VcsStatus::Untracked => "❓ Untracked"@,
                VcsStatus::NoRepo => "N/A"@,
            },
    {
        match self {
            VcsStatus::Clean => "✅ Clean".to_owned(),
            VcsStatus::Dirty => "⚠️ Dirty".to_owned(),
            VcsStatus::Untracked => "❓ Untracked".to_owned(),
            VcsStatus::NoRepo => "N/A".to_owned(),
        }
    }
}

/// A git submodule of a hub project.
#[derive(Debug, Clone)]
pub struct SubmoduleDetail {
    pub name: String,
    pub path: String,
    pub url: String,
    pub stack: String,
    pub essence: Option<String>,
    pub taxonomy: Vec<String>,
    pub initialized: bool,
    pub vcs_status: VcsStatus,
    pub expected_commit: Option<String>,
    pub actual_commit: Option<String>,
}

/// Where a project was found.
#[derive(Debug, Clone, Copy, PartialEq, Eq, Structural)]
pub enum TargetSource {
    HubRoot,
    Submodule,
    PondProject,
    Orphan,
}

impl TargetSource {
    /// The label the source is shown with.
    pub fn label(&self) -> (r: String)
        ensures
            r@ == match *self {
                TargetSource::HubRoot => "HubRoot"@,
                TargetSource::Submodule => "Submodule"@,
                TargetSource::PondProject => "PondProject"@,
                TargetSource::Orphan => "Orphan"@,
            },
    {
        match self {
            TargetSource::HubRoot => "HubRoot".to_owned(),
            TargetSource::Submodule => "Submodule".to_owned(),
            TargetSource::PondProject => "PondProject".to_owned(),
            TargetSource::Orphan => "Orphan".to_owned(),
        }
    }
}

} // verus!
