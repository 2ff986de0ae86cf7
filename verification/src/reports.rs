//! Reports that commands give back instead of printing.
use vstd::prelude::*;
use crate::config::ContextType;
use crate::models::{ActivityTier, VcsStatus};
use crate::time::Timestamp;

verus! {

/// A commit.
#[derive(Debug, Clone)]
pub struct CommitInfo {
    pub sha: String,
    pub author: String,
    pub message: String,
    pub timestamp: Timestamp,
}

/// A branch and how far it is from its upstream.
#[derive(Debug, Clone)]
pub struct BranchInfo {
    pub name: String,
    pub is_current: bool,
    pub is_remote: bool,
    pub upstream: Option<String>,
    pub ahead: usize,
    pub behind: usize,
}

/// The state of one repository.
#[derive(Debug, Clone)]
pub struct RepoStatus {
    pub current_branch: String,
    pub head_sha: String,
    pub vcs_status: VcsStatus,
    pub local_branches: Vec<BranchInfo>,
    pub remote_branches: Vec<BranchInfo>,
    pub unpushed_commits: Vec<CommitInfo>,
}

/// One repository in a status report over many.
#[derive(Debug, Clone)]
pub struct MultiRepoStatusItem {
    pub name: String,
    pub status: VcsStatus,
    pub branch: String,
}

/// The status of many repositories.
#[derive(Debug, Clone)]
pub struct MultiRepoStatusReport {
    pub items: Vec<MultiRepoStatusItem>,
}

/// The results of one git command run in many repositories.
#[derive(Debug, Clone)]
pub struct MultiRepoGitReport {
    pub title: String,
    pub results: Vec<GitOpResult>,
}

/// The result of a git command in one repository.
#[derive(Debug, Clone)]
pub struct GitOpResult {
    pub project_name: String,
    pub command: String,
    pub success: bool,
    pub stdout: String,
    pub stderr: String,
    pub exit_code: i32,
}

/// Whether a repository is ready for an operation, and why not.
#[derive(Debug, Clone)]
pub struct PreflightResult {
    pub project_name: String,
    pub is_clean: bool,
    pub is_aligned: bool,
    pub unpushed_count: usize,
    pub issues: Vec<String>,
}

/// The state of a branch's pull request.
#[derive(Debug, Clone, Copy, PartialEq, Eq, Structural)]
pub enum PrStatus {
    Open,
    Merged,
    Closed,
    NoPr,
}

/// Where a branch exists for one project.
#[derive(Debug, Clone)]
pub struct BranchPresence {
    pub project_name: String,
    pub exists_locally: bool,
    pub exists_remotely: bool,
    pub pr_status: PrStatus,
    pub pr_url: Option<String>,
}

/// A branch name and the projects that have it.
#[derive(Debug, Clone)]
pub struct BranchGroup {
    pub name: String,
    pub projects: Vec<BranchPresence>,
}

/// The status of one project.
#[derive(Debug, Clone)]
pub struct ProjectStatus {
    pub name: String,
    pub stack: String,
    pub activity: ActivityTier,
    pub vcs_status: VcsStatus,
    pub is_aligned: bool,
    pub issues: Vec<String>,
}

/// The status of the active context.
#[derive(Debug, Clone)]
pub struct StatusReport {
    pub active_context: Option<String>,
    pub context_type: ContextType,
    pub projects: Vec<ProjectStatus>,
    pub summary: String,
}

/// The outcome of a command run in one project.
#[derive(Debug, Clone)]
pub struct OperationResult {
    pub project_name: String,
    pub exit_code: i32,
    pub stdout: String,
    pub stderr: String,
    pub timed_out: bool,
}

/// The outcome of a command run in many projects.
#[derive(Debug, Clone)]
pub struct BatchOperationReport {
    pub command: String,
    pub results: Vec<OperationResult>,
    pub success_count: usize,
    pub fail_count: usize,
    pub skip_count: usize,
}

} // verus!
