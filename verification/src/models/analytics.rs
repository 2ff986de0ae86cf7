//! Records of dependencies, health and insights across projects.
use vstd::prelude::*;
use crate::keyed::KeyedList;

verus! {

/// A project in the dependency graph.
#[derive(Debug, Clone)]
pub struct DependencyNode {
    pub name: String,
    pub version: Option<String>,
    pub depth: usize,
    pub dependents: Vec<String>,
    pub dependencies: Vec<String>,
}

/// The dependencies between projects.
#[derive(Debug)]
pub struct DependencyGraph {
    pub nodes: KeyedList<DependencyNode>,
    pub critical_path: Vec<String>,
    pub orphaned_projects: Vec<String>,
    pub circular_dependencies: Vec<Vec<String>>,
}

/// A project's health, in points per aspect.
#[derive(Debug, Clone, Copy, PartialEq, Eq, Structural)]
pub struct HealthScore {
    pub total: u32,
    pub vcs_cleanliness: u32,
    pub test_coverage: u32,
    pub documentation: u32,
    pub activity: u32,
    pub dependencies: u32,
    pub code_quality: u32,
    pub ai_readiness: u32,
}

/// A finding about a project, with what to do about it.
#[derive(Debug, Clone)]
pub struct ProjectInsight {
    pub title: String,
    pub description: String,
    pub severity: String,
    pub action_item: String,
}

} // verus!
