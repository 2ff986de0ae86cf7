//! The workspace: where Toad keeps its state, where the projects of the
//! active context are, and how both are found.
use vstd::prelude::*;
use crate::config::{ConfigDirLookup, GlobalConfig, located_dir, context_path_in};
use crate::paths::{join_path, path_join};

verus! {

/// Files whose change means a project changed.
pub const HIGH_VALUE_FILES: [&'static str; 18] = [
    "Cargo.toml",
    "Cargo.lock",
    "package.json",
    "package-lock.json",
    "pnpm-lock.yaml",
    "yarn.lock",
    "go.mod",
    "go.sum",
    "go.work",
    "pyproject.toml",
    "requirements.txt",
    "poetry.lock",
    "README.md",
    "README.markdown",
    "readme.md",
    "Justfile",
    ".gitignore",
    ".git/index",
];

/// Where Toad keeps its state and where the projects of the active context are.
#[derive(Debug, Clone)]
pub struct Workspace {
    /// The global Toad home directory (e.g., ~/.toad/).
    pub toad_home: String,
    /// The project directory for the current context.
    pub projects_dir: String,
    /// Metadata storage for the current context.
    pub shadows_dir: String,
    pub active_context: Option<String>,
}

impl Workspace {
    /// The path of the manifest.
    pub fn manifest_path(&self) -> (r: String)
        ensures
            r@ == path_join(self.shadows_dir@, "MANIFEST.md"@),
    {
        join_path(self.shadows_dir.as_str(), "MANIFEST.md")
    }

    /// The path of the tag registry.
    pub fn tags_path(&self) -> (r: String)
        ensures
            r@ == path_join(self.shadows_dir@, "tags.json"@),
    {
        join_path(self.shadows_dir.as_str(), "tags.json")
    }

    /// The path of the context file.
    pub fn context_json_path(&self) -> (r: String)
        ensures
            r@ == path_join(self.shadows_dir@, "context.json"@),
    {
        join_path(self.shadows_dir.as_str(), "context.json")
    }

    /// The path of the changelog.
    pub fn changelog_path(&self) -> (r: String)
        ensures
            r@ == path_join(self.shadows_dir@, "CHANGELOG.json"@),
    {
        join_path(self.shadows_dir.as_str(), "CHANGELOG.json")
    }

    /// A workspace over the projects at `root`: the home is the
    /// configuration directory (`.` if there is none); the shadow directory
    /// is that of the active context, or `shadows` in the home.
    pub fn with_root(root: String, active_context: Option<String>, lookup: &ConfigDirLookup) -> (r: Self)
        ensures
            r.projects_dir == root,
            r.active_context == active_context,
            r.toad_home@ == (match located_dir(*lookup) {
                Some(d) => d,
                None => "."@,
            }),
            r.shadows_dir@ == (match (active_context, located_dir(*lookup)) {
                (Some(name), Some(d)) => path_join(context_path_in(d, name@), "shadows"@),
                _ => path_join(r.toad_home@, "shadows"@),
            }),
    {
        let toad_home = match GlobalConfig::config_dir(lookup) {
            Ok(d) => d,
            Err(_) => ".".to_owned(),
        };
        proof {
            reveal_strlit(".");
        }
        let shadows_dir = match &active_context {
            Some(name) => match GlobalConfig::context_dir(name.as_str(), lookup) {
                Ok(d) => join_path(d.as_str(), "shadows"),
                Err(_) => join_path(toad_home.as_str(), "shadows"),
            },
            None => join_path(toad_home.as_str(), "shadows"),
        };
        Workspace { projects_dir: root, shadows_dir, toad_home, active_context }
    }
}

} // verus!
