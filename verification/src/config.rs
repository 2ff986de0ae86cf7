//! The global configuration: contexts, the active context, token budgets,
//! and where all of it is kept.
use vstd::prelude::*;
use crate::error::{ToadError, ToadResult, path_debug, path_debug_text, prefixed};
use crate::keyed::KeyedList;
use crate::paths::{join_path, path_join};
use crate::time::Timestamp;

verus! {

/// The kind of a context.
#[derive(Debug, Clone, Copy, PartialEq, Eq, Structural)]
pub enum ContextType {
    Hub,
    Pond,
    Generic,
}

impl ContextType {
    /// The label the kind is shown with.
    pub fn label(&self) -> (r: String)
        ensures
            r@ == match *self {
                ContextType::Hub => "Hub"@,
                ContextType::Pond => "Pond"@,
                ContextType::Generic => "Generic"@,
            },
    {
        match self {
            ContextType::Hub => "Hub".to_owned(),
            ContextType::Pond => "Pond".to_owned(),
            ContextType::Generic => "Generic".to_owned(),
        }
    }
}

/// A registered context: a directory of projects.
#[derive(Debug, Clone)]
pub struct ProjectContext {
    pub path: String,
    pub description: Option<String>,
    pub context_type: ContextType,
    pub ai_vendors: Vec<String>,
    pub registered_at: Timestamp,
}

/// Token budgets for generated context.
#[derive(Debug, Clone, Copy, PartialEq, Eq, Structural)]
pub struct ContextBudget {
    pub ecosystem_tokens: usize,
    pub project_tokens: usize,
}

/// The ecosystem budget when none is configured.
pub fn default_ecosystem_tokens() -> (n: usize)
    ensures
        n == 2000,
{
    2000
}

/// The per-project budget when none is configured.
pub fn default_project_tokens() -> (n: usize)
    ensures
        n == 4000,
{
    4000
}

/// Whether to sync automatically when nothing is configured.
pub fn default_true() -> (b: bool)
    ensures
        b,
{
    true
}

impl Default for ContextBudget {
    fn default() -> (r: Self)
        ensures
            r.ecosystem_tokens == 2000,
            r.project_tokens == 4000,
    {
        ContextBudget {
            ecosystem_tokens: default_ecosystem_tokens(),
            project_tokens: default_project_tokens(),
        }
    }
}

/// The global configuration.
#[derive(Debug, Clone)]
pub struct GlobalConfig {
    pub home_pointer: String,
    pub active_context: Option<String>,
    pub project_contexts: KeyedList<ProjectContext>,
    pub auto_sync: bool,
    pub budget: ContextBudget,
}

/// What was found when the configuration directory was looked up: a base
/// directory given by the caller; else the `TOAD_CONFIG_DIR` override, as
/// canonicalizing it turned out; else the user's home directory, if one
/// was found.
pub struct ConfigDirLookup {
    pub base_dir: Option<String>,
    pub env_override: Option<ToadResult<String>>,
    pub home_dir: Option<String>,
}

/// The configuration directory a lookup finds, if it finds one.
pub open spec fn located_dir(l: ConfigDirLookup) -> Option<Seq<char>> {
    match l.base_dir {
        Some(b) => Some(b@),
        None => match l.env_override {
            Some(Ok(p)) => Some(p@),
            Some(Err(_)) => None,
            None => match l.home_dir {
                Some(h) => Some(path_join(h@, ".toad"@)),
                None => None,
            },
        },
    }
}

/// The error a failed lookup gives: that of canonicalizing the override,
/// or a configuration error when there is no home directory.
pub open spec fn lookup_failure(l: ConfigDirLookup, e: ToadError) -> bool {
    match l.env_override {
        Some(Err(e0)) => e == e0,
        _ => e matches ToadError::Config(m) && m@ == "Could not find home directory"@,
    }
}

/// `r` is what a path under the configuration directory comes to: the
/// directory with `under` applied, or the lookup's failure.
pub open spec fn under_config_dir(
    l: ConfigDirLookup,
    r: ToadResult<String>,
    under: spec_fn(Seq<char>) -> Seq<char>,
) -> bool {
    match r {
        Ok(p) => located_dir(l) matches Some(d) && p@ == under(d),
        Err(e) => located_dir(l) is None && lookup_failure(l, e),
    }
}

/// The path of context `name` given the configuration directory.
pub open spec fn context_path_in(d: Seq<char>, name: Seq<char>) -> Seq<char> {
    path_join(path_join(d, "contexts"@), name)
}

/// The path that `active_path` gives.
pub open spec fn active_path_of(c: GlobalConfig) -> Seq<char> {
    match c.active_context {
        Some(name) => if c.project_contexts@.contains_key(name@) {
            c.project_contexts@[name@].path@
        } else {
            c.home_pointer@
        },
        None => c.home_pointer@,
    }
}

/// What loading needs to know of a `config.json` file before reading it as
/// a configuration: whether its top level has `active_context` and
/// `project_contexts` keys, and its `home_pointer`, if that is a string.
pub struct ConfigProbe {
    pub has_active_context: bool,
    pub has_project_contexts: bool,
    pub home_pointer: Option<String>,
}

/// The texts of an optional `String`.
pub open spec fn opt_text(o: Option<String>) -> Option<Seq<char>> {
    match o {
        Some(t) => Some(t@),
        None => None,
    }
}

/// What `serde_json` reads in the text of a `config.json` file, as far as
/// loading needs it: whether its top level has the keys `active_context`
/// and `project_contexts`, and its `home_pointer` if that is a string; or
/// the message of the parser's error.
pub uninterp spec fn json_config_shape(text: Seq<char>) -> Result<(bool, bool, Option<Seq<char>>), Seq<char>>;

/// Parses `text` as JSON and reads the keys that tell a legacy
/// configuration apart.
///
/// Calls `serde_json::from_str::<serde_json::Value>` and reads the parsed
/// object with `Value::get` and `Value::as_str`; the contract names the
/// outcome `json_config_shape` and says nothing more of it.
#[verifier::external_body]
fn read_config_shape(text: &str) -> (r: Result<ConfigProbe, String>)
    ensures
        match r {
            Ok(p) => json_config_shape(text@) == Ok::<(bool, bool, Option<Seq<char>>), Seq<char>>(
                (p.has_active_context, p.has_project_contexts, opt_text(p.home_pointer)),
            ),
            Err(m) => json_config_shape(text@) == Err::<(bool, bool, Option<Seq<char>>), Seq<char>>(m@),
        },
{
    match serde_json::from_str::<serde_json::Value>(text) {
        Ok(v) => Ok(ConfigProbe {
            has_active_context: v.get("active_context").is_some(),
            has_project_contexts: v.get("project_contexts").is_some(),
            home_pointer: v.get("home_pointer").and_then(|h| h.as_str()).map(String::from),
        }),
        Err(e) => Err(e.to_string()),
    }
}

/// The paths that moving legacy artifacts touches.
pub struct LegacyPaths {
    pub legacy_registry: String,
    pub legacy_shadows: String,
    pub target_dir: String,
    pub target_shadows: String,
    pub target_registry: String,
}

/// What the file system holds of the legacy artifacts.
pub struct LegacyFacts {
    pub legacy_registry_exists: bool,
    pub target_registry_exists: bool,
    pub legacy_shadows_exists: bool,
    pub legacy_shadows_is_dir: bool,
}

/// How to move legacy artifacts, in order: create the target shadow
/// directory; rename the registry; move each entry of the legacy shadow
/// directory whose name is free in the target and remove the emptied
/// directory, ignoring a failure to remove it. The messages are given back
/// when all of it succeeded.
pub struct ArtifactPlan {
    pub create_dir: Option<String>,
    pub registry_move: Option<(String, String)>,
    pub shadows_move: Option<(String, String)>,
    pub messages: Vec<String>,
}

impl GlobalConfig {
    /// The configuration directory.
    pub fn config_dir(lookup: &ConfigDirLookup) -> (r: ToadResult<String>)
        ensures
            under_config_dir(*lookup, r, |d: Seq<char>| d),
    {
        match &lookup.base_dir {
            Some(b) => Ok(b.clone()),
            None => match &lookup.env_override {
                Some(Ok(p)) => Ok(p.clone()),
                Some(Err(e)) => Err(e.clone()),
                None => match &lookup.home_dir {
                    Some(h) => Ok(join_path(h.as_str(), ".toad")),
                    None => Err(ToadError::Config("Could not find home directory".to_owned())),
                },
            },
        }
    }

    /// The directory that holds the contexts.
    pub fn contexts_dir(lookup: &ConfigDirLookup) -> (r: ToadResult<String>)
        ensures
            under_config_dir(*lookup, r, |d: Seq<char>| path_join(d, "contexts"@)),
    {
        match Self::config_dir(lookup) {
            Ok(d) => Ok(join_path(d.as_str(), "contexts")),
            Err(e) => Err(e),
        }
    }

    /// The directory of context `name`.
    pub fn context_dir(name: &str, lookup: &ConfigDirLookup) -> (r: ToadResult<String>)
        ensures
            under_config_dir(*lookup, r, |d: Seq<char>| context_path_in(d, name@)),
    {
        match Self::contexts_dir(lookup) {
            Ok(d) => Ok(join_path(d.as_str(), name)),
            Err(e) => Err(e),
        }
    }

    /// The path of `config.json`.
    pub fn config_path(lookup: &ConfigDirLookup) -> (r: ToadResult<String>)
        ensures
            under_config_dir(*lookup, r, |d: Seq<char>| path_join(d, "config.json"@)),
    {
        match Self::config_dir(lookup) {
            Ok(d) => Ok(join_path(d.as_str(), "config.json")),
            Err(e) => Err(e),
        }
    }

    /// The directory of the active context: its registered path if it is
    /// registered, else the home pointer.
    pub fn active_path(&self) -> (r: ToadResult<String>)
        ensures
            r matches Ok(p) && p@ == active_path_of(*self),
    {
        if let Some(name) = &self.active_context {
            if let Some(ctx) = self.project_contexts.get(name.as_str()) {
                return Ok(ctx.path.clone());
            }
        }
        Ok(self.home_pointer.clone())
    }

    /// The home pointer of a legacy `config.json`, one with neither an
    /// active context nor contexts but with a home pointer; such a file is
    /// migrated on loading.
    pub fn legacy_home_pointer(probe: &ConfigProbe) -> (r: Option<String>)
        ensures
            r == (if !probe.has_active_context && !probe.has_project_contexts {
                probe.home_pointer
            } else {
                None
            }),
    {
        if !probe.has_active_context && !probe.has_project_contexts {
            probe.home_pointer.clone()
        } else {
            None
        }
    }

    /// Reads the text of a `config.json` file far enough to tell whether it
    /// is a legacy configuration, and gives its home pointer if it is.
    pub fn legacy_home_in(text: &str) -> (r: ToadResult<Option<String>>)
        ensures
            match json_config_shape(text@) {
                Err(m) => r matches Err(ToadError::Serde(s)) && s@ == m,
                Ok((has_active, has_contexts, home)) => r matches Ok(o) && opt_text(o) == (if !has_active
                    && !has_contexts {
                    home
                } else {
                    None
                }),
            },
    {
        match read_config_shape(text) {
            Ok(probe) => Ok(Self::legacy_home_pointer(&probe)),
            Err(m) => Err(ToadError::Serde(m)),
        }
    }

    /// A configuration with one context, `default`, at `home`, which is
    /// active.
    pub fn single_context(home: String, description: &str, context_type: ContextType, now: Timestamp) -> (r: Self)
        ensures
            r.home_pointer == home,
            r.active_context matches Some(n) && n@ == "default"@,
            r.project_contexts@.dom() == set!["default"@],
            r.project_contexts@["default"@].path == home,
            r.project_contexts@["default"@].description matches Some(d) && d@ == description@,
            r.project_contexts@["default"@].context_type == context_type,
            r.project_contexts@["default"@].ai_vendors@.len() == 0,
            r.project_contexts@["default"@].registered_at == now,
            r.auto_sync,
            r.budget.ecosystem_tokens == 2000,
            r.budget.project_tokens == 4000,
    {
        let mut contexts: KeyedList<ProjectContext> = KeyedList::new();
        let ctx = ProjectContext {
            path: home.clone(),
            description: Some(description.to_owned()),
            context_type,
            ai_vendors: Vec::new(),
            registered_at: now,
        };
        contexts.insert("default".to_owned(), ctx);
        assert(contexts@.dom() =~= set!["default"@]);
        GlobalConfig {
            home_pointer: home,
            active_context: Some("default".to_owned()),
            project_contexts: contexts,
            auto_sync: true,
            budget: ContextBudget::default(),
        }
    }

    /// The configuration a legacy `config.json` with home pointer `home` is
    /// migrated to.
    pub fn migrated_from_legacy(home: String, now: Timestamp) -> (r: Self)
        ensures
            r.home_pointer == home,
            r.active_context matches Some(n) && n@ == "default"@,
            r.project_contexts@.dom() == set!["default"@],
            r.project_contexts@["default"@].path == home,
            r.project_contexts@["default"@].description matches Some(d) && d@
                == "Auto-migrated default context"@,
            r.project_contexts@["default"@].context_type == ContextType::Generic,
            r.project_contexts@["default"@].ai_vendors@.len() == 0,
            r.project_contexts@["default"@].registered_at == now,
            r.auto_sync,
            r.budget.ecosystem_tokens == 2000,
            r.budget.project_tokens == 4000,
    {
        Self::single_context(home, "Auto-migrated default context", ContextType::Generic, now)
    }

    /// Where the legacy artifacts are and where they go, given the
    /// configuration directory.
    pub fn legacy_paths(&self, config_dir: &str) -> (r: LegacyPaths)
        ensures
            r.legacy_registry@ == path_join(config_dir@, "registry.json"@),
            r.legacy_shadows@ == path_join(self.home_pointer@, "shadows"@),
            r.target_dir@ == context_path_in(config_dir@, "default"@),
            r.target_shadows@ == path_join(context_path_in(config_dir@, "default"@), "shadows"@),
            r.target_registry@ == path_join(context_path_in(config_dir@, "default"@), "registry.json"@),
    {
        let contexts = join_path(config_dir, "contexts");
        let target_dir = join_path(contexts.as_str(), "default");
        LegacyPaths {
            legacy_registry: join_path(config_dir, "registry.json"),
            legacy_shadows: join_path(self.home_pointer.as_str(), "shadows"),
            target_shadows: join_path(target_dir.as_str(), "shadows"),
            target_registry: join_path(target_dir.as_str(), "registry.json"),
            target_dir,
        }
    }

    /// How to move the legacy artifacts at `paths`, given what exists.
    pub fn plan_artifact_migration(paths: &LegacyPaths, facts: &LegacyFacts) -> (r: ArtifactPlan)
        ensures
            ({
                let any = facts.legacy_registry_exists || facts.legacy_shadows_exists;
                let move_registry = any && facts.legacy_registry_exists && !facts.target_registry_exists;
                let move_shadows = any && facts.legacy_shadows_exists && facts.legacy_shadows_is_dir;
                &&& r.create_dir == (if any { Some(paths.target_shadows) } else { None })
                &&& r.registry_move == (if move_registry {
                    Some((paths.legacy_registry, paths.target_registry))
                } else {
                    None
                })
                &&& r.shadows_move == (if move_shadows {
                    Some((paths.legacy_shadows, paths.target_shadows))
                } else {
                    None
                })
                &&& r.messages@.len() == (if move_registry { 1int } else { 0int }) + (if move_shadows {
                    1int
                } else {
                    0int
                })
                &&& move_registry ==> r.messages@[0]@ == "Migrated registry.json to "@
                    + path_debug_text(paths.target_registry@)
                &&& move_shadows ==> r.messages@.last()@ == "Migrated shadows from "@
                    + path_debug_text(paths.legacy_shadows@) + " to "@ + path_debug_text(
                    paths.target_shadows@,
                )
            }),
    {
        let any = facts.legacy_registry_exists || facts.legacy_shadows_exists;
        let mut messages: Vec<String> = Vec::new();
        let mut create_dir = None;
        let mut registry_move = None;
        let mut shadows_move = None;
        if any {
            create_dir = Some(paths.target_shadows.clone());
            if facts.legacy_registry_exists && !facts.target_registry_exists {
                registry_move = Some((paths.legacy_registry.clone(), paths.target_registry.clone()));
                let shown = path_debug(paths.target_registry.as_str());
                messages.push(prefixed("Migrated registry.json to ", shown.as_str()));
            }
            if facts.legacy_shadows_exists && facts.legacy_shadows_is_dir {
                shadows_move = Some((paths.legacy_shadows.clone(), paths.target_shadows.clone()));
                let from = path_debug(paths.legacy_shadows.as_str());
                let to = path_debug(paths.target_shadows.as_str());
                let mut m = prefixed("Migrated shadows from ", from.as_str());
                m.append(" to ");
                m.append(to.as_str());
                messages.push(m);
            }
        }
        ArtifactPlan { create_dir, registry_move, shadows_move, messages }
    }

    /// Which entries of the legacy shadow directory to move: those whose
    /// name is not taken in the target directory.
    pub fn entries_to_move(target_taken: &Vec<bool>) -> (r: Vec<usize>)
        ensures
            forall|k: int| 0 <= k < r@.len() ==> #[trigger] r@[k] < target_taken@.len() && !target_taken@[r@[k] as int],
            forall|k: int, m: int| 0 <= k < m < r@.len() ==> #[trigger] r@[k] < #[trigger] r@[m],
            forall|i: int| 0 <= i < target_taken@.len() && !#[trigger] target_taken@[i] ==> r@.contains(i as usize),
    {
        let mut r: Vec<usize> = Vec::new();
        let mut i: usize = 0;
        while i < target_taken.len()
            invariant
                i <= target_taken@.len(),
                forall|k: int| 0 <= k < r@.len() ==> #[trigger] r@[k] < i && !target_taken@[r@[k] as int],
                forall|k: int, m: int| 0 <= k < m < r@.len() ==> #[trigger] r@[k] < #[trigger] r@[m],
                forall|j: int| 0 <= j < i && !#[trigger] target_taken@[j] ==> r@.contains(j as usize),
            decreases target_taken@.len() - i,
        {
            if !target_taken[i] {
                let ghost before = r@;
                r.push(i);
                assert forall|j: int| 0 <= j < i + 1 && !#[trigger] target_taken@[j] implies r@.contains(j as usize) by {
                    if j < i {
                        let k = choose|k: int| 0 <= k < before.len() && before[k] == j as usize;
                        assert(r@[k] == j as usize);
                    } else {
                        assert(r@[before.len() as int] == i);
                    }
                }
            }
            i = i + 1;
        }
        r
    }
}

/// The configuration directory comes from the first source that is there:
/// a base directory given by the caller, whatever the override and the
/// home; else the `TOAD_CONFIG_DIR` override, whose failure to canonicalize
/// is the error; else `.toad` in the home directory; else the error that no
/// home directory was found. Every path under it follows the same choice.
pub proof fn law_config_dir_precedence(
    l: ConfigDirLookup,
    r: ToadResult<String>,
    under: spec_fn(Seq<char>) -> Seq<char>,
)
    requires
        under_config_dir(l, r, under),
    ensures
        l.base_dir matches Some(b) ==> (r matches Ok(p) && p@ == under(b@)),
        l.base_dir is None ==> match l.env_override {
            Some(Ok(o)) => r matches Ok(p) && p@ == under(o@),
            Some(Err(e)) => r == Err::<String, ToadError>(e),
            None => match l.home_dir {
                Some(h) => r matches Ok(p) && p@ == under(path_join(h@, ".toad"@)),
                None => r matches Err(ToadError::Config(m)) && m@ == "Could not find home directory"@,
            },
        },
{
}

} // verus!
