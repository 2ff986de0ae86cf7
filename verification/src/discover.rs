//! Finding the workspace: the decisions of discovery, one answer at a time.
//!
//! Discovery asks the environment and the file system a question at a time
//! and decides from each answer what to ask next, until it has the
//! workspace or an error. In order: `TOAD_HOME` (canonicalized) or else the
//! configuration directory gives the home; then, if `TOAD_ROOT` is set, its
//! canonical path is the root: with a loadable configuration, the projects
//! are in the active context's path (canonicalized, when it exists) or else
//! the root; without one, a root marked `.toad-root` is migrated to a global
//! configuration, and any other root is used as it is. Without `TOAD_ROOT`,
//! a loadable configuration gives the projects directory and shadow
//! directory of the active context, and without one the workspace is
//! uninitialized. A projects directory is its `projects` subdirectory where
//! that exists.
use vstd::prelude::*;
use crate::config::{ContextType, GlobalConfig, active_path_of, context_path_in, opt_text};
use crate::error::{ToadError, ToadResult};
use crate::paths::{join_path, path_join};
use crate::time::Timestamp;
use crate::workspace::Workspace;

verus! {

/// A question that discovery asks.
pub enum DiscoverQuery {
    /// The value of an environment variable; answered with `Text`.
    EnvVar(String),
    /// The canonical form of a path; answered with `Resolved`.
    Canonicalize(String),
    /// The configuration directory, looked up without a base directory;
    /// answered with `Resolved`.
    ConfigDir,
    /// The global configuration, loaded without a base directory; answered
    /// with `Loaded`.
    LoadConfig,
    /// Whether a path exists; answered with `Flag`.
    Exists(String),
    /// The current time; answered with `Time`.
    Now,
    /// Save this configuration, then move the legacy artifacts of its home
    /// pointer, both without a base directory; answered with `Finished`.
    SaveAndMigrate(GlobalConfig),
}

/// An answer to a question of discovery.
pub enum DiscoverAnswer {
    Text(Option<String>),
    Resolved(ToadResult<String>),
    Loaded(ToadResult<Option<GlobalConfig>>),
    Flag(bool),
    Time(Timestamp),
    Finished(ToadResult<()>),
}

/// How far discovery has come, and what it has learnt.
pub enum DiscoverState {
    AwaitHomeEnv,
    AwaitHomeCanonical,
    AwaitHomeConfigDir,
    AwaitRootEnv { toad_home: String },
    AwaitRootCanonical { toad_home: String },
    AwaitRootConfig { toad_home: String, root: String },
    AwaitActiveExists { toad_home: String, root: String, active: String, context: Option<String> },
    AwaitActiveCanonical { toad_home: String, root: String, context: Option<String> },
    AwaitBaseProjects { toad_home: String, base: String, context: Option<String> },
    AwaitShadowsConfigDir { toad_home: String, projects_dir: String, name: String },
    AwaitLegacyMarker { toad_home: String, root: String },
    AwaitPlainProjects { toad_home: String, root: String },
    AwaitMigrateHome { root: String },
    AwaitMigrateGitmodules { root: String, toad_home: String },
    AwaitMigrateClock { root: String, toad_home: String, hub: bool },
    AwaitMigrateSaved { root: String, toad_home: String },
    AwaitMigrateProjects { root: String, toad_home: String },
    AwaitMigrateShadows { toad_home: String, projects_dir: String },
    AwaitGlobalConfig { toad_home: String },
    AwaitGlobalExists { toad_home: String, projects_dir: String, context: Option<String> },
    AwaitGlobalCanonical { toad_home: String, context: Option<String> },
}

/// What discovery does next: ask a question, waiting in a state, or finish.
pub enum DiscoverStep {
    Ask(DiscoverState, DiscoverQuery),
    Done(ToadResult<Workspace>),
}

/// The projects directory under `base`: its `projects` subdirectory if that
/// exists.
pub open spec fn projects_under(base: Seq<char>, has_projects: bool) -> Seq<char> {
    if has_projects {
        path_join(base, "projects"@)
    } else {
        base
    }
}

/// `r` finishes with the workspace with these paths and active context.
pub open spec fn finishes_with(
    r: DiscoverStep,
    home: Seq<char>,
    projects: Seq<char>,
    shadows: Seq<char>,
    context: Option<Seq<char>>,
) -> bool {
    r matches DiscoverStep::Done(Ok(w)) && w.toad_home@ == home && w.projects_dir@ == projects
        && w.shadows_dir@ == shadows && opt_text(w.active_context) == context
}

/// `r` finishes with error `e`.
pub open spec fn fails_with(r: DiscoverStep, e: ToadError) -> bool {
    r matches DiscoverStep::Done(Err(e2)) && e2 == e
}

/// `r` asks whether `p` exists.
pub open spec fn asks_exists(r: DiscoverStep, p: Seq<char>) -> bool {
    r matches DiscoverStep::Ask(_, DiscoverQuery::Exists(q)) && q@ == p
}

/// `r` asks for the canonical form of `p`.
pub open spec fn asks_canonical(r: DiscoverStep, p: Seq<char>) -> bool {
    r matches DiscoverStep::Ask(_, DiscoverQuery::Canonicalize(q)) && q@ == p
}

/// `r` asks for the configuration directory.
pub open spec fn asks_config_dir(r: DiscoverStep) -> bool {
    r matches DiscoverStep::Ask(_, DiscoverQuery::ConfigDir)
}

/// `r` asks for environment variable `name`.
pub open spec fn asks_env(r: DiscoverStep, name: Seq<char>) -> bool {
    r matches DiscoverStep::Ask(_, DiscoverQuery::EnvVar(n)) && n@ == name
}

/// `r` asks to load the configuration.
pub open spec fn asks_load(r: DiscoverStep) -> bool {
    r matches DiscoverStep::Ask(_, DiscoverQuery::LoadConfig)
}

/// The state `r` waits in.
pub open spec fn waits_in(r: DiscoverStep) -> DiscoverState
    recommends
        r is Ask,
{
    match r {
        DiscoverStep::Ask(s, _) => s,
        DiscoverStep::Done(_) => DiscoverState::AwaitHomeEnv,
    }
}

/// What discovery does once it knows the home, the projects directory and
/// the active context: look up the context's shadow directory, or finish
/// with `shadows` in the home.
pub open spec fn settles(r: DiscoverStep, home: Seq<char>, projects: Seq<char>, context: Option<String>) -> bool {
    match context {
        Some(name) => asks_config_dir(r) && (waits_in(r) matches DiscoverState::AwaitShadowsConfigDir {
            toad_home,
            projects_dir,
            name: n,
        } && toad_home@ == home && projects_dir@ == projects && n@ == name@),
        None => finishes_with(r, home, projects, path_join(home, "shadows"@), None),
    }
}

/// Which answers a state waits for.
pub open spec fn expects(s: DiscoverState, a: DiscoverAnswer) -> bool {
    match s {
        DiscoverState::AwaitHomeEnv | DiscoverState::AwaitRootEnv { .. } => a is Text,
        DiscoverState::AwaitRootConfig { .. } | DiscoverState::AwaitGlobalConfig { .. } => a is Loaded,
        DiscoverState::AwaitActiveExists { .. } | DiscoverState::AwaitBaseProjects { .. }
        | DiscoverState::AwaitLegacyMarker { .. } | DiscoverState::AwaitPlainProjects { .. }
        | DiscoverState::AwaitMigrateGitmodules { .. } | DiscoverState::AwaitMigrateProjects { .. }
        | DiscoverState::AwaitGlobalExists { .. } => a is Flag,
        DiscoverState::AwaitMigrateClock { .. } => a is Time,
        DiscoverState::AwaitMigrateSaved { .. } => a is Finished,
        _ => a is Resolved,
    }
}

/// What discovery does in state `s` on answer `a`.
pub open spec fn transition(s: DiscoverState, a: DiscoverAnswer, r: DiscoverStep) -> bool {
    match (s, a) {
        (DiscoverState::AwaitHomeEnv, DiscoverAnswer::Text(Some(h))) => asks_canonical(r, h@) && waits_in(r)
            is AwaitHomeCanonical,
        (DiscoverState::AwaitHomeEnv, DiscoverAnswer::Text(None)) => asks_config_dir(r) && waits_in(r)
            is AwaitHomeConfigDir,
        (DiscoverState::AwaitHomeCanonical, DiscoverAnswer::Resolved(Ok(h)))
        | (DiscoverState::AwaitHomeConfigDir, DiscoverAnswer::Resolved(Ok(h))) => asks_env(r, "TOAD_ROOT"@)
            && (waits_in(r) matches DiscoverState::AwaitRootEnv { toad_home } && toad_home == h),
        (DiscoverState::AwaitRootEnv { toad_home }, DiscoverAnswer::Text(Some(root))) => asks_canonical(r, root@)
            && waits_in(r) == (DiscoverState::AwaitRootCanonical { toad_home }),
        (DiscoverState::AwaitRootEnv { toad_home }, DiscoverAnswer::Text(None)) => asks_load(r) && waits_in(r)
            == (DiscoverState::AwaitGlobalConfig { toad_home }),
        (DiscoverState::AwaitRootCanonical { toad_home }, DiscoverAnswer::Resolved(Ok(root))) => asks_load(r)
            && waits_in(r) == (DiscoverState::AwaitRootConfig { toad_home, root }),
        (DiscoverState::AwaitRootConfig { toad_home, root }, DiscoverAnswer::Loaded(Ok(Some(c)))) => asks_exists(
            r,
            active_path_of(c),
        ) && (waits_in(r) matches DiscoverState::AwaitActiveExists { toad_home: h, root: rt, active, context }
            && h == toad_home && rt == root && active@ == active_path_of(c) && context == c.active_context),
        (DiscoverState::AwaitRootConfig { toad_home, root }, DiscoverAnswer::Loaded(_)) => asks_exists(
            r,
            path_join(root@, ".toad-root"@),
        ) && waits_in(r) == (DiscoverState::AwaitLegacyMarker { toad_home, root }),
        (DiscoverState::AwaitActiveExists { toad_home, root, active, context }, DiscoverAnswer::Flag(true)) => asks_canonical(
            r,
            active@,
        ) && waits_in(r) == (DiscoverState::AwaitActiveCanonical { toad_home, root, context }),
        (DiscoverState::AwaitActiveExists { toad_home, root, active, context }, DiscoverAnswer::Flag(false)) => asks_exists(
            r,
            path_join(root@, "projects"@),
        ) && waits_in(r) == (DiscoverState::AwaitBaseProjects { toad_home, base: root, context }),
        (DiscoverState::AwaitActiveCanonical { toad_home, root, context }, DiscoverAnswer::Resolved(Ok(base))) => asks_exists(
            r,
            path_join(base@, "projects"@),
        ) && waits_in(r) == (DiscoverState::AwaitBaseProjects { toad_home, base, context }),
        (DiscoverState::AwaitActiveCanonical { toad_home, root, context }, DiscoverAnswer::Resolved(Err(_))) => asks_exists(
            r,
            path_join(root@, "projects"@),
        ) && waits_in(r) == (DiscoverState::AwaitBaseProjects { toad_home, base: root, context }),
        (DiscoverState::AwaitBaseProjects { toad_home, base, context }, DiscoverAnswer::Flag(f)) => settles(
            r,
            toad_home@,
            projects_under(base@, f),
            context,
        ),
        (DiscoverState::AwaitShadowsConfigDir { toad_home, projects_dir, name }, DiscoverAnswer::Resolved(Ok(d))) => finishes_with(
            r,
            toad_home@,
            projects_dir@,
            path_join(context_path_in(d@, name@), "shadows"@),
            Some(name@),
        ),
        (DiscoverState::AwaitLegacyMarker { toad_home, root }, DiscoverAnswer::Flag(true)) => asks_config_dir(r)
            && waits_in(r) == (DiscoverState::AwaitMigrateHome { root }),
        (DiscoverState::AwaitLegacyMarker { toad_home, root }, DiscoverAnswer::Flag(false)) => asks_exists(
            r,
            path_join(root@, "projects"@),
        ) && waits_in(r) == (DiscoverState::AwaitPlainProjects { toad_home, root }),
        (DiscoverState::AwaitPlainProjects { toad_home, root }, DiscoverAnswer::Flag(f)) => finishes_with(
            r,
            toad_home@,
            projects_under(root@, f),
            path_join(toad_home@, "shadows"@),
            None,
        ),
        (DiscoverState::AwaitMigrateHome { root }, DiscoverAnswer::Resolved(Ok(home))) => asks_exists(
            r,
            path_join(root@, ".gitmodules"@),
        ) && waits_in(r) == (DiscoverState::AwaitMigrateGitmodules { root, toad_home: home }),
        (DiscoverState::AwaitMigrateGitmodules { root, toad_home }, DiscoverAnswer::Flag(hub)) => r matches DiscoverStep::Ask(
            DiscoverState::AwaitMigrateClock { root: rt, toad_home: h, hub: b },
            DiscoverQuery::Now,
        ) && rt == root && h == toad_home && b == hub,
        (DiscoverState::AwaitMigrateClock { root, toad_home, hub }, DiscoverAnswer::Time(now)) => r matches DiscoverStep::Ask(
            DiscoverState::AwaitMigrateSaved { root: rt, toad_home: h },
            DiscoverQuery::SaveAndMigrate(c),
        ) && ({
            &&& rt == root
            &&& h == toad_home
            &&& c.home_pointer@ == root@
            &&& (c.active_context matches Some(n) && n@ == "default"@)
            &&& c.project_contexts@.dom() == set!["default"@]
            &&& c.project_contexts@["default"@].path@ == root@
            &&& (c.project_contexts@["default"@].description matches Some(d) && d@
                == "Auto-migrated legacy workspace"@)
            &&& c.project_contexts@["default"@].context_type == (if hub {
                ContextType::Hub
            } else {
                ContextType::Generic
            })
            &&& c.project_contexts@["default"@].ai_vendors@.len() == 0
            &&& c.project_contexts@["default"@].registered_at == now
            &&& c.auto_sync
            &&& c.budget.ecosystem_tokens == 2000
            &&& c.budget.project_tokens == 4000
        }),
        (DiscoverState::AwaitMigrateSaved { root, toad_home }, DiscoverAnswer::Finished(Ok(()))) => asks_exists(
            r,
            path_join(root@, "projects"@),
        ) && waits_in(r) == (DiscoverState::AwaitMigrateProjects { root, toad_home }),
        (DiscoverState::AwaitMigrateSaved { .. }, DiscoverAnswer::Finished(Err(e))) => fails_with(r, e),
        (DiscoverState::AwaitMigrateProjects { root, toad_home }, DiscoverAnswer::Flag(f)) => asks_config_dir(r)
            && (waits_in(r) matches DiscoverState::AwaitMigrateShadows { toad_home: h, projects_dir }
            && h == toad_home && projects_dir@ == projects_under(root@, f)),
        (DiscoverState::AwaitMigrateShadows { toad_home, projects_dir }, DiscoverAnswer::Resolved(Ok(d))) => finishes_with(
            r,
            toad_home@,
            projects_dir@,
            path_join(context_path_in(d@, "default"@), "shadows"@),
            Some("default"@),
        ),
        (DiscoverState::AwaitGlobalConfig { toad_home }, DiscoverAnswer::Loaded(Ok(Some(c)))) => asks_exists(
            r,
            active_path_of(c),
        ) && (waits_in(r) matches DiscoverState::AwaitGlobalExists { toad_home: h, projects_dir, context }
            && h == toad_home && projects_dir@ == active_path_of(c) && context == c.active_context),
        (DiscoverState::AwaitGlobalConfig { toad_home }, DiscoverAnswer::Loaded(_)) => finishes_with(
            r,
            toad_home@,
            "."@,
            path_join(toad_home@, "shadows"@),
            None,
        ),
        (DiscoverState::AwaitGlobalExists { toad_home, projects_dir, context }, DiscoverAnswer::Flag(true)) => asks_canonical(
            r,
            projects_dir@,
        ) && waits_in(r) == (DiscoverState::AwaitGlobalCanonical { toad_home, context }),
        (DiscoverState::AwaitGlobalExists { toad_home, projects_dir, context }, DiscoverAnswer::Flag(false)) => settles(
            r,
            toad_home@,
            projects_dir@,
            context,
        ),
        (DiscoverState::AwaitGlobalCanonical { toad_home, context }, DiscoverAnswer::Resolved(Ok(p))) => settles(
            r,
            toad_home@,
            p@,
            context,
        ),
        (_, DiscoverAnswer::Resolved(Err(e))) => fails_with(r, e),
        _ => true,
    }
}

/// Where discovery begins: asking for `TOAD_HOME`.
pub fn discover_start() -> (r: DiscoverStep)
    ensures
        asks_env(r, "TOAD_HOME"@) && waits_in(r) is AwaitHomeEnv,
{
    DiscoverStep::Ask(DiscoverState::AwaitHomeEnv, DiscoverQuery::EnvVar("TOAD_HOME".to_owned()))
}

fn settle(toad_home: String, projects_dir: String, context: Option<String>) -> (r: DiscoverStep)
    ensures
        settles(r, toad_home@, projects_dir@, context),
{
    match context {
        Some(name) => DiscoverStep::Ask(
            DiscoverState::AwaitShadowsConfigDir { toad_home, projects_dir, name },
            DiscoverQuery::ConfigDir,
        ),
        None => {
            let shadows_dir = join_path(toad_home.as_str(), "shadows");
            DiscoverStep::Done(Ok(Workspace { toad_home, projects_dir, shadows_dir, active_context: None }))
        },
    }
}

fn projects_in(base: String, has_projects: bool) -> (r: String)
    ensures
        r@ == projects_under(base@, has_projects),
{
    if has_projects {
        join_path(base.as_str(), "projects")
    } else {
        base
    }
}

impl DiscoverState {
    /// Whether the state waits for an answer of this kind.
    pub fn accepts(&self, answer: &DiscoverAnswer) -> (r: bool)
        ensures
            r == expects(*self, *answer),
    {
        match self {
            DiscoverState::AwaitHomeEnv | DiscoverState::AwaitRootEnv { .. } => matches!(answer, DiscoverAnswer::Text(_)),
            DiscoverState::AwaitRootConfig { .. } | DiscoverState::AwaitGlobalConfig { .. } => matches!(answer, DiscoverAnswer::Loaded(_)),
            DiscoverState::AwaitActiveExists { .. } | DiscoverState::AwaitBaseProjects { .. }
            | DiscoverState::AwaitLegacyMarker { .. } | DiscoverState::AwaitPlainProjects { .. }
            | DiscoverState::AwaitMigrateGitmodules { .. } | DiscoverState::AwaitMigrateProjects { .. }
            | DiscoverState::AwaitGlobalExists { .. } => matches!(answer, DiscoverAnswer::Flag(_)),
            DiscoverState::AwaitMigrateClock { .. } => matches!(answer, DiscoverAnswer::Time(_)),
            DiscoverState::AwaitMigrateSaved { .. } => matches!(answer, DiscoverAnswer::Finished(_)),
            _ => matches!(answer, DiscoverAnswer::Resolved(_)),
        }
    }

    /// What to do on `answer`.
    pub fn advance(self, answer: DiscoverAnswer) -> (r: DiscoverStep)
        requires
            expects(self, answer),
        ensures
            transition(self, answer, r),
    {
        match (self, answer) {
            (DiscoverState::AwaitHomeEnv, DiscoverAnswer::Text(Some(h))) => DiscoverStep::Ask(
                DiscoverState::AwaitHomeCanonical,
                DiscoverQuery::Canonicalize(h),
            ),
            (DiscoverState::AwaitHomeEnv, DiscoverAnswer::Text(None)) => DiscoverStep::Ask(
                DiscoverState::AwaitHomeConfigDir,
                DiscoverQuery::ConfigDir,
            ),
            (DiscoverState::AwaitHomeCanonical, DiscoverAnswer::Resolved(Ok(h)))
            | (DiscoverState::AwaitHomeConfigDir, DiscoverAnswer::Resolved(Ok(h))) => DiscoverStep::Ask(
                DiscoverState::AwaitRootEnv { toad_home: h },
                DiscoverQuery::EnvVar("TOAD_ROOT".to_owned()),
            ),
            (DiscoverState::AwaitRootEnv { toad_home }, DiscoverAnswer::Text(Some(root))) => DiscoverStep::Ask(
                DiscoverState::AwaitRootCanonical { toad_home },
                DiscoverQuery::Canonicalize(root),
            ),
            (DiscoverState::AwaitRootEnv { toad_home }, DiscoverAnswer::Text(None)) => DiscoverStep::Ask(
                DiscoverState::AwaitGlobalConfig { toad_home },
                DiscoverQuery::LoadConfig,
            ),
            (DiscoverState::AwaitRootCanonical { toad_home }, DiscoverAnswer::Resolved(Ok(root))) => DiscoverStep::Ask(
                DiscoverState::AwaitRootConfig { toad_home, root },
                DiscoverQuery::LoadConfig,
            ),
            (DiscoverState::AwaitRootConfig { toad_home, root }, DiscoverAnswer::Loaded(loaded)) => {
                match loaded {
                    Ok(Some(c)) => {
                        let active = match c.active_path() {
                            Ok(p) => p,
                            Err(_) => c.home_pointer.clone(),
                        };
                        let query = DiscoverQuery::Exists(active.clone());
                        DiscoverStep::Ask(
                            DiscoverState::AwaitActiveExists { toad_home, root, active, context: c.active_context },
                            query,
                        )
                    },
                    _ => {
                        let marker = join_path(root.as_str(), ".toad-root");
                        DiscoverStep::Ask(
                            DiscoverState::AwaitLegacyMarker { toad_home, root },
                            DiscoverQuery::Exists(marker),
                        )
                    },
                }
            },
            (DiscoverState::AwaitActiveExists { toad_home, root, active, context }, DiscoverAnswer::Flag(exists)) => {
                if exists {
                    DiscoverStep::Ask(
                        DiscoverState::AwaitActiveCanonical { toad_home, root, context },
                        DiscoverQuery::Canonicalize(active),
                    )
                } else {
                    let probe = join_path(root.as_str(), "projects");
                    DiscoverStep::Ask(
                        DiscoverState::AwaitBaseProjects { toad_home, base: root, context },
                        DiscoverQuery::Exists(probe),
                    )
                }
            },
            (DiscoverState::AwaitActiveCanonical { toad_home, root, context }, DiscoverAnswer::Resolved(resolved)) => {
                let base = match resolved {
                    Ok(b) => b,
                    Err(_) => root,
                };
                let probe = join_path(base.as_str(), "projects");
                DiscoverStep::Ask(DiscoverState::AwaitBaseProjects { toad_home, base, context }, DiscoverQuery::Exists(probe))
            },
            (DiscoverState::AwaitBaseProjects { toad_home, base, context }, DiscoverAnswer::Flag(f)) => {
                settle(toad_home, projects_in(base, f), context)
            },
            (DiscoverState::AwaitShadowsConfigDir { toad_home, projects_dir, name }, DiscoverAnswer::Resolved(Ok(d))) => {
                let contexts = join_path(d.as_str(), "contexts");
                let context_dir = join_path(contexts.as_str(), name.as_str());
                let shadows_dir = join_path(context_dir.as_str(), "shadows");
                DiscoverStep::Done(Ok(Workspace { toad_home, projects_dir, shadows_dir, active_context: Some(name) }))
            },
            (DiscoverState::AwaitLegacyMarker { toad_home, root }, DiscoverAnswer::Flag(marked)) => {
                if marked {
                    DiscoverStep::Ask(DiscoverState::AwaitMigrateHome { root }, DiscoverQuery::ConfigDir)
                } else {
                    let probe = join_path(root.as_str(), "projects");
                    DiscoverStep::Ask(DiscoverState::AwaitPlainProjects { toad_home, root }, DiscoverQuery::Exists(probe))
                }
            },
            (DiscoverState::AwaitPlainProjects { toad_home, root }, DiscoverAnswer::Flag(f)) => {
                let projects_dir = projects_in(root, f);
                let shadows_dir = join_path(toad_home.as_str(), "shadows");
                DiscoverStep::Done(Ok(Workspace { toad_home, projects_dir, shadows_dir, active_context: None }))
            },
            (DiscoverState::AwaitMigrateHome { root }, DiscoverAnswer::Resolved(Ok(home))) => {
                let probe = join_path(root.as_str(), ".gitmodules");
                DiscoverStep::Ask(
                    DiscoverState::AwaitMigrateGitmodules { root, toad_home: home },
                    DiscoverQuery::Exists(probe),
                )
            },
            (DiscoverState::AwaitMigrateGitmodules { root, toad_home }, DiscoverAnswer::Flag(hub)) => DiscoverStep::Ask(
                DiscoverState::AwaitMigrateClock { root, toad_home, hub },
                DiscoverQuery::Now,
            ),
            (DiscoverState::AwaitMigrateClock { root, toad_home, hub }, DiscoverAnswer::Time(now)) => {
                let context_type = if hub {
                    ContextType::Hub
                } else {
                    ContextType::Generic
                };
                let config = GlobalConfig::single_context(
                    root.clone(),
                    "Auto-migrated legacy workspace",
                    context_type,
                    now,
                );
                DiscoverStep::Ask(DiscoverState::AwaitMigrateSaved { root, toad_home }, DiscoverQuery::SaveAndMigrate(config))
            },
            (DiscoverState::AwaitMigrateSaved { root, toad_home }, DiscoverAnswer::Finished(done)) => {
                match done {
                    Ok(()) => {
                        let probe = join_path(root.as_str(), "projects");
                        DiscoverStep::Ask(
                            DiscoverState::AwaitMigrateProjects { root, toad_home },
                            DiscoverQuery::Exists(probe),
                        )
                    },
                    Err(e) => DiscoverStep::Done(Err(e)),
                }
            },
            (DiscoverState::AwaitMigrateProjects { root, toad_home }, DiscoverAnswer::Flag(f)) => {
                let projects_dir = projects_in(root, f);
                DiscoverStep::Ask(DiscoverState::AwaitMigrateShadows { toad_home, projects_dir }, DiscoverQuery::ConfigDir)
            },
            (DiscoverState::AwaitMigrateShadows { toad_home, projects_dir }, DiscoverAnswer::Resolved(Ok(d))) => {
                let contexts = join_path(d.as_str(), "contexts");
                let context_dir = join_path(contexts.as_str(), "default");
                let shadows_dir = join_path(context_dir.as_str(), "shadows");
                DiscoverStep::Done(
                    Ok(Workspace { toad_home, projects_dir, shadows_dir, active_context: Some("default".to_owned()) }),
                )
            },
            (DiscoverState::AwaitGlobalConfig { toad_home }, DiscoverAnswer::Loaded(loaded)) => {
                match loaded {
                    Ok(Some(c)) => {
                        let projects_dir = match c.active_path() {
                            Ok(p) => p,
                            Err(_) => ".".to_owned(),
                        };
                        let query = DiscoverQuery::Exists(projects_dir.clone());
                        DiscoverStep::Ask(
                            DiscoverState::AwaitGlobalExists { toad_home, projects_dir, context: c.active_context },
                            query,
                        )
                    },
                    _ => {
                        let shadows_dir = join_path(toad_home.as_str(), "shadows");
                        proof {
                            reveal_strlit(".");
                        }
                        DiscoverStep::Done(
                            Ok(Workspace { toad_home, projects_dir: ".".to_owned(), shadows_dir, active_context: None }),
                        )
                    },
                }
            },
            (DiscoverState::AwaitGlobalExists { toad_home, projects_dir, context }, DiscoverAnswer::Flag(exists)) => {
                if exists {
                    DiscoverStep::Ask(
                        DiscoverState::AwaitGlobalCanonical { toad_home, context },
                        DiscoverQuery::Canonicalize(projects_dir),
                    )
                } else {
                    settle(toad_home, projects_dir, context)
                }
            },
            (DiscoverState::AwaitGlobalCanonical { toad_home, context }, DiscoverAnswer::Resolved(Ok(p))) => {
                settle(toad_home, p, context)
            },
            (_, DiscoverAnswer::Resolved(Err(e))) => DiscoverStep::Done(Err(e)),
            (_, _) => DiscoverStep::Done(Err(ToadError::WorkspaceNotFound)),
        }
    }
}

/// Discovery is migrating a legacy root, with home `h`.
pub open spec fn migrating(s: DiscoverState, h: Seq<char>) -> bool {
    match s {
        DiscoverState::AwaitMigrateGitmodules { toad_home, .. } | DiscoverState::AwaitMigrateClock {
            toad_home,
            ..
        } | DiscoverState::AwaitMigrateSaved { toad_home, .. } | DiscoverState::AwaitMigrateProjects {
            toad_home,
            ..
        } | DiscoverState::AwaitMigrateShadows { toad_home, .. } => toad_home@ == h,
        _ => false,
    }
}

/// Every workspace that discovery finishes with keeps its shadows where its
/// active context says: in the home when there is none, else in that
/// context's directory under the configuration directory just looked up.
pub proof fn law_shadows_follow_context(s: DiscoverState, a: DiscoverAnswer, r: DiscoverStep)
    requires
        expects(s, a),
        transition(s, a, r),
        r is Done,
    ensures
        r matches DiscoverStep::Done(Ok(w)) ==> match w.active_context {
            None => w.shadows_dir@ == path_join(w.toad_home@, "shadows"@),
            Some(n) => (s is AwaitShadowsConfigDir || s is AwaitMigrateShadows) && (a matches DiscoverAnswer::Resolved(
                Ok(d),
            ) && w.shadows_dir@ == path_join(context_path_in(d@, n@), "shadows"@)),
        },
{
}

/// A root marked `.toad-root` without a loadable configuration starts a
/// migration whose home is the configuration directory looked up then, and
/// not `TOAD_HOME`.
pub proof fn law_legacy_root_migrates(
    s: DiscoverState,
    a: DiscoverAnswer,
    r: DiscoverStep,
    a2: DiscoverAnswer,
    r2: DiscoverStep,
)
    requires
        s is AwaitLegacyMarker,
        a == DiscoverAnswer::Flag(true),
        transition(s, a, r),
        transition(waits_in(r), a2, r2),
        a2 matches DiscoverAnswer::Resolved(Ok(_)),
    ensures
        asks_config_dir(r),
        a2 matches DiscoverAnswer::Resolved(Ok(h)) && r2 is Ask && migrating(waits_in(r2), h@),
{
}

/// Once migrating with home `h`, discovery keeps that home: each step fails,
/// goes on migrating with home `h`, or finishes with home `h` and `default`
/// as the active context.
pub proof fn law_migration_keeps_home(s: DiscoverState, a: DiscoverAnswer, r: DiscoverStep, h: Seq<char>)
    requires
        migrating(s, h),
        expects(s, a),
        transition(s, a, r),
    ensures
        (r matches DiscoverStep::Done(Err(_))) || (r is Ask && migrating(waits_in(r), h)) || (r matches DiscoverStep::Done(
            Ok(w),
        ) && w.toad_home@ == h && opt_text(w.active_context) == Some("default"@)),
{
}

/// Without `TOAD_ROOT`, a loaded configuration whose active context is
/// `name` and whose active path exists and is canonically `p` gives, once
/// the configuration directory `d` is looked up, the workspace whose
/// projects are at `p`, whose active context is `name`, and whose shadows
/// are in `d/contexts/name/shadows`.
pub proof fn law_global_config_keeps_active_context(
    home: String,
    c: GlobalConfig,
    name: String,
    p: String,
    d: String,
    r1: DiscoverStep,
    r2: DiscoverStep,
    r3: DiscoverStep,
    r4: DiscoverStep,
)
    requires
        c.active_context == Some(name),
        transition(DiscoverState::AwaitGlobalConfig { toad_home: home }, DiscoverAnswer::Loaded(Ok(Some(c))), r1),
        transition(waits_in(r1), DiscoverAnswer::Flag(true), r2),
        transition(waits_in(r2), DiscoverAnswer::Resolved(Ok(p)), r3),
        transition(waits_in(r3), DiscoverAnswer::Resolved(Ok(d)), r4),
    ensures
        asks_exists(r1, active_path_of(c)),
        asks_canonical(r2, active_path_of(c)),
        asks_config_dir(r3),
        r4 matches DiscoverStep::Done(Ok(w)) && w.toad_home@ == home@ && w.projects_dir@ == p@
            && (w.active_context matches Some(n) && n@ == name@) && w.shadows_dir@ == path_join(
            path_join(path_join(d@, "contexts"@), name@),
            "shadows"@,
        ),
{
}

/// Without `TOAD_ROOT`, a loaded configuration without an active context
/// whose active path exists and is canonically `p` gives the workspace whose
/// projects are at `p`, with no active context and shadows in the home.
pub proof fn law_global_config_without_context(
    home: String,
    c: GlobalConfig,
    p: String,
    r1: DiscoverStep,
    r2: DiscoverStep,
    r3: DiscoverStep,
)
    requires
        c.active_context is None,
        transition(DiscoverState::AwaitGlobalConfig { toad_home: home }, DiscoverAnswer::Loaded(Ok(Some(c))), r1),
        transition(waits_in(r1), DiscoverAnswer::Flag(true), r2),
        transition(waits_in(r2), DiscoverAnswer::Resolved(Ok(p)), r3),
    ensures
        asks_exists(r1, c.home_pointer@),
        r3 matches DiscoverStep::Done(Ok(w)) && w.toad_home@ == home@ && w.projects_dir@ == p@
            && w.active_context is None && w.shadows_dir@ == path_join(home@, "shadows"@),
{
}

/// After the migrated configuration of legacy root `root` is saved, the
/// workspace has its projects in `root/projects` when that exists and in
/// `root` otherwise, `default` as its active context, the configuration
/// directory `d` as its home, and its shadows in `d/contexts/default/shadows`.
pub proof fn law_migrated_workspace(
    root: String,
    home: String,
    has_projects: bool,
    d: String,
    r1: DiscoverStep,
    r2: DiscoverStep,
    r3: DiscoverStep,
)
    requires
        transition(DiscoverState::AwaitMigrateSaved { root, toad_home: home }, DiscoverAnswer::Finished(Ok(())), r1),
        transition(waits_in(r1), DiscoverAnswer::Flag(has_projects), r2),
        transition(waits_in(r2), DiscoverAnswer::Resolved(Ok(d)), r3),
    ensures
        asks_exists(r1, path_join(root@, "projects"@)),
        asks_config_dir(r2),
        r3 matches DiscoverStep::Done(Ok(w)) && w.toad_home@ == home@ && w.projects_dir@ == (if has_projects {
            path_join(root@, "projects"@)
        } else {
            root@
        }) && (w.active_context matches Some(n) && n@ == "default"@) && w.shadows_dir@ == path_join(
            path_join(path_join(d@, "contexts"@), "default"@),
            "shadows"@,
        ),
{
}

/// The projects directory that a step has settled on, finished or waiting
/// for the shadow directory.
pub open spec fn settled_projects(r: DiscoverStep) -> Option<Seq<char>> {
    match r {
        DiscoverStep::Done(Ok(w)) => Some(w.projects_dir@),
        DiscoverStep::Ask(DiscoverState::AwaitShadowsConfigDir { projects_dir, .. }, _) => Some(projects_dir@),
        DiscoverStep::Ask(DiscoverState::AwaitMigrateShadows { projects_dir, .. }, _) => Some(projects_dir@),
        _ => None,
    }
}

/// Every branch with `TOAD_ROOT` settles its projects in the `projects`
/// subdirectory of its base when that exists, and in the base otherwise:
/// the base is the active path (or the root) with a configuration, the
/// root without one, and the legacy root when migrating.
pub proof fn law_projects_subdirectory(s: DiscoverState, has_projects: bool, r: DiscoverStep)
    requires
        s is AwaitBaseProjects || s is AwaitPlainProjects || s is AwaitMigrateProjects,
        transition(s, DiscoverAnswer::Flag(has_projects), r),
    ensures
        ({
            let base = match s {
                DiscoverState::AwaitBaseProjects { base, .. } => base@,
                DiscoverState::AwaitPlainProjects { root, .. } => root@,
                DiscoverState::AwaitMigrateProjects { root, .. } => root@,
                _ => Seq::<char>::empty(),
            };
            settled_projects(r) == Some(if has_projects {
                path_join(base, "projects"@)
            } else {
                base
            })
        }),
{
}

/// The home is the canonical form of `TOAD_HOME` when that is set, else
/// the configuration directory; discovery then asks for `TOAD_ROOT`.
pub proof fn law_home_tier(home_env: Option<String>, h: String, r1: DiscoverStep, r2: DiscoverStep)
    requires
        transition(DiscoverState::AwaitHomeEnv, DiscoverAnswer::Text(home_env), r1),
        transition(waits_in(r1), DiscoverAnswer::Resolved(Ok(h)), r2),
    ensures
        match home_env {
            Some(e) => asks_canonical(r1, e@),
            None => asks_config_dir(r1),
        },
        asks_env(r2, "TOAD_ROOT"@),
        waits_in(r2) matches DiscoverState::AwaitRootEnv { toad_home } && toad_home@ == h@,
{
}

/// With `TOAD_ROOT` at canonical root `root` and a loaded configuration
/// whose active context is `name` and whose active path exists and is
/// canonically `b`, the projects are in `b/projects` when that exists and
/// in `b` otherwise, the active context is `name`, and the shadows are in
/// `d/contexts/name/shadows` for the configuration directory `d`.
pub proof fn law_root_with_config(
    home: String,
    root: String,
    c: GlobalConfig,
    name: String,
    b: String,
    has_projects: bool,
    d: String,
    r1: DiscoverStep,
    r2: DiscoverStep,
    r3: DiscoverStep,
    r4: DiscoverStep,
    r5: DiscoverStep,
)
    requires
        c.active_context == Some(name),
        transition(DiscoverState::AwaitRootConfig { toad_home: home, root }, DiscoverAnswer::Loaded(Ok(Some(c))), r1),
        transition(waits_in(r1), DiscoverAnswer::Flag(true), r2),
        transition(waits_in(r2), DiscoverAnswer::Resolved(Ok(b)), r3),
        transition(waits_in(r3), DiscoverAnswer::Flag(has_projects), r4),
        transition(waits_in(r4), DiscoverAnswer::Resolved(Ok(d)), r5),
    ensures
        asks_exists(r1, active_path_of(c)),
        asks_canonical(r2, active_path_of(c)),
        asks_exists(r3, path_join(b@, "projects"@)),
        asks_config_dir(r4),
        r5 matches DiscoverStep::Done(Ok(w)) && w.toad_home@ == home@ && w.projects_dir@ == (if has_projects {
            path_join(b@, "projects"@)
        } else {
            b@
        }) && (w.active_context matches Some(n) && n@ == name@) && w.shadows_dir@ == path_join(
            path_join(path_join(d@, "contexts"@), name@),
            "shadows"@,
        ),
{
}

/// With `TOAD_ROOT` and a loaded configuration whose active path does not
/// exist, or does not canonicalize, the root stands in for it.
pub proof fn law_root_stands_in_for_active_path(
    home: String,
    root: String,
    c: GlobalConfig,
    active_exists: bool,
    canonical_error: ToadError,
    r1: DiscoverStep,
    r2: DiscoverStep,
    r3: DiscoverStep,
)
    requires
        transition(DiscoverState::AwaitRootConfig { toad_home: home, root }, DiscoverAnswer::Loaded(Ok(Some(c))), r1),
        transition(waits_in(r1), DiscoverAnswer::Flag(active_exists), r2),
        active_exists ==> transition(waits_in(r2), DiscoverAnswer::Resolved(Err(canonical_error)), r3),
    ensures
        !active_exists ==> asks_exists(r2, path_join(root@, "projects"@)),
        active_exists ==> asks_exists(r3, path_join(root@, "projects"@)),
{
}

/// With `TOAD_ROOT` at `root`, no loadable configuration and no
/// `.toad-root` marker, the root is used as it is: its projects are in
/// `root/projects` when that exists and in `root` otherwise, with no active
/// context and shadows in the home.
pub proof fn law_plain_root(
    home: String,
    root: String,
    loaded: ToadResult<Option<GlobalConfig>>,
    has_projects: bool,
    r1: DiscoverStep,
    r2: DiscoverStep,
    r3: DiscoverStep,
)
    requires
        !(loaded matches Ok(Some(_))),
        transition(DiscoverState::AwaitRootConfig { toad_home: home, root }, DiscoverAnswer::Loaded(loaded), r1),
        transition(waits_in(r1), DiscoverAnswer::Flag(false), r2),
        transition(waits_in(r2), DiscoverAnswer::Flag(has_projects), r3),
    ensures
        asks_exists(r1, path_join(root@, ".toad-root"@)),
        asks_exists(r2, path_join(root@, "projects"@)),
        r3 matches DiscoverStep::Done(Ok(w)) && w.toad_home@ == home@ && w.projects_dir@ == (if has_projects {
            path_join(root@, "projects"@)
        } else {
            root@
        }) && w.active_context is None && w.shadows_dir@ == path_join(home@, "shadows"@),
{
}

/// Without `TOAD_ROOT` and without a loadable configuration, the workspace
/// is uninitialized: projects in `.`, shadows in the home, no context.
pub proof fn law_uninitialized(home: String, loaded: ToadResult<Option<GlobalConfig>>, r: DiscoverStep)
    requires
        !(loaded matches Ok(Some(_))),
        transition(DiscoverState::AwaitGlobalConfig { toad_home: home }, DiscoverAnswer::Loaded(loaded), r),
    ensures
        r matches DiscoverStep::Done(Ok(w)) && w.toad_home@ == home@ && w.projects_dir@ == "."@
            && w.active_context is None && w.shadows_dir@ == path_join(home@, "shadows"@),
{
}

/// Migrating legacy root `root` saves the configuration with `root` as home
/// pointer and as the path of the one context, `default`, which is active:
/// a hub when `root/.gitmodules` exists and generic otherwise, registered at
/// the time asked for, with automatic sync and the default budgets.
pub proof fn law_migration_configuration(
    root: String,
    h: String,
    hub: bool,
    now: Timestamp,
    r1: DiscoverStep,
    r2: DiscoverStep,
    r3: DiscoverStep,
)
    requires
        transition(DiscoverState::AwaitMigrateHome { root }, DiscoverAnswer::Resolved(Ok(h)), r1),
        transition(waits_in(r1), DiscoverAnswer::Flag(hub), r2),
        transition(waits_in(r2), DiscoverAnswer::Time(now), r3),
    ensures
        asks_exists(r1, path_join(root@, ".gitmodules"@)),
        r2 matches DiscoverStep::Ask(_, DiscoverQuery::Now),
        r3 matches DiscoverStep::Ask(_, DiscoverQuery::SaveAndMigrate(c)) && c.home_pointer@ == root@
            && (c.active_context matches Some(n) && n@ == "default"@) && c.project_contexts@.dom() == set![
            "default"@,
        ] && c.project_contexts@["default"@].path@ == root@ && (c.project_contexts@["default"@].context_type
            == if hub {
            ContextType::Hub
        } else {
            ContextType::Generic
        }) && c.project_contexts@["default"@].registered_at == now && c.auto_sync
            && c.budget.ecosystem_tokens == 2000 && c.budget.project_tokens == 4000,
        migrating(waits_in(r3), h@),
{
}

/// A failure to canonicalize, to look up the configuration directory, or
/// to save the migrated configuration ends discovery with that error; only
/// a failure to canonicalize the active path is passed over.
pub proof fn law_failures_end_discovery(s: DiscoverState, e: ToadError, r: DiscoverStep)
    requires
        !(s is AwaitActiveCanonical),
        expects(s, DiscoverAnswer::Resolved(Err(e))) && transition(s, DiscoverAnswer::Resolved(Err(e)), r)
            || s is AwaitMigrateSaved && transition(s, DiscoverAnswer::Finished(Err(e)), r),
    ensures
        r == DiscoverStep::Done(Err(e)),
{
}

} // verus!
