use toad_core::config::{
    default_ecosystem_tokens, default_project_tokens, default_true, ConfigDirLookup, ConfigProbe,
    ContextBudget, ContextType, GlobalConfig, LegacyFacts,
};
use toad_core::error::ToadError;
use toad_core::models::diagnostics::{DiagnosticReport, DiagnosticSeverity, ParseDiagnostic};
use toad_core::models::{ActivityTier, StackStrategy, TargetSource, VcsStatus};
use toad_core::registry::project_registry_path;
use toad_core::strategy::{has_toml_extension, sort_by_priority, StrategyRegistry};
use toad_core::time::Timestamp;
use toad_core::ui::{NoOpReporter, ProgressReporter};
use toad_core::utils::{estimate_tokens, truncate_by_tokens};
use toad_core::workflow::WorkflowRegistry;

fn strategy(name: &str, files: &[&str], priority: i32) -> StackStrategy {
    StackStrategy {
        name: name.to_string(),
        match_files: files.iter().map(|f| f.to_string()).collect(),
        artifacts: vec![],
        tags: vec![],
        priority,
    }
}

#[test]
fn strategy_matches_marker_files() {
    let rust = strategy("Rust", &["Cargo.toml"], 10);
    assert!(rust.matches(&["README.md".to_string(), "Cargo.toml".to_string()]));
    assert!(!rust.matches(&["package.json".to_string()]));
    assert!(!rust.matches(&[]));
}

#[test]
fn strategies_sorted_by_descending_priority_stably() {
    let v = vec![strategy("a", &[], 10), strategy("b", &[], 20), strategy("c", &[], 10), strategy("d", &[], 5)];
    let names: Vec<String> = sort_by_priority(v).into_iter().map(|s| s.name).collect();
    assert_eq!(names, vec!["b", "a", "c", "d"]);
}

#[test]
fn custom_strategy_replaces_builtin_of_same_file() {
    let builtin = vec![
        ("rust.toml".to_string(), strategy("Rust", &["Cargo.toml"], 10)),
        ("go.toml".to_string(), strategy("Go", &["go.mod"], 10)),
    ];
    let custom = vec![("rust.toml".to_string(), strategy("MyRust", &["Cargo.toml"], 30))];
    let reg = StrategyRegistry::from_layers(builtin, custom);
    let names: Vec<String> = reg.strategies.iter().map(|s| s.name.clone()).collect();
    assert_eq!(names, vec!["MyRust", "Go"]);
}

#[test]
fn load_from_dir_orders_entries() {
    let entries = vec![
        ("docker.toml".to_string(), strategy("Docker", &["Dockerfile"], 5)),
        ("mono.toml".to_string(), strategy("Monorepo", &["nx.json"], 20)),
        ("rust.toml".to_string(), strategy("Rust", &["Cargo.toml"], 10)),
    ];
    let names: Vec<String> = StrategyRegistry::load_from_dir(entries).into_iter().map(|s| s.name).collect();
    assert_eq!(names, vec!["Monorepo", "Rust", "Docker"]);
}

#[test]
fn load_from_dir_keeps_file_order_within_a_priority() {
    let entries = vec![
        ("node.toml".to_string(), strategy("NodeJS", &["package.json"], 10)),
        ("tauri.toml".to_string(), strategy("Tauri", &["tauri.conf.json"], 15)),
        ("go.toml".to_string(), strategy("Go", &["go.mod"], 10)),
        ("wails.toml".to_string(), strategy("Wails", &["wails.json"], 15)),
    ];
    let names: Vec<String> = StrategyRegistry::load_from_dir(entries).into_iter().map(|s| s.name).collect();
    assert_eq!(names, vec!["Tauri", "Wails", "NodeJS", "Go"]);
}

#[test]
fn toml_extension() {
    assert!(has_toml_extension("rust.toml"));
    assert!(has_toml_extension("a.b.toml"));
    assert!(!has_toml_extension(".toml"));
    assert!(!has_toml_extension("toml"));
    assert!(!has_toml_extension("rust.tomlx"));
    assert!(!has_toml_extension("rust.json"));
}

#[test]
fn token_estimate_and_truncation() {
    assert_eq!(estimate_tokens("abcdefgh"), 2);
    assert_eq!(estimate_tokens("abc"), 0);
    assert_eq!(estimate_tokens("éééé"), 1);
    assert_eq!(truncate_by_tokens("abcd", 1), "abcd");
    // the note does not fit in one token: the text is cut to the limit
    assert_eq!(truncate_by_tokens("abcde", 1), "abcd");
    let once = truncate_by_tokens("0123456789", 2);
    assert_eq!(once, "01234567");
    assert_eq!(truncate_by_tokens(&once, 2), once);
    assert_eq!(estimate_tokens(&once), 2);
    // ten tokens leave room for four characters and the note
    let long = "abcdefghijklmnopqrstuvwxyz0123456789ABCDEFGHIJ";
    let cut = truncate_by_tokens(long, 10);
    assert_eq!(cut, "abcd\n... [Truncated due to token budget]");
    assert_eq!(cut.chars().count(), 40);
    assert!(estimate_tokens(&cut) <= 10);
    assert_eq!(truncate_by_tokens(&cut, 10), cut);
    let exact: String = "x".repeat(40);
    assert_eq!(truncate_by_tokens(&exact, 10), exact);
}

fn diag(sev: DiagnosticSeverity) -> ParseDiagnostic {
    let d = ParseDiagnostic::error("p".to_string(), "/p".to_string(), "Cargo.toml".to_string(), "bad".to_string());
    ParseDiagnostic { severity: sev, ..d }
}

#[test]
fn diagnostics_count_and_merge() {
    let mut a = DiagnosticReport::new();
    assert!(!a.has_errors());
    assert_eq!(a.error_count(), 0);
    a.add(diag(DiagnosticSeverity::Error));
    a.add(diag(DiagnosticSeverity::Warning));
    a.add(diag(DiagnosticSeverity::Info));
    let mut b = DiagnosticReport::default();
    b.add(diag(DiagnosticSeverity::Error));
    assert!(a.has_errors() && a.has_warnings());
    assert!(!b.has_warnings());
    a.merge(b);
    assert_eq!(a.error_count(), 2);
    assert_eq!(a.warning_count(), 1);
    assert_eq!(a.diagnostics.len(), 4);
}

#[test]
fn diagnostic_constructors() {
    let e = ParseDiagnostic::error("n".to_string(), "/n".to_string(), "f".to_string(), "m".to_string());
    assert_eq!(e.severity, DiagnosticSeverity::Error);
    assert_eq!(e.details, None);
    let w = ParseDiagnostic::warning("n".to_string(), "/n".to_string(), "f".to_string(), "m".to_string())
        .with_details("more".to_string());
    assert_eq!(w.severity, DiagnosticSeverity::Warning);
    assert_eq!(w.details, Some("more".to_string()));
    assert_eq!(w.message, "m");
}

#[test]
fn budget_defaults() {
    let b = ContextBudget::default();
    assert_eq!(b.ecosystem_tokens, 2000);
    assert_eq!(b.project_tokens, 4000);
    assert_eq!(default_ecosystem_tokens(), 2000);
    assert_eq!(default_project_tokens(), 4000);
    assert!(default_true());
}

#[test]
fn config_dir_lookup_order() {
    let base = ConfigDirLookup { base_dir: Some("/base".to_string()), env_override: None, home_dir: Some("/home/u".to_string()) };
    assert_eq!(GlobalConfig::config_dir(&base).unwrap(), "/base");
    let env = ConfigDirLookup { base_dir: None, env_override: Some(Ok("/env".to_string())), home_dir: Some("/home/u".to_string()) };
    assert_eq!(GlobalConfig::config_dir(&env).unwrap(), "/env");
    let home = ConfigDirLookup { base_dir: None, env_override: None, home_dir: Some("/home/u".to_string()) };
    assert_eq!(GlobalConfig::config_dir(&home).unwrap(), "/home/u/.toad");
    assert_eq!(GlobalConfig::contexts_dir(&home).unwrap(), "/home/u/.toad/contexts");
    assert_eq!(GlobalConfig::context_dir("work", &home).unwrap(), "/home/u/.toad/contexts/work");
    assert_eq!(GlobalConfig::config_path(&home).unwrap(), "/home/u/.toad/config.json");
    assert_eq!(WorkflowRegistry::registry_path(&home).unwrap(), "/home/u/.toad/workflows.json");
    assert_eq!(project_registry_path(Some("c"), &home).unwrap(), "/home/u/.toad/contexts/c/registry.json");
    assert_eq!(project_registry_path(None, &home).unwrap(), "/home/u/.toad/registry.json");
}

#[test]
fn config_dir_errors() {
    let none = ConfigDirLookup { base_dir: None, env_override: None, home_dir: None };
    match GlobalConfig::config_dir(&none) {
        Err(ToadError::Config(m)) => assert_eq!(m, "Could not find home directory"),
        _ => panic!("expected a configuration error"),
    }
    let bad = ConfigDirLookup { base_dir: None, env_override: Some(Err(ToadError::Io("gone".to_string()))), home_dir: None };
    assert!(matches!(GlobalConfig::context_dir("x", &bad), Err(ToadError::Io(ref m)) if m == "gone"));
}

#[test]
fn active_path_prefers_registered_context() {
    let mut c = GlobalConfig::migrated_from_legacy("/tmp/fake".to_string(), Timestamp { secs: 5, nanos: 0 });
    assert_eq!(c.active_path().unwrap(), "/tmp/fake");
    c.project_contexts.get("default").unwrap();
    c.home_pointer = "/elsewhere".to_string();
    assert_eq!(c.active_path().unwrap(), "/tmp/fake");
    c.active_context = Some("nope".to_string());
    assert_eq!(c.active_path().unwrap(), "/elsewhere");
    c.active_context = None;
    assert_eq!(c.active_path().unwrap(), "/elsewhere");
}

#[test]
fn legacy_config_is_recognized() {
    let legacy = ConfigProbe { has_active_context: false, has_project_contexts: false, home_pointer: Some("/old".to_string()) };
    assert_eq!(GlobalConfig::legacy_home_pointer(&legacy), Some("/old".to_string()));
    let current = ConfigProbe { has_active_context: true, has_project_contexts: false, home_pointer: Some("/old".to_string()) };
    assert_eq!(GlobalConfig::legacy_home_pointer(&current), None);
    let c = GlobalConfig::migrated_from_legacy("/old".to_string(), Timestamp { secs: 1, nanos: 2 });
    assert_eq!(c.active_context, Some("default".to_string()));
    let ctx = c.project_contexts.get("default").unwrap();
    assert_eq!(ctx.description, Some("Auto-migrated default context".to_string()));
    assert_eq!(ctx.context_type, ContextType::Generic);
    assert!(c.auto_sync);
    assert_eq!(c.budget.ecosystem_tokens, 2000);
}

#[test]
fn artifact_plan() {
    let c = GlobalConfig::migrated_from_legacy("/old".to_string(), Timestamp { secs: 1, nanos: 2 });
    let paths = c.legacy_paths("/cfg");
    assert_eq!(paths.legacy_registry, "/cfg/registry.json");
    assert_eq!(paths.legacy_shadows, "/old/shadows");
    assert_eq!(paths.target_shadows, "/cfg/contexts/default/shadows");
    assert_eq!(paths.target_registry, "/cfg/contexts/default/registry.json");
    let facts = LegacyFacts {
        legacy_registry_exists: true,
        target_registry_exists: false,
        legacy_shadows_exists: true,
        legacy_shadows_is_dir: true,
    };
    let plan = GlobalConfig::plan_artifact_migration(&paths, &facts);
    assert_eq!(plan.create_dir, Some("/cfg/contexts/default/shadows".to_string()));
    assert_eq!(plan.registry_move, Some(("/cfg/registry.json".to_string(), "/cfg/contexts/default/registry.json".to_string())));
    assert_eq!(plan.messages[0], "Migrated registry.json to \"/cfg/contexts/default/registry.json\"");
    assert_eq!(plan.messages[1], "Migrated shadows from \"/old/shadows\" to \"/cfg/contexts/default/shadows\"");
    let nothing = LegacyFacts {
        legacy_registry_exists: false,
        target_registry_exists: false,
        legacy_shadows_exists: false,
        legacy_shadows_is_dir: false,
    };
    let plan = GlobalConfig::plan_artifact_migration(&paths, &nothing);
    assert!(plan.create_dir.is_none() && plan.registry_move.is_none() && plan.shadows_move.is_none());
    assert!(plan.messages.is_empty());
    assert_eq!(GlobalConfig::entries_to_move(&vec![false, true, false]), vec![0, 2]);
}

#[test]
fn error_messages() {
    assert_eq!(ToadError::WorkspaceNotFound.message(), "Workspace not found. Use 'toad home <path>' to anchor a directory.");
    assert_eq!(ToadError::Io("x".to_string()).message(), "IO error: x");
    assert_eq!(ToadError::Serde("x".to_string()).message(), "Serialization error: x");
    assert_eq!(ToadError::Toml("x".to_string()).message(), "Toml error: x");
    assert_eq!(ToadError::Git("x".to_string()).message(), "Git error: x");
    assert_eq!(ToadError::PathNotFound("/a \"b\"".to_string()).message(), "Path does not exist: \"/a \\\"b\\\"\"");
    assert_eq!(ToadError::ContextExists("x".to_string()).message(), "Context already exists: x");
    assert_eq!(ToadError::ContextNotFound("x".to_string()).message(), "Context not found: x");
    assert_eq!(ToadError::Config("x".to_string()).message(), "Configuration error: x");
    assert_eq!(ToadError::OperationFailed("x".to_string()).message(), "Operation failed: x");
    assert_eq!(ToadError::Discovery("x".to_string()).message(), "Discovery error: x");
    assert_eq!(ToadError::Anyhow("x".to_string()).message(), "Other error: x");
    assert_eq!(ToadError::Other("x".to_string()).message(), "x");
}

#[test]
fn labels() {
    assert_eq!(ContextType::Hub.label(), "Hub");
    assert_eq!(ContextType::Pond.label(), "Pond");
    assert_eq!(ContextType::Generic.label(), "Generic");
    assert_eq!(ActivityTier::Active.label(), "🔥 Active");
    assert_eq!(ActivityTier::Cold.label(), "❄️ Cold");
    assert_eq!(ActivityTier::Archive.label(), "🗄️ Archive");
    assert_eq!(VcsStatus::Clean.label(), "✅ Clean");
    assert_eq!(VcsStatus::Dirty.label(), "⚠️ Dirty");
    assert_eq!(VcsStatus::Untracked.label(), "❓ Untracked");
    assert_eq!(VcsStatus::NoRepo.label(), "N/A");
    assert_eq!(TargetSource::HubRoot.label(), "HubRoot");
    assert_eq!(TargetSource::Submodule.label(), "Submodule");
    assert_eq!(TargetSource::PondProject.label(), "PondProject");
    assert_eq!(TargetSource::Orphan.label(), "Orphan");
}

#[test]
fn workflow_reserved_names() {
    let mut reg = WorkflowRegistry::default();
    reg.reserved_namespaces.push("git".to_string());
    assert!(reg.is_reserved("git"));
    assert!(!reg.is_reserved("deploy"));
}

#[test]
fn noop_reporter_does_nothing() {
    let r = NoOpReporter;
    r.set_message("m");
    r.inc(1);
    r.set_length(10);
    r.finish();
    r.finish_with_message("done");
}

#[test]
fn legacy_config_text_is_recognized() {
    assert_eq!(GlobalConfig::legacy_home_in(r#"{"home_pointer": "/old"}"#).unwrap(), Some("/old".to_string()));
    assert_eq!(
        GlobalConfig::legacy_home_in(r#"{"home_pointer": "/old", "active_context": null}"#).unwrap(),
        None
    );
    assert_eq!(GlobalConfig::legacy_home_in(r#"{"home_pointer": "/old", "project_contexts": {}}"#).unwrap(), None);
    assert_eq!(GlobalConfig::legacy_home_in(r#"{"home_pointer": 5}"#).unwrap(), None);
    let expected = serde_json::from_str::<serde_json::Value>("{").unwrap_err().to_string();
    match GlobalConfig::legacy_home_in("{") {
        Err(ToadError::Serde(m)) => assert_eq!(m, expected),
        _ => panic!("expected a serialization error"),
    }
}
