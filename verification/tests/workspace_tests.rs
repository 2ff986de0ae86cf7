use std::path::PathBuf;

use toad_core::config::{ConfigDirLookup, ContextType, GlobalConfig};
use toad_core::discover::{discover_start, DiscoverAnswer, DiscoverQuery, DiscoverState, DiscoverStep};
use toad_core::error::ToadError;
use toad_core::fingerprint::{fingerprint_of, mix_step, name_sum, sort_by_name, EntrySnapshot, FingerprintSnapshot};
use toad_core::time::Timestamp;
use toad_core::workspace::{Workspace, HIGH_VALUE_FILES};

fn text(p: &PathBuf) -> String {
    p.to_str().unwrap().to_string()
}

#[test]
fn test_workspace_paths() {
    let home = PathBuf::from("/tmp/toad_home");
    let projects = PathBuf::from("/tmp/projects");
    let ws = Workspace {
        toad_home: text(&home),
        projects_dir: text(&projects),
        shadows_dir: text(&home.join("shadows")),
        active_context: None,
    };
    assert_eq!(PathBuf::from(&ws.projects_dir), projects);
    assert_eq!(PathBuf::from(&ws.shadows_dir), home.join("shadows"));
    assert_eq!(PathBuf::from(ws.manifest_path()), home.join("shadows").join("MANIFEST.md"));
}

#[test]
fn workspace_state_files_live_in_shadows() {
    let ws = Workspace {
        toad_home: "/h".to_string(),
        projects_dir: "/p".to_string(),
        shadows_dir: "/h/shadows/".to_string(),
        active_context: None,
    };
    assert_eq!(ws.tags_path(), "/h/shadows/tags.json");
    assert_eq!(ws.context_json_path(), "/h/shadows/context.json");
    assert_eq!(ws.changelog_path(), "/h/shadows/CHANGELOG.json");
    assert_eq!(HIGH_VALUE_FILES.len(), 18);
    assert_eq!(HIGH_VALUE_FILES[17], ".git/index");
}

fn lookup_at(dir: &str) -> ConfigDirLookup {
    ConfigDirLookup { base_dir: None, env_override: Some(Ok(dir.to_string())), home_dir: None }
}

#[test]
fn with_root_uses_context_shadows() {
    let ws = Workspace::with_root("/code".to_string(), Some("work".to_string()), &lookup_at("/cfg"));
    assert_eq!(ws.toad_home, "/cfg");
    assert_eq!(ws.projects_dir, "/code");
    assert_eq!(ws.shadows_dir, "/cfg/contexts/work/shadows");
    assert_eq!(ws.active_context, Some("work".to_string()));

    let ws = Workspace::with_root("/code".to_string(), None, &lookup_at("/cfg"));
    assert_eq!(ws.shadows_dir, "/cfg/shadows");
}

#[test]
fn with_root_without_config_dir_falls_back_to_dot() {
    let lookup = ConfigDirLookup { base_dir: None, env_override: None, home_dir: None };
    let ws = Workspace::with_root("/code".to_string(), Some("work".to_string()), &lookup);
    assert_eq!(ws.toad_home, ".");
    assert_eq!(ws.shadows_dir, "./shadows");
}

fn expect_ask(step: DiscoverStep) -> (DiscoverState, DiscoverQuery) {
    match step {
        DiscoverStep::Ask(s, q) => (s, q),
        DiscoverStep::Done(_) => panic!("discovery finished early"),
    }
}

fn expect_done(step: DiscoverStep) -> Result<Workspace, ToadError> {
    match step {
        DiscoverStep::Done(r) => r,
        DiscoverStep::Ask(..) => panic!("discovery asked another question"),
    }
}

#[test]
fn discover_without_root_or_config_is_uninitialized() {
    let (s, q) = expect_ask(discover_start());
    assert!(matches!(q, DiscoverQuery::EnvVar(ref n) if n == "TOAD_HOME"));
    let (s, q) = expect_ask(s.advance(DiscoverAnswer::Text(None)));
    assert!(matches!(q, DiscoverQuery::ConfigDir));
    let (s, q) = expect_ask(s.advance(DiscoverAnswer::Resolved(Ok("/home/u/.toad".to_string()))));
    assert!(matches!(q, DiscoverQuery::EnvVar(ref n) if n == "TOAD_ROOT"));
    let (s, q) = expect_ask(s.advance(DiscoverAnswer::Text(None)));
    assert!(matches!(q, DiscoverQuery::LoadConfig));
    let ws = expect_done(s.advance(DiscoverAnswer::Loaded(Ok(None)))).unwrap();
    assert_eq!(ws.toad_home, "/home/u/.toad");
    assert_eq!(ws.projects_dir, ".");
    assert_eq!(ws.shadows_dir, "/home/u/.toad/shadows");
    assert_eq!(ws.active_context, None);
}

#[test]
fn discover_with_root_and_no_config_honors_root() {
    let (s, _) = expect_ask(discover_start());
    let (s, q) = expect_ask(s.advance(DiscoverAnswer::Text(Some("~/th".to_string()))));
    assert!(matches!(q, DiscoverQuery::Canonicalize(ref p) if p == "~/th"));
    let (s, _) = expect_ask(s.advance(DiscoverAnswer::Resolved(Ok("/th".to_string()))));
    let (s, q) = expect_ask(s.advance(DiscoverAnswer::Text(Some("code".to_string()))));
    assert!(matches!(q, DiscoverQuery::Canonicalize(ref p) if p == "code"));
    let (s, q) = expect_ask(s.advance(DiscoverAnswer::Resolved(Ok("/code".to_string()))));
    assert!(matches!(q, DiscoverQuery::LoadConfig));
    let (s, q) = expect_ask(s.advance(DiscoverAnswer::Loaded(Err(ToadError::Serde("bad".to_string())))));
    assert!(matches!(q, DiscoverQuery::Exists(ref p) if p == "/code/.toad-root"));
    let (s, q) = expect_ask(s.advance(DiscoverAnswer::Flag(false)));
    assert!(matches!(q, DiscoverQuery::Exists(ref p) if p == "/code/projects"));
    let ws = expect_done(s.advance(DiscoverAnswer::Flag(true))).unwrap();
    assert_eq!(ws.toad_home, "/th");
    assert_eq!(ws.projects_dir, "/code/projects");
    assert_eq!(ws.shadows_dir, "/th/shadows");
    assert_eq!(ws.active_context, None);
}

fn config_with_active(path: &str) -> GlobalConfig {
    GlobalConfig::single_context(path.to_string(), "ctx", ContextType::Pond, Timestamp { secs: 1, nanos: 0 })
}

#[test]
fn discover_with_root_and_config_uses_active_context() {
    let (s, _) = expect_ask(discover_start());
    let (s, _) = expect_ask(s.advance(DiscoverAnswer::Text(None)));
    let (s, _) = expect_ask(s.advance(DiscoverAnswer::Resolved(Ok("/th".to_string()))));
    let (s, _) = expect_ask(s.advance(DiscoverAnswer::Text(Some("/root".to_string()))));
    let (s, _) = expect_ask(s.advance(DiscoverAnswer::Resolved(Ok("/root".to_string()))));
    let (s, q) = expect_ask(s.advance(DiscoverAnswer::Loaded(Ok(Some(config_with_active("/ctx"))))));
    assert!(matches!(q, DiscoverQuery::Exists(ref p) if p == "/ctx"));
    let (s, q) = expect_ask(s.advance(DiscoverAnswer::Flag(true)));
    assert!(matches!(q, DiscoverQuery::Canonicalize(ref p) if p == "/ctx"));
    let (s, q) = expect_ask(s.advance(DiscoverAnswer::Resolved(Ok("/real/ctx".to_string()))));
    assert!(matches!(q, DiscoverQuery::Exists(ref p) if p == "/real/ctx/projects"));
    let (s, q) = expect_ask(s.advance(DiscoverAnswer::Flag(false)));
    assert!(matches!(q, DiscoverQuery::ConfigDir));
    let ws = expect_done(s.advance(DiscoverAnswer::Resolved(Ok("/cfg".to_string())))).unwrap();
    assert_eq!(ws.toad_home, "/th");
    assert_eq!(ws.projects_dir, "/real/ctx");
    assert_eq!(ws.shadows_dir, "/cfg/contexts/default/shadows");
    assert_eq!(ws.active_context, Some("default".to_string()));
}

#[test]
fn discover_falls_back_to_root_when_active_path_is_missing() {
    let (s, _) = expect_ask(discover_start());
    let (s, _) = expect_ask(s.advance(DiscoverAnswer::Text(None)));
    let (s, _) = expect_ask(s.advance(DiscoverAnswer::Resolved(Ok("/th".to_string()))));
    let (s, _) = expect_ask(s.advance(DiscoverAnswer::Text(Some("/root".to_string()))));
    let (s, _) = expect_ask(s.advance(DiscoverAnswer::Resolved(Ok("/root".to_string()))));
    let (s, _) = expect_ask(s.advance(DiscoverAnswer::Loaded(Ok(Some(config_with_active("/ctx"))))));
    let (s, q) = expect_ask(s.advance(DiscoverAnswer::Flag(false)));
    assert!(matches!(q, DiscoverQuery::Exists(ref p) if p == "/root/projects"));
    let (s, _) = expect_ask(s.advance(DiscoverAnswer::Flag(false)));
    let ws = expect_done(s.advance(DiscoverAnswer::Resolved(Ok("/cfg".to_string())))).unwrap();
    assert_eq!(ws.projects_dir, "/root");
}

#[test]
fn discover_migrates_legacy_root() {
    let (s, _) = expect_ask(discover_start());
    let (s, _) = expect_ask(s.advance(DiscoverAnswer::Text(None)));
    let (s, _) = expect_ask(s.advance(DiscoverAnswer::Resolved(Ok("/th".to_string()))));
    let (s, _) = expect_ask(s.advance(DiscoverAnswer::Text(Some("/legacy".to_string()))));
    let (s, _) = expect_ask(s.advance(DiscoverAnswer::Resolved(Ok("/legacy".to_string()))));
    let (s, _) = expect_ask(s.advance(DiscoverAnswer::Loaded(Ok(None))));
    let (s, q) = expect_ask(s.advance(DiscoverAnswer::Flag(true)));
    assert!(matches!(q, DiscoverQuery::ConfigDir));
    let (s, q) = expect_ask(s.advance(DiscoverAnswer::Resolved(Ok("/cfg".to_string()))));
    assert!(matches!(q, DiscoverQuery::Exists(ref p) if p == "/legacy/.gitmodules"));
    let (s, q) = expect_ask(s.advance(DiscoverAnswer::Flag(true)));
    assert!(matches!(q, DiscoverQuery::Now));
    let (s, q) = expect_ask(s.advance(DiscoverAnswer::Time(Timestamp { secs: 42, nanos: 7 })));
    match q {
        DiscoverQuery::SaveAndMigrate(c) => {
            assert_eq!(c.home_pointer, "/legacy");
            assert_eq!(c.active_context, Some("default".to_string()));
            let ctx = c.project_contexts.get("default").unwrap();
            assert_eq!(ctx.path, "/legacy");
            assert_eq!(ctx.description, Some("Auto-migrated legacy workspace".to_string()));
            assert_eq!(ctx.context_type, ContextType::Hub);
            assert_eq!(ctx.registered_at, Timestamp { secs: 42, nanos: 7 });
            assert!(c.auto_sync);
        }
        _ => panic!("expected the migrated configuration"),
    }
    let (s, q) = expect_ask(s.advance(DiscoverAnswer::Finished(Ok(()))));
    assert!(matches!(q, DiscoverQuery::Exists(ref p) if p == "/legacy/projects"));
    let (s, q) = expect_ask(s.advance(DiscoverAnswer::Flag(false)));
    assert!(matches!(q, DiscoverQuery::ConfigDir));
    let ws = expect_done(s.advance(DiscoverAnswer::Resolved(Ok("/cfg".to_string())))).unwrap();
    assert_eq!(ws.toad_home, "/cfg");
    assert_eq!(ws.projects_dir, "/legacy");
    assert_eq!(ws.shadows_dir, "/cfg/contexts/default/shadows");
    assert_eq!(ws.active_context, Some("default".to_string()));
}

#[test]
fn discover_global_config_tier() {
    let (s, _) = expect_ask(discover_start());
    let (s, _) = expect_ask(s.advance(DiscoverAnswer::Text(None)));
    let (s, _) = expect_ask(s.advance(DiscoverAnswer::Resolved(Ok("/th".to_string()))));
    let (s, _) = expect_ask(s.advance(DiscoverAnswer::Text(None)));
    let mut c = config_with_active("/ctx");
    c.active_context = None;
    c.home_pointer = "/hp".to_string();
    let (s, q) = expect_ask(s.advance(DiscoverAnswer::Loaded(Ok(Some(c)))));
    assert!(matches!(q, DiscoverQuery::Exists(ref p) if p == "/hp"));
    let ws = expect_done(s.advance(DiscoverAnswer::Flag(false))).unwrap();
    assert_eq!(ws.projects_dir, "/hp");
    assert_eq!(ws.shadows_dir, "/th/shadows");
}

#[test]
fn discover_propagates_canonicalize_error() {
    let (s, _) = expect_ask(discover_start());
    let (s, _) = expect_ask(s.advance(DiscoverAnswer::Text(Some("missing".to_string()))));
    let r = expect_done(s.advance(DiscoverAnswer::Resolved(Err(ToadError::Io("no such file".to_string())))));
    assert!(matches!(r, Err(ToadError::Io(ref m)) if m == "no such file"));
}

#[test]
fn discover_state_accepts_only_its_answer_kind() {
    let (s, _) = expect_ask(discover_start());
    assert!(s.accepts(&DiscoverAnswer::Text(None)));
    assert!(!s.accepts(&DiscoverAnswer::Flag(true)));
}

fn reference_mix(h: u64, v: u64) -> u64 {
    h.wrapping_add(v).rotate_left(13).wrapping_mul(0x517cc1b727220a95)
}

#[test]
fn mix_step_matches_rotate_formula() {
    for (h, v) in [(0u64, 0u64), (0, 5), (u64::MAX, 1), (0x1234_5678_9abc_def0, 77), (u64::MAX, u64::MAX)] {
        assert_eq!(mix_step(h, v), reference_mix(h, v));
    }
    assert_eq!(mix_step(0, 1), 0x517cc1b727220a95u64.wrapping_mul(1 << 13));
}

#[test]
fn name_sum_wraps_bytes() {
    assert_eq!(name_sum(b"ab"), 97 + 98);
    assert_eq!(name_sum(b""), 0);
}

#[test]
fn fingerprint_of_empty_projects_dir() {
    let snap = FingerprintSnapshot {
        root_mtime: Some(100),
        entries: Some(vec![]),
        root_file_mtimes: vec![None, Some(3)],
        tags_mtime: None,
    };
    let expected = reference_mix(reference_mix(0, 100), 3);
    assert_eq!(fingerprint_of(snap), expected);
}

#[test]
fn fingerprint_sorts_entries_and_skips_non_text_names() {
    let e_b = EntrySnapshot { name: b"b".to_vec(), mtime: Some(20), file_mtimes: vec![Some(1)] };
    let e_a = EntrySnapshot { name: b"a".to_vec(), mtime: Some(10), file_mtimes: vec![None] };
    let e_bad = EntrySnapshot { name: vec![0xff, 0xfe], mtime: Some(30), file_mtimes: vec![] };
    let snap = FingerprintSnapshot {
        root_mtime: None,
        entries: Some(vec![e_bad, e_b, e_a]),
        root_file_mtimes: vec![],
        tags_mtime: Some(9),
    };
    let mut h = 0;
    for v in [97u64, 10, 98, 20, 1, 30, 9] {
        h = reference_mix(h, v);
    }
    assert_eq!(fingerprint_of(snap), h);
}

#[test]
fn fingerprint_ignores_listing_order() {
    let make = |order: &[u8]| FingerprintSnapshot {
        root_mtime: Some(1),
        entries: Some(
            order
                .iter()
                .map(|c| EntrySnapshot { name: vec![*c], mtime: Some(*c as u64), file_mtimes: vec![] })
                .collect(),
        ),
        root_file_mtimes: vec![],
        tags_mtime: None,
    };
    assert_eq!(fingerprint_of(make(b"xyz")), fingerprint_of(make(b"zxy")));
}

#[test]
fn fingerprint_changes_when_project_added() {
    let base = FingerprintSnapshot { root_mtime: Some(1), entries: Some(vec![]), root_file_mtimes: vec![], tags_mtime: None };
    let with_project = FingerprintSnapshot {
        root_mtime: Some(1),
        entries: Some(vec![EntrySnapshot { name: b"test-proj".to_vec(), mtime: Some(11), file_mtimes: vec![] }]),
        root_file_mtimes: vec![],
        tags_mtime: None,
    };
    let fp1 = fingerprint_of(base);
    assert!(fp1 > 0);
    assert_ne!(fp1, fingerprint_of(with_project));
}

#[test]
fn sort_by_name_orders_bytes_and_keeps_equal_names_in_order() {
    let e = |name: &[u8], mtime: u64| EntrySnapshot { name: name.to_vec(), mtime: Some(mtime), file_mtimes: vec![] };
    let sorted = sort_by_name(vec![e(b"b", 1), e(b"a", 2), e(b"b", 3), e(b"ab", 4), e(b"B", 5)]);
    let got: Vec<(Vec<u8>, Option<u64>)> = sorted.into_iter().map(|x| (x.name, x.mtime)).collect();
    assert_eq!(
        got,
        vec![
            (b"B".to_vec(), Some(5)),
            (b"a".to_vec(), Some(2)),
            (b"ab".to_vec(), Some(4)),
            (b"b".to_vec(), Some(1)),
            (b"b".to_vec(), Some(3)),
        ]
    );
}
