use devflow_watch::ignore::{IgnoreError, IgnoreMatcher};
use devflow_watch::language::Language;
use devflow_watch::paths::relative_path;
use devflow_watch::session::{Reaction, WatchSession};

fn strings(items: &[&str]) -> Vec<String> {
    items.iter().map(|s| s.to_string()).collect()
}

fn start(entries: &[&str], globs: &[&str]) -> WatchSession {
    WatchSession::start("/work/proj".to_string(), &strings(entries), &strings(globs))
        .expect("session starts")
}

#[test]
fn go_project_ignores_vendor_and_runs_go_test() {
    let mut s = start(&["go.mod"], &["vendor/**"]);
    assert_eq!(s.language(), Language::Go);
    let paths = strings(&["/work/proj/vendor/lib/x.go", "/work/proj/main.go"]);
    assert_eq!(s.impacted_paths(&paths), strings(&["/work/proj/main.go"]));
    match s.on_change(&paths) {
        Reaction::Run { count, invocation } => {
            assert_eq!(count, 1);
            assert_eq!(invocation.program, "go");
            assert_eq!(invocation.args, strings(&["test", "./..."]));
        }
        other => panic!("expected a run, got {:?}", other),
    }
    assert!(s.is_running());
    assert!(matches!(s.on_run_finished(), Reaction::Idle));
    assert!(!s.is_running());
}

#[test]
fn everything_ignored_never_runs() {
    let mut s = start(&["Cargo.toml"], &["**"]);
    for _ in 0..5 {
        let paths = strings(&["/work/proj/src/lib.rs", "/work/proj/Cargo.toml"]);
        assert!(matches!(s.on_change(&paths), Reaction::Idle));
        assert!(!s.is_running());
    }
}

#[test]
fn malformed_glob_fails_to_start() {
    let r = WatchSession::start("/work/proj".to_string(), &strings(&["go.mod"]), &strings(&["src/[a"]));
    match r {
        Err(IgnoreError::InvalidPattern(p)) => assert_eq!(p, "src/[a"),
        _ => panic!("expected an invalid pattern"),
    }
    assert!(matches!(
        IgnoreMatcher::new(&strings(&["target/**", "{a,b"])),
        Err(IgnoreError::InvalidPattern(_))
    ));
}

#[test]
fn empty_ignore_set_watches_everything() {
    let mut s = start(&["package.json"], &[]);
    match s.on_change(&strings(&["/work/proj/node_modules/x.js"])) {
        Reaction::Run { count, invocation } => {
            assert_eq!(count, 1);
            assert_eq!(invocation.program, "npx");
            assert_eq!(invocation.args, strings(&["jest", "--passWithNoTests"]));
        }
        other => panic!("expected a run, got {:?}", other),
    }
}

#[test]
fn changes_during_a_run_give_one_follow_up() {
    let mut s = start(&["pyproject.toml"], &["target/**"]);
    assert!(matches!(s.on_change(&strings(&["/work/proj/a.py"])), Reaction::Run { .. }));
    assert!(matches!(
        s.on_change(&strings(&["/work/proj/b.py", "/work/proj/c.py"])),
        Reaction::Deferred { count: 2 }
    ));
    assert!(matches!(s.on_change(&strings(&["/work/proj/d.py"])), Reaction::Deferred { count: 1 }));
    assert!(matches!(s.on_change(&strings(&["/work/proj/target/x"])), Reaction::Idle));
    match s.on_run_finished() {
        Reaction::Run { count, invocation } => {
            assert_eq!(count, 3);
            assert_eq!(invocation.program, "pytest");
        }
        other => panic!("expected a follow-up run, got {:?}", other),
    }
    assert!(s.is_running());
    assert!(matches!(s.on_run_finished(), Reaction::Idle));
    assert!(!s.is_running());
}

#[test]
fn unknown_project_never_spawns() {
    let mut s = start(&["README.md", "src"], &[]);
    assert_eq!(s.language(), Language::Unknown);
    for _ in 0..10 {
        assert!(matches!(
            s.on_change(&strings(&["/work/proj/README.md"])),
            Reaction::Changed { count: 1 }
        ));
        assert!(!s.is_running());
    }
}

#[test]
fn empty_batch_is_idle() {
    let mut s = start(&["go.mod"], &[]);
    assert!(matches!(s.on_change(&Vec::new()), Reaction::Idle));
}

#[test]
fn globs_match_relative_to_root() {
    let s = start(&["go.mod"], &["main.go"]);
    assert!(s.impacted_paths(&strings(&["/work/proj/main.go"])).is_empty());
    assert_eq!(
        s.impacted_paths(&strings(&["/work/proj/cmd/main.go"])),
        strings(&["/work/proj/cmd/main.go"])
    );
    let m = IgnoreMatcher::new(&strings(&["target/**", "*.log"])).unwrap();
    assert!(m.is_suppressed("target/debug/x"));
    assert!(m.is_suppressed("run.log"));
    assert!(!m.is_suppressed("src/main.rs"));
}

#[test]
fn relative_paths_strip_the_root_at_a_separator() {
    assert_eq!(relative_path("/a/b", "/a/b/c/d.rs"), "c/d.rs");
    assert_eq!(relative_path("/a/b/", "/a/b/c"), "c");
    assert_eq!(relative_path("/a/b", "/a/b"), "");
    assert_eq!(relative_path("/a/b", "/a/bc/d"), "/a/bc/d");
    assert_eq!(relative_path("/a/b", "/x/y"), "/x/y");
    assert_eq!(relative_path("", "x/y"), "x/y");
}

#[test]
fn decisions_follow_the_relevant_count() {
    let mut s = start(&["Cargo.toml"], &[]);
    assert!(matches!(s.on_relevant_changes(0), Reaction::Idle));
    match s.on_relevant_changes(4) {
        Reaction::Run { count, invocation } => {
            assert_eq!(count, 4);
            assert_eq!((invocation.program.as_str(), invocation.args.clone()), ("cargo", strings(&["test"])));
        }
        other => panic!("expected a run, got {:?}", other),
    }
    assert!(matches!(s.on_relevant_changes(usize::MAX), Reaction::Deferred { count: usize::MAX }));
    assert!(matches!(s.on_relevant_changes(5), Reaction::Deferred { count: 5 }));
    assert!(matches!(s.on_run_finished(), Reaction::Run { count: usize::MAX, .. }));
    assert!(matches!(s.on_run_finished(), Reaction::Idle));
}

#[test]
fn no_globs_always_starts_and_runs_on_every_batch() {
    assert!(IgnoreMatcher::new(&Vec::new()).is_ok());
    let mut s = WatchSession::start("/r".to_string(), &strings(&["go.mod"]), &Vec::new())
        .expect("an empty ignore set always starts");
    for k in 1..4usize {
        let paths: Vec<String> = (0..k).map(|i| format!("/r/target/f{}", i)).collect();
        assert!(matches!(s.on_change(&paths), Reaction::Run { count, .. } if count == k));
        assert!(matches!(s.on_run_finished(), Reaction::Idle));
    }
}

#[test]
fn windows_separators_are_matched_alike() {
    assert_eq!(relative_path("C:\\w\\p", "C:\\w\\p\\src\\a.rs"), "src/a.rs");
    assert_eq!(relative_path("C:\\w\\p\\", "C:\\w\\p\\src"), "src");
    assert_eq!(relative_path("/a/b", "/a/b/c\\d"), "c/d");
    assert_eq!(relative_path("C:\\w\\p", "D:\\x"), "D:/x");
    let s = WatchSession::start("C:\\w\\p".to_string(), &strings(&["go.mod"]), &strings(&["target/**"]))
        .unwrap();
    let paths = strings(&["C:\\w\\p\\target\\debug\\x", "C:\\w\\p\\main.go"]);
    assert_eq!(s.impacted_paths(&paths), strings(&["C:\\w\\p\\main.go"]));
}
