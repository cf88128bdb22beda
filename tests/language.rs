use devflow_watch::language::{detect_project_language, Language};
use devflow_watch::runner::resolve_test_command;

fn entries(items: &[&str]) -> Vec<String> {
    items.iter().map(|s| s.to_string()).collect()
}

#[test]
fn detects_rust() {
    assert_eq!(detect_project_language(&entries(&["Cargo.toml"])), Language::Rust);
}

#[test]
fn language_detects_node_repo() {
    assert_eq!(detect_project_language(&entries(&["package.json"])), Language::Node);
}

#[test]
fn node_takes_precedence_over_rust() {
    assert_eq!(
        detect_project_language(&entries(&["Cargo.toml", "package.json"])),
        Language::Node
    );
    assert_eq!(
        detect_project_language(&entries(&["Cargo.toml", "package.json", "requirements.txt"])),
        Language::Python
    );
    assert_eq!(detect_project_language(&entries(&["Cargo.toml", "go.mod"])), Language::Go);
}

#[test]
fn classifying_twice_gives_the_same_kind() {
    let root = entries(&["go.mod", "Cargo.toml"]);
    assert_eq!(detect_project_language(&root), detect_project_language(&root));
}

#[test]
fn no_markers_is_unknown_with_no_command() {
    let kind = detect_project_language(&entries(&["README.md", "cargo.toml"]));
    assert_eq!(kind, Language::Unknown);
    assert!(resolve_test_command(kind).is_none());
}

#[test]
fn each_kind_has_its_command() {
    let py = resolve_test_command(Language::Python).unwrap();
    assert_eq!((py.program.as_str(), py.args.clone()), ("pytest", entries(&["-q"])));
    let rs = resolve_test_command(Language::Rust).unwrap();
    assert_eq!((rs.program.as_str(), rs.args.clone()), ("cargo", entries(&["test"])));
    let go = resolve_test_command(Language::Go).unwrap();
    assert_eq!(go.args, entries(&["test", "./..."]));
    let dup = go.duplicate();
    assert_eq!((dup.program, dup.args), (go.program, go.args));
}
