use devflow_watch::envcheck::{has_unique_keys, parse_dotenv_line, parse_dotenv_text, path_issues};
use devflow_watch::language::{expected_toolchain_hint, toolchain_files};
use devflow_watch::logs::{group_error_lines, new_traces, normalize_trace};
use devflow_watch::sanitize::redact;
use devflow_watch::split::{split_pieces, trim_text};

fn pair(k: &str, v: &str) -> (String, String) {
    (k.to_string(), v.to_string())
}

#[test]
fn redacts_basic_secret() {
    let out = redact("token=abc123");
    assert!(out.contains("token=<redacted>"));
    assert!(!out.contains("abc123"));
}

#[test]
fn redact_masks_secret_values() {
    let out = redact("password=supersecret");
    assert!(out.contains("password=<redacted>"));
}

#[test]
fn redact_handles_quoted_values_and_leaves_other_text() {
    assert_eq!(redact(r#"{"apiKey": "k-123", "user": "bob"}"#), r#"{"apiKey=<redacted>, "user": "bob"}"#);
    assert_eq!(redact("user=bob SECRET = s3 x"), "user=bob SECRET=<redacted> x");
    assert_eq!(redact("nothing here"), "nothing here");
}

#[test]
fn traces_differing_in_numbers_coincide() {
    assert_eq!(normalize_trace("ERROR  worker 12 failed\tafter 3 tries"), "ERROR worker <n> failed after <n> tries");
    assert_eq!(normalize_trace("  panic at 7a ² "), "panic at 7a <n>");
    assert_eq!(normalize_trace(""), "");
    assert_eq!(normalize_trace("id 12"), normalize_trace("id 99"));
}

#[test]
fn trimming_and_splitting_follow_unicode_white_space() {
    assert_eq!(trim_text("\u{3000} hi there \u{85}\r\n"), "hi there");
    assert_eq!(trim_text("   "), "");
    assert_eq!(split_pieces("a\n\nb", false), vec!["a", "", "b"]);
    assert_eq!(split_pieces("a b\u{a0}c", true), vec!["a", "b", "c"]);
    assert_eq!(split_pieces("", true), vec![""]);
}

#[test]
fn dotenv_lines_and_files() {
    assert_eq!(parse_dotenv_line("  KEY = a=b  "), Some(pair("KEY", "a=b")));
    assert_eq!(parse_dotenv_line("# KEY=1"), None);
    assert_eq!(parse_dotenv_line("no assignment"), None);
    assert_eq!(parse_dotenv_line("   "), None);
    assert_eq!(parse_dotenv_line("EMPTY="), Some(pair("EMPTY", "")));
    let vars = parse_dotenv_text("# settings\nA=1\r\n B = x=y \nbad\nA=2\n\n");
    assert_eq!(vars, vec![pair("A", "2"), pair("B", "x=y")]);
    assert!(parse_dotenv_text("").is_empty());
}

#[test]
fn toolchain_hint_comes_from_the_first_file_present() {
    let names = toolchain_files();
    assert_eq!(names, vec![".nvmrc", "rust-toolchain", "go.mod", "pyproject.toml"]);
    let contents = vec![None, Some(" 1.75.0 \r\nextra".to_string()), Some("module x".to_string()), None];
    assert_eq!(expected_toolchain_hint(&contents), Some("1.75.0".to_string()));
    assert_eq!(expected_toolchain_hint(&vec![Some(String::new())]), Some(String::new()));
    assert_eq!(expected_toolchain_hint(&vec![None, None]), None);
}

#[test]
fn path_issues_name_what_is_missing() {
    assert_eq!(path_issues(false, false, true), vec!["PATH is unset", "Python not found in PATH"]);
    assert_eq!(path_issues(true, true, false), vec!["Node not found in PATH"]);
    assert!(path_issues(true, true, true).is_empty());
}

#[test]
fn schema_keys_are_checked_for_repeats() {
    assert!(has_unique_keys(&vec![pair("A", "int"), pair("B", "int")]));
    assert!(!has_unique_keys(&vec![pair("A", "int"), pair("B", "bool"), pair("A", "bool")]));
    assert!(has_unique_keys(&Vec::new()));
    let vars = parse_dotenv_text("A=1\nB=2\nA=3\nB=4\nA=5");
    assert_eq!(vars, vec![pair("A", "5"), pair("B", "4")]);
    assert!(has_unique_keys(&vars));
}

#[test]
fn error_lines_are_grouped_by_trace() {
    let log = "INFO start\nERROR db timeout after 30 ms\nERROR db timeout after 45 ms\r\nthread panicked at 3\nok\nERROR disk full\n";
    let groups = group_error_lines(log);
    assert_eq!(
        groups,
        vec![
            ("ERROR db timeout after <n> ms".to_string(), 2),
            ("thread panicked at <n>".to_string(), 1),
            ("ERROR disk full".to_string(), 1),
        ]
    );
    assert!(group_error_lines("").is_empty());
    let current: Vec<String> = groups.iter().map(|(t, _)| t.clone()).collect();
    let previous = vec!["ERROR disk full".to_string(), "other".to_string()];
    assert_eq!(
        new_traces(&current, &previous),
        vec!["ERROR db timeout after <n> ms", "thread panicked at <n>"]
    );
}
