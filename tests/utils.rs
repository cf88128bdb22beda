use devflow_watch::cli::PortArgs;
use devflow_watch::config::{default_config, DevflowConfig};
use devflow_watch::dash::format_uptime;
use devflow_watch::envcheck::validate_env_schema;
use devflow_watch::plugin::{is_wasm_plugin, plugin_executable_name};
use devflow_watch::ports::{process_mentions_port, safe_kill_suggestion};
use devflow_watch::snapshot::{keeps_env_var, keeps_lowered_env_name, snapshot_process};
use devflow_watch::text::{decimal_string, join_with_spaces};

fn pair(k: &str, v: &str) -> (String, String) {
    (k.to_string(), v.to_string())
}

#[test]
fn validates_int_type() {
    let schema = vec![pair("PORT", "int")];
    let actual = vec![pair("PORT", "abc")];
    let issues = validate_env_schema(&schema, &actual);
    assert_eq!(issues.len(), 1);
}

#[test]
fn env_schema_detects_missing_key() {
    let schema = vec![pair("PORT", "int")];
    let actual = Vec::new();
    let issues = validate_env_schema(&schema, &actual);
    assert_eq!(issues.len(), 1);
    assert_eq!(issues[0].key, "PORT");
}

#[test]
fn env_schema_reports_each_kind_of_issue() {
    let schema = vec![
        pair("PORT", "int"),
        pair("DEBUG", "bool"),
        pair("URL", "string"),
        pair("WORKERS", "int"),
        pair("HOST", "string"),
    ];
    let actual = vec![
        pair("PORT", "-42"),
        pair("DEBUG", "yes"),
        pair("URL", "x"),
        pair("WORKERS", "99999999999999999999"),
    ];
    let issues = validate_env_schema(&schema, &actual);
    let got: Vec<(&str, &str)> =
        issues.iter().map(|i| (i.key.as_str(), i.reason.as_str())).collect();
    assert_eq!(
        got,
        vec![("DEBUG", "expected bool"), ("WORKERS", "expected int"), ("HOST", "missing")]
    );
    assert!(validate_env_schema(&vec![pair("A", "bool")], &vec![pair("A", "true")]).is_empty());
    assert!(validate_env_schema(&vec![pair("A", "int")], &vec![pair("A", "+7")]).is_empty());
}

#[test]
fn kill_suggestions_name_the_pid() {
    let tips = safe_kill_suggestion(4321);
    assert_eq!(
        tips,
        vec![
            "Try graceful stop first: kill 4321",
            "If needed force stop: kill -9 4321",
            "Windows graceful: taskkill /PID 4321",
            "Windows force: taskkill /F /PID 4321",
        ]
    );
    assert_eq!(safe_kill_suggestion(0)[1], "If needed force stop: kill -9 0");
}

#[test]
fn uptime_is_formatted_by_largest_unit() {
    assert_eq!(format_uptime(0), "00m 00s");
    assert_eq!(format_uptime(65), "01m 05s");
    assert_eq!(format_uptime(3 * 3600 + 7), "03h 00m 07s");
    assert_eq!(format_uptime(2 * 86400 + 3600 + 61), "2d 01h 01m 01s");
    assert_eq!(format_uptime(u64::MAX), "213503982334601d 07h 00m 15s");
}

#[test]
fn decimal_text_and_joining() {
    assert_eq!(decimal_string(0), "0");
    assert_eq!(decimal_string(1907), "1907");
    assert_eq!(decimal_string(u64::MAX), u64::MAX.to_string());
    let parts: Vec<String> = vec!["cargo".into(), "run".into(), "--release".into()];
    assert_eq!(join_with_spaces(&parts), "cargo run --release");
    assert_eq!(join_with_spaces(&Vec::new()), "");
}

#[test]
fn port_mentions_in_name_or_arguments() {
    let args: Vec<String> = vec!["node".into(), "server.js".into(), "--port=5173".into()];
    assert!(process_mentions_port("node", &args, 5173));
    assert!(process_mentions_port("redis-6379", &Vec::new(), 6379));
    assert!(!process_mentions_port("node", &args, 3000));
}

#[test]
fn port_args_default_to_three_thousand() {
    let a = PortArgs { free: false, watch: false, port: None };
    assert_eq!(a.target_port(), 3000);
    let b = PortArgs { port: Some(8080), ..a };
    assert_eq!(b.target_port(), 8080);
}

#[test]
fn plugin_names_get_their_prefix() {
    assert_eq!(plugin_executable_name("lint"), "devflow-plugin-lint");
    assert_eq!(plugin_executable_name("devflow-plugin-lint"), "devflow-plugin-lint");
    assert!(is_wasm_plugin("x.wasm"));
    assert!(!is_wasm_plugin("wasm"));
}

#[test]
fn snapshot_keeps_workspace_processes_and_safe_variables() {
    let args: Vec<String> = vec!["vim".into(), "/home/u/proj/src/main.rs".into()];
    let p = snapshot_process(7, "vim", &args, "/home/u/proj").unwrap();
    assert_eq!((p.pid, p.name.as_str(), p.cmd.as_str()), (7, "vim", "vim /home/u/proj/src/main.rs"));
    assert!(snapshot_process(8, "cargo", &Vec::new(), "/elsewhere").is_some());
    assert!(snapshot_process(9, "bash", &args, "/elsewhere").is_none());
    assert!(!keeps_env_var("GITHUB_TOKEN"));
    assert!(!keeps_env_var("My_Secret_Key"));
    assert!(keeps_env_var("HOME"));
    assert!(!keeps_lowered_env_name("api_token"));
    assert!(keeps_lowered_env_name("API_TOKEN"));
}

#[test]
fn default_config_ignores_build_outputs() {
    let c = default_config();
    assert_eq!(c.ignore_globs, vec!["target/**", "node_modules/**"]);
    assert_eq!(c.desired_ports, vec![3000, 5432]);
    assert_eq!(c.env[1], pair("PORT", "int"));
    assert_eq!(c.test_command.as_deref(), Some("cargo test"));
    let e = DevflowConfig::default();
    assert!(e.ignore_globs.is_empty() && e.env.is_empty() && e.test_command.is_none());
}
