use lattice::codex::{
    codex_add_arguments, codex_install_status, lattice_configured, removal_outcome,
    CodexInstallStatus, CodexRemoveOutcome,
};
use lattice::json::{JsonNumber, JsonValue};

fn convert(value: &serde_json::Value) -> JsonValue {
    match value {
        serde_json::Value::Null => JsonValue::Null,
        serde_json::Value::Bool(b) => JsonValue::Bool(*b),
        serde_json::Value::Number(n) => JsonValue::Number(JsonNumber {
            text: n.to_string(),
            integral: n.is_i64() || n.is_u64(),
        }),
        serde_json::Value::String(s) => JsonValue::String(s.clone()),
        serde_json::Value::Array(items) => JsonValue::Array(items.iter().map(convert).collect()),
        serde_json::Value::Object(members) => {
            JsonValue::Object(members.iter().map(|(k, v)| (k.clone(), convert(v))).collect())
        }
    }
}

fn json(text: &str) -> JsonValue {
    convert(&serde_json::from_str::<serde_json::Value>(text).expect("valid JSON"))
}

#[test]
fn codex_server_comparison_follows_command_and_environment() {
    let ours = json(r#"{"name":"lattice","transport":{"type":"stdio","command":"/bin/lattice","args":["mcp","stdio"],"env":{"LATTICE_RUNTIME_DIR":"/run/l"}}}"#);
    assert_eq!(codex_install_status(&ours, "/bin/lattice", Some("/run/l")), CodexInstallStatus::AlreadyInstalled);
    assert_eq!(codex_install_status(&ours, "/bin/lattice", Some("/run/other")), CodexInstallStatus::Updated);
    assert_eq!(codex_install_status(&ours, "/bin/lattice", None), CodexInstallStatus::Conflict);
    assert_eq!(codex_install_status(&ours, "/usr/bin/lattice", Some("/run/l")), CodexInstallStatus::Conflict);
    let no_env = json(r#"{"transport":{"command":"/bin/lattice","args":["mcp","stdio"]}}"#);
    assert_eq!(codex_install_status(&no_env, "/bin/lattice", None), CodexInstallStatus::AlreadyInstalled);
    let other_args = json(r#"{"transport":{"command":"/bin/lattice","args":["serve"]}}"#);
    assert_eq!(codex_install_status(&other_args, "/bin/lattice", Some("/run/l")), CodexInstallStatus::Conflict);
    assert_eq!(codex_install_status(&json(r#"{"name":"lattice"}"#), "/bin/lattice", None), CodexInstallStatus::Conflict);
}

#[test]
fn codex_add_arguments_carry_the_runtime_directory() {
    assert_eq!(
        codex_add_arguments("/bin/lattice", Some("/run/l")),
        vec!["mcp", "add", "lattice", "--env", "LATTICE_RUNTIME_DIR=/run/l", "--", "/bin/lattice", "mcp", "stdio"]
    );
    assert_eq!(codex_add_arguments("/bin/lattice", None), vec!["mcp", "add", "lattice", "--", "/bin/lattice", "mcp", "stdio"]);
}

#[test]
fn codex_listing_and_removal_are_read() {
    assert!(lattice_configured(&json(r#"[{"name":"other"},{"name":"lattice"}]"#)));
    assert!(!lattice_configured(&json(r#"[{"name":"other"}]"#)));
    assert!(!lattice_configured(&json(r#"{"name":"lattice"}"#)));
    assert_eq!(removal_outcome(true, ""), CodexRemoveOutcome::Removed);
    assert_eq!(removal_outcome(false, "server lattice not found"), CodexRemoveOutcome::AlreadyRemoved);
    assert_eq!(removal_outcome(false, "config does not exist"), CodexRemoveOutcome::AlreadyRemoved);
    assert_eq!(removal_outcome(false, "permission denied"), CodexRemoveOutcome::Failed);
}
