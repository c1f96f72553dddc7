//! Tests of the command/environment builder and its security policy.

use clawrunner::build_exec_spec;
use clawrunner::build_openclaw_command;
use clawrunner::is_allowed_env_key;
use clawrunner::is_configured;
use clawrunner::openclaw_base_dir_path;
use clawrunner::openclaw_config_file_path;
use clawrunner::openclaw_state_dir_path;
use clawrunner::settings_dir_path;
use clawrunner::settings_path;
use clawrunner::settings_tmp_path;
use clawrunner::validate_args;
use clawrunner::HostContext;
use clawrunner::PtyError;
use clawrunner::Settings;

fn pairs(list: &[(&str, &str)]) -> Vec<(String, String)> {
    list.iter().map(|(k, v)| (k.to_string(), v.to_string())).collect()
}

fn host() -> HostContext {
    HostContext {
        resource_dir: Some("/app".to_string()),
        bundled_node_exists: true,
        bundled_entry_exists: true,
        dev_mode: false,
        dev_entry_override: None,
        dev_workspace_entry: None,
        home: Some("/home/u".to_string()),
        state_dir_error: None,
        parent_env: pairs(&[
            ("PATH", "/usr/bin:/bin"),
            ("HOME", "/home/u"),
            ("AWS_SECRET_ACCESS_KEY", "leaked"),
            ("DATABASE_URL", "postgres://secret"),
            ("LANG", "en_US.UTF-8"),
        ]),
    }
}

fn env_of<'a>(spec: &'a clawrunner::ExecSpec, key: &str) -> Option<&'a str> {
    spec.env.get(key).map(|v| v.as_str())
}

#[test]
fn secrets_cannot_override_path_but_allowed_keys_are_injected() {
    let settings = Settings { api_keys: pairs(&[("PATH", "/evil"), ("FOO_API_KEY", "abc")]) };
    let spec = build_exec_spec(&settings, &Vec::new(), &host()).expect("build succeeds");
    // PATH is built from the interpreter directory and the parent PATH,
    // unaffected by the supplied secret value
    assert_eq!(env_of(&spec, "PATH"), Some("/app/resources:/usr/bin:/bin"));
    assert_eq!(env_of(&spec, "FOO_API_KEY"), Some("abc"));
}

#[test]
fn parent_environment_is_allowlisted_not_inherited() {
    let settings = Settings { api_keys: Vec::new() };
    let spec = build_exec_spec(&settings, &Vec::new(), &host()).expect("build succeeds");
    // allowlisted variables pass through
    assert_eq!(env_of(&spec, "HOME"), Some("/home/u"));
    assert_eq!(env_of(&spec, "LANG"), Some("en_US.UTF-8"));
    // ambient credentials never reach the child
    assert_eq!(env_of(&spec, "AWS_SECRET_ACCESS_KEY"), None);
    assert_eq!(env_of(&spec, "DATABASE_URL"), None);
    // the fixed variables are set
    assert_eq!(env_of(&spec, "TERM"), Some("xterm-256color"));
    assert_eq!(env_of(&spec, "OPENCLAW_NO_RESPAWN"), Some("1"));
    assert_eq!(
        env_of(&spec, "OPENCLAW_STATE_DIR"),
        Some("/home/u/.openclaw-desktop/openclaw-state"),
    );
}

#[test]
fn malformed_secret_keys_are_silently_dropped() {
    let settings = Settings {
        api_keys: pairs(&[
            ("LD_PRELOAD", "/evil.so"),               // no suffix marker
            ("BAD-NAME_API_KEY", "x"),                // hyphen not allowed
            ("EMPTY_API_KEY", ""),                    // empty value
            ("lower_api_key", "x"),                   // suffix is case-sensitive
            ("GOOD_API_KEY", "ok"),
        ]),
    };
    let spec = build_exec_spec(&settings, &Vec::new(), &host()).expect("build succeeds");
    assert_eq!(env_of(&spec, "LD_PRELOAD"), None);
    assert_eq!(env_of(&spec, "BAD-NAME_API_KEY"), None);
    assert_eq!(env_of(&spec, "EMPTY_API_KEY"), None);
    assert_eq!(env_of(&spec, "lower_api_key"), None);
    assert_eq!(env_of(&spec, "GOOD_API_KEY"), Some("ok"));
}

#[test]
fn secret_key_predicate() {
    assert!(is_allowed_env_key("FOO_API_KEY"));
    assert!(is_allowed_env_key("_API_KEY"));
    assert!(is_allowed_env_key("A2_API_KEY"));
    assert!(!is_allowed_env_key("PATH"));
    assert!(!is_allowed_env_key("FOO_API_KEY2"));
    assert!(!is_allowed_env_key("FOO-BAR_API_KEY"));
    assert!(!is_allowed_env_key("foo_api_key"));
    assert!(!is_allowed_env_key(""));
    assert!(!is_allowed_env_key("F\u{e9}_API_KEY"));
    let long = format!("{}_API_KEY", "X".repeat(57));
    assert_eq!(long.len(), 65);
    assert!(!is_allowed_env_key(&long));
    let just_fits = format!("{}_API_KEY", "X".repeat(56));
    assert_eq!(just_fits.len(), 64);
    assert!(is_allowed_env_key(&just_fits));
}

#[test]
fn unrecognized_argument_fails_before_any_work() {
    let settings = Settings { api_keys: Vec::new() };
    let args = vec!["onboard".to_string(), "badtoken".to_string()];
    assert!(matches!(validate_args(&args), Err(PtyError::InvalidArgument)));
    assert!(matches!(
        build_exec_spec(&settings, &args, &host()),
        Err(PtyError::InvalidArgument)
    ));
    let good = vec![
        "onboard".to_string(),
        "--skip-daemon".to_string(),
        "gateway".to_string(),
        "tui".to_string(),
    ];
    assert!(validate_args(&good).is_ok());
    let spec = build_exec_spec(&settings, &good, &host()).expect("allowed tokens build");
    let expected: Vec<String> = vec![
        "--disable-warning=ExperimentalWarning".to_string(),
        "/app/resources/openclaw/openclaw.mjs".to_string(),
        "onboard".to_string(),
        "--skip-daemon".to_string(),
        "gateway".to_string(),
        "tui".to_string(),
    ];
    assert_eq!(spec.args, expected);
    assert_eq!(spec.program, "/app/resources/node");
    assert_eq!(spec.cwd.as_deref(), Some("/home/u"));
}

#[test]
fn resolution_failures_map_to_the_error_taxonomy() {
    let settings = Settings { api_keys: Vec::new() };
    let mut h = host();
    h.resource_dir = None;
    assert!(matches!(
        build_exec_spec(&settings, &Vec::new(), &h),
        Err(PtyError::ResourceNotFound)
    ));

    let mut h = host();
    h.bundled_node_exists = false;
    assert!(matches!(
        build_exec_spec(&settings, &Vec::new(), &h),
        Err(PtyError::ResourceNotFound)
    ));

    let mut h = host();
    h.bundled_entry_exists = false;
    assert!(matches!(
        build_exec_spec(&settings, &Vec::new(), &h),
        Err(PtyError::ResourceNotFound)
    ));

    let mut h = host();
    h.home = None;
    assert!(matches!(
        build_exec_spec(&settings, &Vec::new(), &h),
        Err(PtyError::ResourceNotFound)
    ));

    let mut h = host();
    h.state_dir_error = Some("permission denied".to_string());
    match build_exec_spec(&settings, &Vec::new(), &h) {
        Err(PtyError::OsResourceError(msg)) => assert_eq!(msg, "permission denied"),
        other => panic!("expected an OS resource error, got {:?}", other.map(|_| ())),
    }
}

#[test]
fn development_fallbacks_apply_only_in_dev_mode() {
    let settings = Settings { api_keys: Vec::new() };
    let mut h = host();
    h.bundled_node_exists = false;
    h.bundled_entry_exists = false;
    h.dev_mode = true;
    h.dev_entry_override = Some("/dev/override/openclaw.mjs".to_string());
    h.dev_workspace_entry = Some("/workspace/openclaw/openclaw.mjs".to_string());
    let spec = build_exec_spec(&settings, &Vec::new(), &h).expect("dev fallbacks resolve");
    assert_eq!(spec.program, "node");
    assert_eq!(spec.args[1], "/dev/override/openclaw.mjs");
    // the bare system binary contributes no directory to PATH
    assert_eq!(env_of(&spec, "PATH"), Some("/usr/bin:/bin"));

    // without the override, the workspace fallback applies
    h.dev_entry_override = None;
    let spec = build_exec_spec(&settings, &Vec::new(), &h).expect("workspace fallback resolves");
    assert_eq!(spec.args[1], "/workspace/openclaw/openclaw.mjs");
}

#[test]
fn path_is_the_interpreter_directory_when_parent_path_is_absent() {
    let settings = Settings { api_keys: Vec::new() };
    let mut h = host();
    h.parent_env = Vec::new();
    let spec = build_exec_spec(&settings, &Vec::new(), &h).expect("build succeeds");
    assert_eq!(env_of(&spec, "PATH"), Some("/app/resources"));
    assert_eq!(env_of(&spec, "HOME"), None);

    // no interpreter directory and no parent PATH: no PATH at all
    let mut h = host();
    h.parent_env = Vec::new();
    h.bundled_node_exists = false;
    h.dev_mode = true;
    let spec = build_exec_spec(&settings, &Vec::new(), &h).expect("build succeeds");
    assert_eq!(env_of(&spec, "PATH"), None);
}

#[test]
fn command_builder_carries_the_built_invocation() {
    let settings = Settings { api_keys: pairs(&[("PATH", "/evil"), ("FOO_API_KEY", "abc")]) };
    let args = vec!["gateway".to_string()];
    let cb = build_openclaw_command(&settings, &args, &host()).expect("build succeeds");
    let argv = cb.get_argv();
    assert_eq!(argv.len(), 4);
    assert_eq!(argv[0].to_str(), Some("/app/resources/node"));
    assert_eq!(argv[1].to_str(), Some("--disable-warning=ExperimentalWarning"));
    assert_eq!(argv[2].to_str(), Some("/app/resources/openclaw/openclaw.mjs"));
    assert_eq!(argv[3].to_str(), Some("gateway"));
    assert_eq!(cb.get_env("PATH").and_then(|v| v.to_str()), Some("/app/resources:/usr/bin:/bin"));
    assert_eq!(cb.get_env("FOO_API_KEY").and_then(|v| v.to_str()), Some("abc"));
    assert_eq!(cb.get_env("TERM").and_then(|v| v.to_str()), Some("xterm-256color"));
    // the inherited base environment was cleared, the allowlist rebuilt it
    assert_eq!(cb.get_env("AWS_SECRET_ACCESS_KEY"), None);
    assert_eq!(cb.get_env("DATABASE_URL"), None);
    assert_eq!(cb.get_cwd().and_then(|d| d.to_str()), Some("/home/u"));
    assert!(matches!(
        build_openclaw_command(&settings, &vec!["nope".to_string()], &host()),
        Err(PtyError::InvalidArgument)
    ));
}

#[test]
fn state_and_settings_paths() {
    assert_eq!(openclaw_base_dir_path("/home/u"), "/home/u/.openclaw-desktop");
    assert_eq!(openclaw_state_dir_path("/home/u"), "/home/u/.openclaw-desktop/openclaw-state");
    assert_eq!(
        openclaw_config_file_path("/home/u/.openclaw-desktop/openclaw-state"),
        "/home/u/.openclaw-desktop/openclaw-state/openclaw.json",
    );
    assert_eq!(settings_dir_path("/home/u"), "/home/u/.clawrunner");
    assert_eq!(settings_path("/home/u"), "/home/u/.clawrunner/settings.json");
    assert_eq!(settings_tmp_path("/home/u"), "/home/u/.clawrunner/settings.json.tmp");
}

#[test]
fn env_map_insert_replaces_and_keeps_keys_unique() {
    let mut env = clawrunner::EnvMap::new();
    env.insert("A".to_string(), "1".to_string());
    env.insert("B".to_string(), "2".to_string());
    env.insert("A".to_string(), "3".to_string());
    assert_eq!(env.entries.len(), 2);
    assert_eq!(env.get("A").map(|v| v.as_str()), Some("3"));
    assert_eq!(env.get("B").map(|v| v.as_str()), Some("2"));
    assert!(env.get("C").is_none());
    assert!(env.contains_key("A"));
    assert!(!env.contains_key("C"));
}

#[test]
fn configured_needs_home_and_config_file() {
    assert!(is_configured(&Some("/home/u".to_string()), true));
    assert!(!is_configured(&Some("/home/u".to_string()), false));
    assert!(!is_configured(&None, true));
    assert!(!is_configured(&None, false));
}
