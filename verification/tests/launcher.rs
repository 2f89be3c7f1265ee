use codex_rate_proxy::keys::KeySource;
use codex_rate_proxy::launcher::{
    codex_arguments, dispatch, exit_code, key_variable, parse_args, proxy_bypass, usage,
    ArgumentError, KeyChoice, LauncherError, Plan, Start,
};

fn arguments(list: &[&str]) -> Vec<String> {
    list.iter().map(|s| (*s).to_owned()).collect()
}

fn plan(list: &[&str]) -> Plan {
    dispatch(&arguments(list), true).unwrap()
}

fn fault(list: &[&str]) -> String {
    let list = arguments(list);
    dispatch(&list, true).unwrap_err().message(&list)
}

#[test]
fn launches_for_a_registered_user() {
    for option in ["-u", "--user"] {
        let plan = plan(&["launch", option, "hoony", "--", "resume", "--last"]);
        assert!(matches!(
            plan,
            Plan::Launch { config: None, key: KeyChoice::Registered(name), codex_args }
                if name == "hoony" && codex_args == vec!["resume", "--last"]
        ));
    }
}

#[test]
fn hands_everything_behind_the_dashes_on() {
    let plan = plan(&["launch", "-c", "/x", "--", "--", "-u", "--replace"]);
    assert!(matches!(
        plan,
        Plan::Launch { config: Some(path), key: KeyChoice::Given(None), codex_args }
            if path == "/x" && codex_args == vec!["--", "-u", "--replace"]
    ));
}

#[test]
fn knows_the_key_sources() {
    let source = |list: &[&str]| match plan(list) {
        Plan::Url { key: KeyChoice::Given(Some(source)), .. } => source,
        other => panic!("{other:?}"),
    };
    assert!(matches!(source(&["url", "--key-file", "f"]), KeySource::File(f) if f == "f"));
    assert!(matches!(source(&["url", "--key-env", "V"]), KeySource::Variable(v) if v == "V"));
    assert!(matches!(source(&["url", "--ask-key"]), KeySource::Ask));
    assert!(matches!(source(&["url", "--key-stdin"]), KeySource::Stdin));
}

#[test]
fn knows_the_other_operations() {
    assert!(matches!(plan(&[]), Plan::Standalone));
    assert!(matches!(plan(&["--config", "x"]), Plan::Standalone));
    assert!(matches!(plan(&["list"]), Plan::List));
    assert!(matches!(plan(&["prune"]), Plan::Prune { dry_run: false }));
    assert!(matches!(plan(&["prune", "--dry-run"]), Plan::Prune { dry_run: true }));
    assert!(matches!(
        plan(&["stop", "-u", "a"]),
        Plan::Stop { config: None, key: KeyChoice::Registered(name) } if name == "a"
    ));
    assert!(matches!(
        plan(&["register", "a", "--key-env", "V", "--replace"]),
        Plan::Register { name, source: Some(KeySource::Variable(v)), replace: true }
            if name == "a" && v == "V"
    ));
    assert!(matches!(plan(&["unregister", "a"]), Plan::Unregister { name } if name == "a"));
    assert!(matches!(plan(&["encrypt-keys"]), Plan::EncryptKeys));
    assert!(matches!(
        plan(&["env", "-u", "a"]),
        Plan::Env { arguments } if arguments == vec!["-u", "a"]
    ));
}

#[test]
fn faults_of_the_command_line_are_told() {
    assert_eq!(fault(&["launch", "--nothing"]), "unknown launcher option: --nothing");
    assert_eq!(fault(&["launch", "--config"]), "--config requires a path");
    assert_eq!(fault(&["launch", "--key-file"]), "key option needs a value");
    assert_eq!(fault(&["launch", "--ask-key", "--key-stdin"]), "choose only one key source");
    assert_eq!(fault(&["launch", "--ask-key", "--key-env"]), "choose only one key source");
    assert_eq!(fault(&["launch", "--user"]), "--user requires a name");
    assert_eq!(fault(&["launch", "-u", "a", "--user", "b"]), "choose only one user");
    assert_eq!(fault(&["launch", "--dry-run"]), "--dry-run is only valid for prune");
    assert_eq!(fault(&["url", "--replace"]), "--replace is only valid for register");
    let misplaced =
        "--user is a key source for launch/url/stop; do not combine it with other key sources";
    assert_eq!(fault(&["launch", "-u", "a", "--ask-key"]), misplaced);
    assert_eq!(fault(&["register", "a", "-u", "b"]), misplaced);
    assert_eq!(fault(&["list", "-u", "b"]), misplaced);
    assert_eq!(fault(&["url", "--", "x"]), "Codex arguments are only valid for launch");
    assert_eq!(fault(&["prune", "--ask-key"]), "list/prune do not accept a key");
    assert_eq!(fault(&["register"]), "register requires a user name");
    assert_eq!(fault(&["unregister"]), "unregister requires a user name");
    assert_eq!(fault(&["unregister", "a", "b"]), "unknown launcher option: b");
    assert_eq!(fault(&["encrypt-keys", "x"]), "unknown launcher option: x");
    let list = arguments(&["launch"]);
    assert_eq!(dispatch(&list, false).unwrap_err(), LauncherError::NoHome);
    assert_eq!(LauncherError::NoHome.message(&list), "HOME is not set; use --config PATH");
}

#[test]
fn codex_is_called_with_its_proxy() {
    let call = codex_arguments("corp", "http://127.0.0.1:9/v1", &arguments(&["resume"]));
    assert_eq!(
        call,
        vec![
            "-c",
            "model_provider=\"corp\"",
            "-c",
            "model_providers.corp.base_url=\"http://127.0.0.1:9/v1\"",
            "-c",
            "model_providers.corp.env_key=\"CODEX_RATE_PROXY_API_KEY\"",
            "-c",
            "model_providers.corp.requires_openai_auth=false",
            "-c",
            "model_providers.corp.request_max_retries=0",
            "-c",
            "model_providers.corp.stream_max_retries=0",
            "-c",
            "model_providers.corp.supports_websockets=false",
            "resume",
        ]
    );
    assert_eq!(key_variable(), "CODEX_RATE_PROXY_API_KEY");
}

#[test]
fn texts_are_quoted_for_codex() {
    let call = codex_arguments("a\"\\\n\u{1}\u{e9}/\u{7f}", "u", &[]);
    assert_eq!(call[1], "model_provider=\"a\\\"\\\\\\n\\u0001\u{e9}/\u{7f}\"");
    let call = codex_arguments("\u{8}\t\u{c}\r\u{1f}", "u", &[]);
    assert_eq!(call[1], "model_provider=\"\\b\\t\\f\\r\\u001f\"");
}

#[test]
fn this_machine_needs_no_proxy() {
    let some = |s: &str| Some(s.to_owned());
    assert_eq!(proxy_bypass(some("a"), some("b")), "a,127.0.0.1,localhost");
    assert_eq!(proxy_bypass(None, some("b")), "b,127.0.0.1,localhost");
    assert_eq!(proxy_bypass(None, None), ",127.0.0.1,localhost");
}

#[test]
fn exit_codes_follow_codex() {
    assert_eq!(exit_code(Some(3), None), 3);
    assert_eq!(exit_code(None, Some(9)), 137);
    assert_eq!(exit_code(None, None), 129);
}

#[test]
fn the_proxy_runs_by_itself() {
    let start = |list: &[&str]| parse_args(&arguments(list), true);
    assert!(matches!(start(&[]), Ok(Start::Run(None))));
    assert!(matches!(start(&["-c", "a", "--config", "b"]), Ok(Start::Run(Some(p))) if p == "b"));
    assert!(matches!(start(&["-h", "x"]), Ok(Start::Help)));
    let list = arguments(&["-c", "a", "x"]);
    let e = parse_args(&list, true).unwrap_err();
    assert_eq!(e, ArgumentError::Unknown(2));
    assert_eq!(e.message(&list), "unknown argument: x");
    let e = start(&["-c"]).unwrap_err();
    assert_eq!(e.message(&list), "--config requires a file path");
    let e = parse_args(&[], false).unwrap_err();
    assert_eq!(e.message(&list), "HOME is not set; use --config PATH");
    let named = parse_args(&arguments(&["--config", "/a.ini"]), false);
    assert!(matches!(named, Ok(Start::Run(Some(p))) if p == "/a.ini"));
    assert!(usage().ends_with("Default config: ~/.config/codex-rate-proxy/config.ini"));
}
