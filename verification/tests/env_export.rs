use codex_rate_proxy::env_export::{env_help, run, shell_command, EnvError};

fn arguments(list: &[&str]) -> Vec<String> {
    list.iter().map(|s| (*s).to_owned()).collect()
}

fn fault(list: &[&str], to_terminal: bool) -> EnvError {
    run(&arguments(list), to_terminal).unwrap_err()
}

#[test]
fn exports_what_the_options_say() {
    let list = arguments(&["--shell", "tcsh", "-u", "alice", "--var", "_K1"]);
    let export = run(&list, false).unwrap().unwrap();
    assert_eq!(export.user, "alice");
    assert_eq!(export.shell, "tcsh");
    assert_eq!(export.variable, "_K1");
    let list = arguments(&["--user", "bob", "--shell", "bash"]);
    assert_eq!(run(&list, false).unwrap().unwrap().variable, "OPENAI_API_KEY");
}

#[test]
fn help_stands_alone() {
    assert!(run(&arguments(&["-h"]), true).unwrap().is_none());
    assert!(run(&arguments(&["--help"]), false).unwrap().is_none());
    assert_eq!(fault(&["-u", "a", "--help"], false), EnvError::Unknown);
    assert!(env_help().starts_with("Usage: codex-rate-proxy env -u NAME"));
}

#[test]
fn faults_are_told() {
    assert_eq!(fault(&["--nothing"], false), EnvError::Unknown);
    assert_eq!(fault(&["-u", "a", "--user", "b"], false), EnvError::Duplicate);
    assert_eq!(fault(&["-u"], false), EnvError::NoValue);
    assert_eq!(fault(&[], false), EnvError::NoUser);
    assert_eq!(fault(&["-u", "a"], false), EnvError::NoShell);
    assert_eq!(fault(&["-u", "a", "--shell", "fish"], false), EnvError::UnsupportedShell);
    for name in ["", "1a", "a-b", "\u{e9}"] {
        assert_eq!(
            fault(&["-u", "a", "--shell", "bash", "--var", name], false),
            EnvError::InvalidVariable
        );
    }
    assert_eq!(fault(&["-u", "a", "--shell", "bash"], true), EnvError::Terminal);
    assert_eq!(EnvError::Unknown.message(), "unknown env option; use env --help");
    assert_eq!(EnvError::Duplicate.message(), "duplicate env option");
    assert_eq!(EnvError::NoValue.message(), "env option requires a value");
    assert_eq!(EnvError::NoUser.message(), "env requires --user NAME or -u NAME");
    assert_eq!(EnvError::NoShell.message(), "env requires --shell bash|csh|tcsh");
    assert_eq!(EnvError::UnsupportedShell.message(), "unsupported shell; use bash, csh or tcsh");
    assert_eq!(
        EnvError::InvalidVariable.message(),
        "--var must be a shell identifier: letters, digits, underscore; no leading digit"
    );
    assert_eq!(
        EnvError::Terminal.message(),
        "refusing to print a credential to the terminal; use shell evaluation (see README)"
    );
}

#[test]
fn commands_hold_octal_escapes_only() {
    assert_eq!(shell_command("bash", "K", "a'!"), "export K=$'\\141\\047\\041'\n");
    assert_eq!(
        shell_command("csh", "K", "a`"),
        "setenv K \"`/usr/bin/printf '\\141\\140'`\"\n"
    );
    assert_eq!(shell_command("tcsh", "K", "~"), "setenv K \"`/usr/bin/printf '\\176'`\"\n");
}

#[test]
fn escapes_decode_to_the_key() {
    let key: String = (33u8..=126).map(char::from).collect();
    let command = shell_command("bash", "K", &key);
    let escapes = command.strip_prefix("export K=$'").unwrap().strip_suffix("'\n").unwrap();
    let decoded: String = escapes
        .split('\\')
        .skip(1)
        .map(|digits| char::from(u8::from_str_radix(digits, 8).unwrap()))
        .collect();
    assert_eq!(decoded, key);
}
