use codex_rate_proxy::digits::NumberError;
use codex_rate_proxy::ini::{get, optional, parse_ini, required};
use codex_rate_proxy::settings::{
    duration_value, load_settings, parse_value, reload, reload_runtime_config, whole_seconds,
    Readings, Reloading, Seconds, SecondsError, Setting, Settings, SettingsError,
};

const UNREAD: Readings = Readings {
    timeout: Seconds::Unreadable,
    min_interval: Seconds::Unreadable,
    backoff_base: Seconds::Unreadable,
    backoff_max: Seconds::Unreadable,
    backoff_jitter: Seconds::Unreadable,
    idle_timeout: Seconds::Unreadable,
};

fn load(text: &str) -> Result<Settings, SettingsError> {
    load_settings(&parse_ini(text).unwrap(), &UNREAD)
}

#[test]
fn parses_ini_values() {
    let ini =
        parse_ini("[server]\nport = 8765\n[upstream]\nbase_url = http://llm/v1\n").unwrap();
    assert_eq!(get(&ini, "server", "port", "0"), "8765");
    assert_eq!(required(&ini, "upstream", "base_url").unwrap(), "http://llm/v1");
}

#[test]
fn ini_ignores_comments_case_and_blanks() {
    let ini = parse_ini("# one\r\n; two\r\n\r\n  [ Server ]  \r\n Port\t=  1 = 2 \r\n").unwrap();
    assert_eq!(get(&ini, "server", "port", "0"), "1 = 2");
    assert_eq!(get(&ini, "Server", "port", "0"), "0");
    assert_eq!(get(&ini, "server", "host", "none"), "none");
}

#[test]
fn ini_takes_the_last_of_equal_settings() {
    let ini = parse_ini("[a]\nk = 1\n[b]\nk = 2\n[a]\nK = 3\n").unwrap();
    assert_eq!(get(&ini, "a", "k", ""), "3");
    assert_eq!(get(&ini, "b", "k", ""), "2");
}

#[test]
fn ini_tells_the_line_of_a_fault() {
    assert_eq!(parse_ini("\n[ ]\n").unwrap_err().message(), "empty section name at line 2");
    assert_eq!(parse_ini("k = 1\n").unwrap_err().message(), "setting outside a section at line 1");
    assert_eq!(parse_ini("[a]\n\nnone\n").unwrap_err().message(), "expected key = value at line 3");
}

#[test]
fn blank_settings_are_missing() {
    let ini = parse_ini("[forward_proxy]\nhttp =\n[upstream]\nbase_url =  \n").unwrap();
    assert_eq!(optional(&ini, "forward_proxy", "http"), None);
    assert_eq!(
        required(&ini, "upstream", "base_url").unwrap_err().message(),
        "missing required setting [upstream] base_url"
    );
}

#[test]
fn whole_numbers_have_a_range() {
    let ini = parse_ini("[a]\nbig = 65536\nplus = +7\nsign = -1\nnone =\nword = x\n").unwrap();
    assert_eq!(parse_value(&ini, "a", "plus", "0", 65535), Ok(7));
    assert_eq!(parse_value(&ini, "a", "absent", "12", 65535), Ok(12));
    assert_eq!(parse_value(&ini, "a", "big", "0", 65535), Err(NumberError::TooLarge));
    assert_eq!(parse_value(&ini, "a", "sign", "0", 65535), Err(NumberError::InvalidDigit));
    assert_eq!(parse_value(&ini, "a", "none", "0", 65535), Err(NumberError::Empty));
    assert_eq!(parse_value(&ini, "a", "word", "0", 65535), Err(NumberError::InvalidDigit));
}

#[test]
fn lengths_of_time_are_whole_or_read() {
    let ini = parse_ini("[a]\nhalf = 0.5\nnone =\n").unwrap();
    assert_eq!(whole_seconds("10"), Some(10_000_000_000));
    assert_eq!(whole_seconds("0.5"), None);
    assert_eq!(duration_value(&ini, "a", "x", "600", Seconds::Unreadable), Ok(600_000_000_000));
    assert_eq!(
        duration_value(&ini, "a", "half", "1", Seconds::Nanos(500_000_000)),
        Ok(500_000_000)
    );
    assert_eq!(
        duration_value(&ini, "a", "half", "1", Seconds::OutOfRange),
        Err(SecondsError::Negative)
    );
    assert_eq!(
        duration_value(&ini, "a", "half", "1", Seconds::Unreadable),
        Err(SecondsError::Invalid)
    );
    assert_eq!(
        duration_value(&ini, "a", "none", "1", Seconds::Unreadable),
        Err(SecondsError::Empty)
    );
}

#[test]
fn settings_have_defaults() {
    let settings = load("[upstream]\nbase_url = http://llm/v1//\n").unwrap();
    assert_eq!(settings.upstream_base_url, "http://llm/v1");
    assert_eq!(settings.listen_host, "127.0.0.1");
    assert_eq!(settings.listen_port, 8765);
    assert_eq!(settings.upstream_timeout, 600_000_000_000);
    assert_eq!(settings.max_request_body_bytes, 134_217_728);
    assert_eq!(settings.min_interval, 10_000_000_000);
    assert_eq!(settings.max_retries, 5);
    assert_eq!(settings.backoff_base, 5_000_000_000);
    assert_eq!(settings.backoff_max, 60_000_000_000);
    assert_eq!(settings.backoff_jitter, 1_000_000_000);
    assert_eq!(settings.idle_timeout, 1_800_000_000_000);
    assert_eq!(settings.forward_proxy, None);
    assert_eq!(settings.codex_binary, "codex");
    assert_eq!(settings.provider, "corp");
    assert_eq!(settings.gateway_max_inflight, 256);
    assert_eq!(settings.gateway_max_workers, 64);
}

#[test]
fn settings_follow_the_configuration() {
    let text = "[server]\nhost = ::1\nport = 9\n[upstream]\nbase_url = http://x\n\
                timeout_seconds = 1\nmax_request_body_bytes = 2\n[rate_limit]\n\
                min_interval_seconds = 3\nmax_retries = 4\nbackoff_base_seconds = 5\n\
                backoff_max_seconds = 6\nbackoff_jitter_seconds = 7\n[forward_proxy]\n\
                http = http://p:1\n[launcher]\ncodex_binary = /c\nprovider = q\n\
                [lifecycle]\nidle_timeout_seconds = 8\n\
                [gateway]\nmax_inflight = 9\nmax_workers = 10\n";
    let settings = load(text).unwrap();
    assert_eq!(settings.listen_host, "::1");
    assert_eq!(settings.listen_port, 9);
    assert_eq!(settings.upstream_timeout, 1_000_000_000);
    assert_eq!(settings.max_request_body_bytes, 2);
    assert_eq!(settings.min_interval, 3_000_000_000);
    assert_eq!(settings.max_retries, 4);
    assert_eq!(settings.backoff_base, 5_000_000_000);
    assert_eq!(settings.backoff_max, 6_000_000_000);
    assert_eq!(settings.backoff_jitter, 7_000_000_000);
    assert_eq!(settings.forward_proxy.as_deref(), Some("http://p:1"));
    assert_eq!(settings.codex_binary, "/c");
    assert_eq!(settings.provider, "q");
    assert_eq!(settings.idle_timeout, 8_000_000_000);
    assert_eq!(settings.gateway_max_inflight, 9);
    assert_eq!(settings.gateway_max_workers, 10);
}

#[test]
fn settings_tell_their_faults() {
    let with = |more: &str| format!("[upstream]\nbase_url = http://x\n{more}");
    let fault = |text: &str| load(text).unwrap_err().message();
    assert_eq!(fault(""), "missing required setting [upstream] base_url");
    assert_eq!(
        fault("[upstream]\nbase_url = https://x\n"),
        "[upstream] base_url must start with http://; HTTPS is not enabled"
    );
    assert_eq!(
        fault(&with("[server]\nport = 65536\n")),
        "invalid [server] port: number too large to fit in target type"
    );
    assert_eq!(
        fault(&with("timeout_seconds = x\n")),
        "invalid [upstream] timeout_seconds: invalid float literal"
    );
    assert_eq!(
        fault(&with("timeout_seconds =\n")),
        "invalid [upstream] timeout_seconds: cannot parse float from empty string"
    );
    assert_eq!(
        fault(&with("[gateway]\nmax_inflight = x\n")),
        "invalid [gateway] max_inflight: invalid digit found in string"
    );
    assert_eq!(
        fault(&with("[gateway]\nmax_workers =\n")),
        "invalid [gateway] max_workers: cannot parse integer from empty string"
    );
    assert_eq!(fault(&with("[server]\nhost =\n")), "[server] host must not be empty");
    assert_eq!(
        fault(&with("max_request_body_bytes = 0\n")),
        "[upstream] max_request_body_bytes must be greater than zero"
    );
    assert_eq!(
        fault(&with("[rate_limit]\nbackoff_max_seconds = 1\n")),
        "backoff_max_seconds must be at least backoff_base_seconds"
    );
    assert_eq!(
        SettingsError::Time(Setting::MinInterval, SecondsError::Negative).message(),
        "[rate_limit] min_interval_seconds must be a non-negative number"
    );
}

#[test]
fn reload_keeps_the_listener() {
    let current = load("[upstream]\nbase_url = http://a\n").unwrap();
    let new = load("[server]\nport = 1\n[upstream]\nbase_url = http://b\n").unwrap();
    let (settings, moved) = reload(&current, new);
    assert!(moved);
    assert_eq!(settings.listen_port, 8765);
    assert_eq!(settings.upstream_base_url, "http://b");
    let (_, moved) = reload(&current, load("[upstream]\nbase_url = http://c\n").unwrap());
    assert!(!moved);
}

#[test]
fn unusable_configurations_change_nothing() {
    let current = load("[upstream]\nbase_url = http://a\n").unwrap();
    assert!(matches!(reload_runtime_config(&current, None), Reloading::Keep));
    let new = load("[upstream]\nbase_url = http://b\n").unwrap();
    assert!(matches!(
        reload_runtime_config(&current, Some(new)),
        Reloading::Try { settings, moved: false } if settings.upstream_base_url == "http://b"
    ));
}
