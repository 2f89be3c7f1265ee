use axum::http::{HeaderMap, HeaderValue};
use codex_rate_proxy::gateway::{
    address, admits_worker, check, forward, gather, gateway_url, health_body, health_url, is_expected,
    listen_address, receive, GatewayError, Happening, Ip, Move, Passage, Refusal, HEALTH_LIMIT,
};
use codex_rate_proxy::identity::fingerprint;
use codex_rate_proxy::ini::parse_ini;
use codex_rate_proxy::settings::{load_settings, Readings, Seconds, Settings};

fn settings() -> Settings {
    let unread = Readings {
        timeout: Seconds::Unreadable,
        min_interval: Seconds::Unreadable,
        backoff_base: Seconds::Unreadable,
        backoff_max: Seconds::Unreadable,
        backoff_jitter: Seconds::Unreadable,
        idle_timeout: Seconds::Unreadable,
    };
    load_settings(&parse_ini("[upstream]\nbase_url = http://llm/v1\n").unwrap(), &unread).unwrap()
}

#[test]
fn gateways_listen_on_this_machine_only() {
    assert_eq!(address(Ip::V4(127, 0, 0, 1), 8765), Ok(()));
    assert_eq!(address(Ip::V4(127, 9, 9, 9), 1), Ok(()));
    assert_eq!(address(Ip::V6(1), 1), Ok(()));
    assert_eq!(address(Ip::V4(10, 0, 0, 1), 1), Err(GatewayError::NotLoopback));
    assert_eq!(address(Ip::V6(0), 1), Err(GatewayError::NotLoopback));
    assert_eq!(address(Ip::V4(127, 0, 0, 1), 0), Err(GatewayError::NotLoopback));
    assert_eq!(
        GatewayError::NotLoopback.message(),
        "gateway requires a loopback [server] host and a fixed nonzero port"
    );
    assert_eq!(listen_address(&settings()), "127.0.0.1:8765");
    assert_eq!(gateway_url("127.0.0.1:8765"), "http://127.0.0.1:8765/v1");
    assert_eq!(health_url("127.0.0.1:8765"), "http://127.0.0.1:8765/health");
}

#[test]
fn gateways_tell_their_configuration() {
    let name = fingerprint(b"/a.ini", "http://llm/v1");
    let body = health_body(b"/a.ini", &settings());
    assert_eq!(body, format!("{{\"config\":\"{name}\",\"gateway\":\"codex-rate-proxy/1\"}}"));
    assert_eq!(check(200, body.as_bytes(), &name), Ok(()));
    assert_eq!(check(200, body.as_bytes(), "other"), Err(GatewayError::Unavailable));
    assert_eq!(check(503, body.as_bytes(), &name), Err(GatewayError::Unavailable));
    assert_eq!(
        GatewayError::Unavailable.message(),
        "shared gateway unavailable or configuration mismatch; start codex-rate-proxy gateway with the same INI"
    );
}

#[test]
fn other_answers_are_no_gateway() {
    for answer in [
        "",
        "null",
        "[]",
        "\"gateway\"",
        "{\"gateway\":1,\"config\":\"c\"}",
        "{\"gateway\":\"codex-rate-proxy/2\",\"config\":\"c\"}",
        "{\"gateway\":\"codex-rate-proxy/1\"}",
        "{\"gateway\":\"codex-rate-proxy/1\",\"config\":\"c\"",
    ] {
        assert!(check(200, answer.as_bytes(), "c").is_err());
    }
    let spaced = " { \"x\": 1, \"config\": \"\\u0063\", \"gateway\": \"codex-rate-proxy/1\" } ";
    assert!(check(200, spaced.as_bytes(), "c").is_ok());
    let some = |s: &str| Some(s.to_owned());
    assert!(is_expected(some("codex-rate-proxy/1"), some("c"), "c"));
    assert!(!is_expected(some("codex-rate-proxy/1"), None, "c"));
    assert!(!is_expected(None, some("c"), "c"));
}

#[test]
fn answers_have_a_limit() {
    let mut data = vec![0; HEALTH_LIMIT - 1];
    assert!(!gather(&mut data, &[1, 2]));
    assert_eq!(data.len(), HEALTH_LIMIT - 1);
    assert!(gather(&mut data, &[1]));
    assert_eq!(data.len(), HEALTH_LIMIT);
    assert_eq!(data[HEALTH_LIMIT - 1], 1);
}

#[test]
fn requests_need_a_key() {
    let mut headers = HeaderMap::new();
    let (passage, first, key) = receive("POST", "/v1/responses", &headers);
    assert_eq!((passage, first), (Passage::Done, Move::Respond(Refusal::NoKey)));
    assert_eq!(key, None);
    assert_eq!(receive("GET", "/health", &headers).1, Move::TellHealth);
    headers.insert("authorization", HeaderValue::from_static("Bearer k"));
    let (passage, first, key) = receive("POST", "/v1/responses", &headers);
    assert_eq!((passage, first), (Passage::Entering, Move::Enter));
    assert_eq!(key.as_deref(), Some("k"));
}

#[test]
fn requests_pass_through_once() {
    let mut passage = Passage::Entering;
    let mut moves = Vec::new();
    for happening in [
        Happening::Admitted,
        Happening::BodyRead,
        Happening::WorkerReady,
        Happening::Answered,
    ] {
        let (next, action) = forward(passage, happening);
        passage = next;
        moves.push(action);
    }
    assert_eq!(passage, Passage::Done);
    assert_eq!(moves, vec![Move::ReadBody, Move::FindWorker, Move::Send, Move::Relay]);
}

#[test]
fn refusals_are_told() {
    let refusal = |passage, happening| match forward(passage, happening) {
        (Passage::Done, Move::Respond(refusal)) => (refusal.status(), refusal.body()),
        other => panic!("{other:?}"),
    };
    assert_eq!(
        refusal(Passage::Entering, Happening::Refused),
        (503, "Gateway request capacity reached\n")
    );
    assert_eq!(
        refusal(Passage::ReadingBody, Happening::BodyFailed),
        (413, "Request body too large or unreadable\n")
    );
    assert_eq!(
        refusal(Passage::ReadingBody, Happening::BodyLate),
        (408, "Request body timeout\n")
    );
    assert_eq!(
        refusal(Passage::FindingWorker, Happening::WorkerMissing),
        (503, "Key worker unavailable or capacity reached\n")
    );
    assert_eq!(
        refusal(Passage::Sent, Happening::ConnectionFailed),
        (502, "Key worker connection failed\n")
    );
    assert_eq!(Refusal::NoKey.status(), 401);
    assert_eq!(Refusal::NoKey.body(), "A single Bearer API key is required\n");
}

#[test]
fn workers_have_a_limit() {
    assert!(admits_worker(false, 63, 64));
    assert!(!admits_worker(false, 64, 64));
    assert!(admits_worker(true, 64, 64));
    assert!(!admits_worker(false, 0, 0));
}
