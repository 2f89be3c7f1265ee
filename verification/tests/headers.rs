use axum::http::{HeaderMap, HeaderValue};
use codex_rate_proxy::gateway::bearer_key;
use codex_rate_proxy::headers::{
    copy_response_headers, filtered_request_headers, is_hop_by_hop, retry_after_field, visible,
};

fn fields(list: &[(&'static str, &'static str)]) -> HeaderMap<HeaderValue> {
    let mut map = HeaderMap::new();
    for (name, value) in list {
        map.append(*name, HeaderValue::from_static(value));
    }
    map
}

fn values(map: &HeaderMap<HeaderValue>, name: &str) -> Vec<String> {
    map.get_all(name).iter().map(|v| v.to_str().unwrap().to_owned()).collect()
}

#[test]
fn knows_hop_by_hop_fields() {
    for name in [
        "connection",
        "Keep-Alive",
        "proxy-authenticate",
        "PROXY-AUTHORIZATION",
        "te",
        "trailer",
        "transfer-encoding",
        "Upgrade",
    ] {
        assert!(is_hop_by_hop(name));
    }
    assert!(!is_hop_by_hop("authorization"));
    assert!(!is_hop_by_hop("host"));
}

#[test]
fn requests_lose_what_concerns_one_hop() {
    let source = fields(&[
        ("host", "h"),
        ("content-length", "3"),
        ("connection", "close"),
        ("x-a", "1"),
        ("x-b", "2"),
        ("x-a", "3"),
        ("authorization", "Bearer k"),
    ]);
    let passed = filtered_request_headers(&source).unwrap();
    assert_eq!(passed.len(), 4);
    assert_eq!(values(&passed, "x-a"), vec!["1", "3"]);
    assert_eq!(values(&passed, "x-b"), vec!["2"]);
    assert_eq!(values(&passed, "authorization"), vec!["Bearer k"]);
}

#[test]
fn responses_keep_their_length() {
    let source = fields(&[("content-length", "3"), ("te", "x"), ("x-a", "1")]);
    let mut destination = fields(&[("x-a", "0")]);
    copy_response_headers(&source, &mut destination).unwrap();
    assert_eq!(values(&destination, "content-length"), vec!["3"]);
    assert_eq!(values(&destination, "x-a"), vec!["0", "1"]);
    assert_eq!(values(&destination, "te"), Vec::<String>::new());
}

#[test]
fn finds_retry_after() {
    let map = fields(&[("retry-after", "12"), ("retry-after", "13")]);
    assert_eq!(retry_after_field(&map).as_deref(), Some("12"));
    assert_eq!(retry_after_field(&fields(&[])), None);
    let mut odd = HeaderMap::new();
    odd.insert("retry-after", HeaderValue::from_bytes(b"\xff").unwrap());
    assert_eq!(retry_after_field(&odd), None);
    assert_eq!(visible(b"a\tb").as_deref(), Some("a\tb"));
    assert_eq!(visible(b"a\x7f"), None);
}

#[test]
fn takes_exactly_one_bearer_key() {
    let key = |value: &'static str| bearer_key(&fields(&[("authorization", value)]));
    assert_eq!(key("Bearer sk-1").as_deref(), Some("sk-1"));
    assert_eq!(key("bEARER sk-1").as_deref(), Some("sk-1"));
    assert_eq!(key("Basic sk-1"), None);
    assert_eq!(key("Bearer"), None);
    assert_eq!(key("Bearer "), None);
    assert_eq!(key("Bearer  sk-1"), None);
    assert_eq!(key("Bearer a b"), None);
    assert_eq!(bearer_key(&fields(&[])), None);
    assert_eq!(
        bearer_key(&fields(&[("authorization", "Bearer a"), ("authorization", "Bearer a")])),
        None
    );
}

#[test]
fn filtering_twice_changes_nothing() {
    let source = fields(&[("host", "h"), ("x-a", "1"), ("upgrade", "u"), ("x-a", "2")]);
    let once = filtered_request_headers(&source).unwrap();
    let twice = filtered_request_headers(&once).unwrap();
    assert_eq!(once, twice);
    assert_eq!(twice.len(), 2);
}

#[test]
fn marks_of_values_are_kept() {
    let mut source = HeaderMap::new();
    let mut secret = HeaderValue::from_static("Bearer k");
    secret.set_sensitive(true);
    source.append("authorization", secret);
    source.append("x-a", HeaderValue::from_static("1"));
    let passed = filtered_request_headers(&source).unwrap();
    assert!(passed.get("authorization").unwrap().is_sensitive());
    assert!(!passed.get("x-a").unwrap().is_sensitive());
}

#[test]
fn many_names_pass() {
    let mut source = HeaderMap::new();
    for i in 0..6000 {
        let name = axum::http::HeaderName::from_bytes(format!("x-{i}").as_bytes()).unwrap();
        source.append(name, HeaderValue::from_static("1"));
    }
    assert_eq!(filtered_request_headers(&source).unwrap(), source);
}
