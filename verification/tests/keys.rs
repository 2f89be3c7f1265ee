use codex_rate_proxy::identity::{fingerprint, identity};
use codex_rate_proxy::keys::{
    key_input, read_key, registration_input, validate_key, KeyInput, KeySource, MAX_KEY,
};

#[test]
fn rejects_multiline_and_empty_keys() {
    for key in ["", "a\nb", "a b", "a\r"] {
        assert!(validate_key(key).is_err());
    }
    assert!(validate_key("fake-test-key").is_ok());
}

#[test]
fn accepts_keys_up_to_the_longest() {
    let longest = "k".repeat(MAX_KEY);
    assert!(validate_key(&longest).is_ok());
    assert!(validate_key(&format!("{longest}k")).is_err());
    assert!(validate_key("!~").is_ok());
    assert!(validate_key("caf\u{e9}").is_err());
    assert!(validate_key("a\u{7f}").is_err());
    assert_eq!(
        validate_key("").unwrap_err().message(),
        "API key must be a nonempty single line of printable ASCII without spaces"
    );
}

#[test]
fn cuts_line_ends_off_keys() {
    assert_eq!(read_key("secret\r\n\n").unwrap(), "secret");
    assert_eq!(read_key("secret").unwrap(), "secret");
    assert!(read_key("two\nlines\n").is_err());
    assert!(read_key("\n").is_err());
}

#[test]
fn looks_for_keys_where_told() {
    let told = key_input(Some(KeySource::File("/k".to_owned())), Some("account".to_owned()));
    assert!(matches!(told, KeyInput::From(KeySource::File(path)) if path == "/k"));
    let account = key_input(None, Some("account".to_owned()));
    assert!(matches!(account, KeyInput::Account(key) if key == "account"));
    assert!(matches!(key_input(None, Some(String::new())), KeyInput::From(KeySource::Ask)));
    assert!(matches!(key_input(None, None), KeyInput::From(KeySource::Ask)));
    assert!(matches!(registration_input(None), KeySource::Ask));
    assert!(matches!(registration_input(Some(KeySource::Stdin)), KeySource::Stdin));
}

#[test]
fn identity_separates_keys_targets_and_configs() {
    let a = identity("a", "http://llm/v1", b"/a.ini");
    assert_eq!(a, identity("a", "http://llm/v1", b"/a.ini"));
    assert_ne!(a, identity("b", "http://llm/v1", b"/a.ini"));
    assert_ne!(a, identity("a", "http://other/v1", b"/a.ini"));
    assert_ne!(a, identity("a", "http://llm/v1", b"/b.ini"));
}

#[test]
fn identity_is_a_digest_of_framed_fields() {
    assert_eq!(
        identity("a", "http://llm/v1", b"/a.ini"),
        "ad3b07878deff109f27f47af02cf477cff36d4b25be1b429097e2caeb30f8fc9"
    );
    assert_ne!(identity("ab", "c", b"d"), identity("a", "bc", b"d"));
    assert_ne!(identity("a", "bc", b"d"), identity("a", "b", b"cd"));
}

#[test]
fn fingerprint_is_a_digest_of_path_and_upstream() {
    assert_eq!(
        fingerprint(b"/a.ini", "http://llm/v1"),
        "8f3208a7a3f5a798e823b78cdcb8b8ad4e8f4cc524c8c9f00f8f32c7d8241002"
    );
    assert_ne!(fingerprint(b"/a.ini", "http://llm/v1"), fingerprint(b"/a.in", "ihttp://llm/v1"));
}
