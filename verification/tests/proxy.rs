use std::time::Duration;

use codex_rate_proxy::ini::parse_ini;
use codex_rate_proxy::pacing::{
    doublings, parse_retry_after, random_jitter, retry_after, retry_delay, wait_for_upstream_turn,
    Pause, EXACT,
};
use codex_rate_proxy::proxy::{
    build_target_url, is_health_request, proxy_request, receive, Action, Event, Progress, Reply,
};
use codex_rate_proxy::settings::{load_settings, Readings, Seconds, Settings};

const SECOND: u128 = 1_000_000_000;

fn settings(more: &str) -> Settings {
    let text = format!("[upstream]\nbase_url = http://llm/v1\n[rate_limit]\n{more}");
    let unread = Readings {
        timeout: Seconds::Unreadable,
        min_interval: Seconds::Unreadable,
        backoff_base: Seconds::Unreadable,
        backoff_max: Seconds::Unreadable,
        backoff_jitter: Seconds::Unreadable,
        idle_timeout: Seconds::Unreadable,
    };
    load_settings(&parse_ini(&text).unwrap(), &unread).unwrap()
}

fn pause(retry_after: Option<u128>, nanos: u32) -> Pause {
    Pause { retry_after, nanos, backoff_read: 0, jitter_read: 0 }
}

#[test]
fn joins_v1_without_duplication() {
    assert_eq!(
        build_target_url("http://llm.example/v1", Some("/v1/responses?stream=true")),
        "http://llm.example/v1/responses?stream=true"
    );
}

#[test]
fn joins_other_paths() {
    assert_eq!(build_target_url("http://x", Some("/v1/a")), "http://x/v1/a");
    assert_eq!(build_target_url("http://x/v1", Some("/v1")), "http://x/v1/v1");
    assert_eq!(build_target_url("http://x/v1", Some("/models")), "http://x/v1/models");
    assert_eq!(build_target_url("http://x", Some("*")), "http://x/*");
    assert_eq!(build_target_url("http://x", None), "http://x/");
}

#[test]
fn parses_retry_after_seconds() {
    assert_eq!(parse_retry_after("12", None, 0).unwrap(), 12 * SECOND);
}

#[test]
fn retry_after_may_be_a_fraction_or_a_date() {
    assert_eq!(parse_retry_after(" 7 ", None, 0), Some(7 * SECOND));
    assert_eq!(parse_retry_after("0.5", Some(SECOND / 2), 0), Some(SECOND / 2));
    let date = "Thu, 01 Jan 1970 00:01:40 GMT";
    assert_eq!(parse_retry_after(date, None, 40 * SECOND), Some(60 * SECOND));
    assert_eq!(parse_retry_after(date, None, 200 * SECOND), Some(0));
    assert_eq!(parse_retry_after("soon", None, 0), None);
    assert_eq!(retry_after(None, Some(3), SECOND), Some(2 * SECOND));
    assert_eq!(retry_after(Some(5), Some(3), SECOND), Some(5));
    assert_eq!(retry_after(None, None, SECOND), None);
}

#[test]
fn turns_keep_their_distance() {
    assert_eq!(wait_for_upstream_turn(None, 5, 10), 0);
    assert_eq!(wait_for_upstream_turn(Some(5), 8, 10), 7);
    assert_eq!(wait_for_upstream_turn(Some(5), 15, 10), 0);
    assert_eq!(wait_for_upstream_turn(Some(9), 8, 10), 10);
}

#[test]
fn backoff_doubles_up_to_its_bound() {
    let settings = settings("backoff_jitter_seconds = 0\n");
    assert_eq!(retry_delay(&settings, 0, pause(None, 0)), 5 * SECOND);
    assert_eq!(retry_delay(&settings, 1, pause(None, 0)), 10 * SECOND);
    assert_eq!(retry_delay(&settings, 3, pause(None, 0)), 40 * SECOND);
    assert_eq!(retry_delay(&settings, 4, pause(None, 0)), 60 * SECOND);
    assert_eq!(retry_delay(&settings, 1000, pause(None, 0)), 60 * SECOND);
    assert_eq!(retry_delay(&settings, 0, pause(Some(90 * SECOND), 0)), 90 * SECOND);
    assert_eq!(retry_delay(&settings, 2, pause(Some(SECOND), 0)), 20 * SECOND);
}

#[test]
fn jitter_is_a_part_of_its_range() {
    assert_eq!(random_jitter(0, 999_999_999, 7), 0);
    assert_eq!(random_jitter(2 * SECOND, 250_000_000, 7), SECOND / 2);
    assert_eq!(random_jitter(SECOND, 999_999_999, 7), 999_999_999);
    assert_eq!(random_jitter(1, 500_000_001, 7), 1);
    assert_eq!(random_jitter(1, 499_999_999, 7), 0);
    let settings = settings("");
    assert_eq!(retry_delay(&settings, 0, pause(None, 500_000_000)), 5 * SECOND + SECOND / 2);
}

#[test]
fn floating_point_counts_where_it_may_be_inexact() {
    let scaled = |longest: u64, nanos: u32| {
        let fraction = f64::from(nanos) / 1_000_000_000.0;
        Duration::from_nanos(longest).mul_f64(fraction).as_nanos()
    };
    assert_eq!(random_jitter(1_953_125, 500_000_000, scaled(1_953_125, 500_000_000)), 976_562);
    for (longest, nanos) in [(2, 250_000_000), (6, 750_000_000), (1_000_000_007, 123_456_789)] {
        let read = scaled(longest, nanos);
        assert_eq!(random_jitter(u128::from(longest), nanos, read), read);
    }
    assert_eq!(random_jitter(5, 500_000_000, 3), 3);
    assert_eq!(random_jitter(5, 500_000_000, 9), 5);
    let mut settings = settings("backoff_jitter_seconds = 0\n");
    settings.backoff_base = EXACT;
    settings.backoff_max = 8 * EXACT;
    let read = |backoff_read| Pause { backoff_read, ..pause(None, 0) };
    assert_eq!(retry_delay(&settings, 0, read(7)), EXACT);
    assert_eq!(retry_delay(&settings, 1, read(2 * EXACT - 1)), 2 * EXACT - 1);
    assert_eq!(retry_delay(&settings, 1, read(9 * EXACT)), 8 * EXACT);
    assert_eq!(doublings(7), 7);
    assert_eq!(doublings(31), 30);
}

#[test]
fn health_is_answered_at_once() {
    assert!(is_health_request("GET", "/health"));
    assert!(!is_health_request("POST", "/health"));
    assert_eq!(receive("GET", "/health"), (Progress::Done, Action::Respond(Reply::Healthy)));
    assert_eq!(receive("GET", "/v1/health"), (Progress::ReadingBody, Action::ReadBody));
    assert_eq!(Reply::Healthy.status(), 200);
    assert_eq!(Reply::Healthy.content_type(), "application/json");
    assert_eq!(Reply::Healthy.body(), "{\"status\":\"ok\"}\n");
}

#[test]
fn failures_are_told() {
    let settings = settings("");
    assert_eq!(
        proxy_request(&settings, Progress::ReadingBody, Event::BodyFailed),
        (Progress::Done, Action::Respond(Reply::BodyUnreadable))
    );
    assert_eq!(
        proxy_request(&settings, Progress::Sent(0), Event::ConnectionFailed),
        (Progress::Done, Action::Respond(Reply::UpstreamFailed))
    );
    assert_eq!(
        proxy_request(&settings, Progress::Sent(0), Event::BodyRead),
        (Progress::Done, Action::Respond(Reply::Unexpected))
    );
    assert_eq!(Reply::BodyUnreadable.status(), 400);
    assert_eq!(Reply::BodyUnreadable.body(), "Could not read request body\n");
    assert_eq!(Reply::UpstreamFailed.status(), 502);
    assert_eq!(Reply::UpstreamFailed.body(), "Upstream connection failed\n");
    assert_eq!(Reply::UpstreamFailed.content_type(), "text/plain; charset=utf-8");
    assert_eq!(
        proxy_request(&settings, Progress::ReadingBody, Event::Stopping),
        (Progress::Done, Action::Respond(Reply::Stopping))
    );
    assert_eq!(Reply::Stopping.status(), 503);
    assert_eq!(Reply::Stopping.body(), "Proxy is stopping\n");
    assert_eq!(Reply::Unexpected.status(), 500);
    assert_eq!(Reply::Unexpected.body(), "Retry loop ended unexpectedly\n");
}

#[test]
fn refusals_are_retried_and_then_handed_on() {
    let settings = settings("max_retries = 2\nbackoff_jitter_seconds = 0\n");
    let mut progress = Progress::ReadingBody;
    let mut sends = 0;
    let mut event = Event::BodyRead;
    let mut waits = Vec::new();
    loop {
        let (next, action) = proxy_request(&settings, progress, event);
        progress = next;
        event = match action {
            Action::TakeTurn => Event::TurnCame,
            Action::Send => {
                sends += 1;
                Event::Answered { status: 429 }
            }
            Action::Weigh { .. } => Event::Weighed(pause(None, 0)),
            Action::Wait(delay) => {
                waits.push(delay);
                Event::Waited
            }
            other => {
                assert_eq!(other, Action::Relay);
                break;
            }
        };
    }
    assert_eq!(sends, 3);
    assert_eq!(waits, vec![5 * SECOND, 10 * SECOND]);
}

#[test]
fn only_refusals_are_retried() {
    let settings = settings("");
    for status in [200, 400, 401, 500, 503] {
        let event = Event::Answered { status };
        assert_eq!(
            proxy_request(&settings, Progress::Sent(0), event),
            (Progress::Done, Action::Relay)
        );
    }
    assert_eq!(
        proxy_request(&settings, Progress::Sent(2), Event::Answered { status: 429 }),
        (Progress::Refused(2), Action::Weigh { doublings: 2 })
    );
    assert_eq!(
        proxy_request(&settings, Progress::Refused(2), Event::Weighed(pause(Some(100 * SECOND), 0))),
        (Progress::BackingOff(2), Action::Wait(100 * SECOND))
    );
    assert_eq!(
        proxy_request(&settings, Progress::Sent(5), Event::Answered { status: 429 }),
        (Progress::Done, Action::Relay)
    );
}
