use codex_rate_proxy::control::{
    control, control_answer, is_record_of, is_record_of_start, list_or_prune, prune_line,
    read_json, record, status_line, stop_outcome, unavailable_line, write_json, ControlError,
    Pruning, Record, Status, Stopping, MESSAGE_LIMIT,
};

fn sample() -> Record {
    Record {
        protocol: 1,
        identity: "id".to_owned(),
        token: "token".to_owned(),
        url: "http://u".to_owned(),
        pid: 42,
    }
}

fn status(sessions: usize, requests: usize, stopping: bool) -> Status {
    Status {
        identity: "id".to_owned(),
        sessions,
        requests,
        idle_seconds: 7,
        stopped: false,
        stopping,
    }
}

#[test]
fn records_have_a_version() {
    assert_eq!(record(sample()).unwrap().url, "http://u");
    let mut newer = sample();
    newer.protocol = 2;
    assert_eq!(record(newer).unwrap_err(), ControlError::UnsupportedProtocol);
    assert!(is_record_of(&sample(), "id"));
    assert!(!is_record_of(&sample(), "other"));
    assert!(is_record_of_start(&sample(), "id", "token"));
    assert!(!is_record_of_start(&sample(), "id", "other"));
}

#[test]
fn questions_and_answers_name_the_instance() {
    let question = control(&sample(), "stop");
    assert_eq!(question.identity, "id");
    assert_eq!(question.token, "token");
    assert_eq!(question.operation, "stop");
    assert!(control_answer(&sample(), status(0, 0, false)).is_ok());
    let mut other = status(0, 0, false);
    other.identity = "other".to_owned();
    assert_eq!(
        control_answer(&sample(), other).unwrap_err().message(),
        "instance identity mismatch"
    );
    assert_eq!(
        ControlError::UnsupportedProtocol.message(),
        "unsupported control protocol"
    );
    assert_eq!(
        ControlError::AuthenticationFailed.message(),
        "control authentication failed"
    );
    assert_eq!(ControlError::UnknownOperation.message(), "unknown control operation");
}

#[test]
fn messages_arrive_as_sent() {
    let mut wire = write_json(b"{\"a\":1}");
    assert_eq!(wire, b"{\"a\":1}\n");
    wire.extend_from_slice(b"more\n");
    assert_eq!(read_json(&wire).unwrap(), "{\"a\":1}\n");
    assert_eq!(read_json(b"no end").unwrap(), "no end");
    assert_eq!(read_json(b"").unwrap(), "");
    assert_eq!(read_json(b"\xff\n"), None);
}

#[test]
fn messages_have_a_limit() {
    let fits = vec![b'x'; MESSAGE_LIMIT - 1];
    assert_eq!(read_json(&write_json(&fits)).unwrap().len(), MESSAGE_LIMIT);
    let long = vec![b'x'; MESSAGE_LIMIT + 5];
    assert_eq!(read_json(&write_json(&long)).unwrap(), "x".repeat(MESSAGE_LIMIT));
}

#[test]
fn instances_are_shown() {
    assert_eq!(
        status_line(&sample(), &status(1, 20, false)),
        "http://u pid=42 sessions=1 requests=20 idle=7s active"
    );
    assert!(status_line(&sample(), &status(0, 0, false)).ends_with("idle=7s unused"));
    assert!(status_line(&sample(), &status(0, 0, true)).ends_with("idle=7s stopping"));
    assert_eq!(unavailable_line(&sample()), "http://u unavailable (not terminated)");
    assert_eq!(prune_line(true), "  stopping");
    assert_eq!(prune_line(false), "  became active; kept");
}

#[test]
fn pruning_spares_used_instances() {
    let unused = status(0, 0, false);
    assert_eq!(list_or_prune(true, false, Some(&unused)), Pruning::AskToStop);
    assert_eq!(list_or_prune(true, true, Some(&unused)), Pruning::Keep);
    assert_eq!(list_or_prune(false, false, Some(&unused)), Pruning::Keep);
    assert_eq!(list_or_prune(true, false, Some(&status(1, 0, false))), Pruning::Keep);
    assert_eq!(list_or_prune(true, false, Some(&status(0, 1, false))), Pruning::Keep);
    assert_eq!(list_or_prune(true, false, None), Pruning::SweepIfDead);
    assert_eq!(list_or_prune(true, true, None), Pruning::Keep);
    assert_eq!(list_or_prune(false, false, None), Pruning::Keep);
}

#[test]
fn stopping_is_told() {
    assert_eq!(stop_outcome(true, true), Stopping::Stops);
    assert_eq!(Stopping::Stops.message("http://u"), "stopping http://u");
    assert_eq!(stop_outcome(true, false), Stopping::InUse);
    assert_eq!(
        Stopping::InUse.message("http://u"),
        "proxy is in use; close its Codex sessions before stopping"
    );
    assert_eq!(stop_outcome(false, false), Stopping::NoProxy);
    assert_eq!(
        Stopping::NoProxy.message(""),
        "no registered proxy for this key and configuration"
    );
}
