use codex_rate_proxy::control::{Bootstrap, Control, ControlError};
use codex_rate_proxy::identity::identity;
use codex_rate_proxy::ini::parse_ini;
use codex_rate_proxy::lifecycle::{
    bootstrap, instance_dir, is_stale, lease_draft, lease_path, leftovers,
    live_leases, publish_step, random_id, take_lease, BootstrapError, InstanceError, InstanceFile, LeaseStep,
    Managed, Probe, PublishStep,
};
use codex_rate_proxy::paths::{private_dir, NotADirectory, Place, PRIVATE_DIRECTORY};
use codex_rate_proxy::settings::{load_settings, Readings, Seconds, Settings};

const SECOND: u128 = 1_000_000_000;

fn settings() -> Settings {
    let unread = Readings {
        timeout: Seconds::Unreadable,
        min_interval: Seconds::Unreadable,
        backoff_base: Seconds::Unreadable,
        backoff_max: Seconds::Unreadable,
        backoff_jitter: Seconds::Unreadable,
        idle_timeout: Seconds::Unreadable,
    };
    load_settings(&parse_ini("[upstream]\nbase_url = http://llm/v1\n").unwrap(), &unread).unwrap()
}

fn boot(key: &str, identity: String) -> Bootstrap {
    Bootstrap { key: key.to_owned(), identity, token: "token".to_owned() }
}

fn managed() -> Managed {
    let id = identity("k", "http://llm/v1", b"/a.ini");
    bootstrap(boot("k", id), &settings(), b"/a.ini", Some(b"/h"), 0).unwrap()
}

#[test]
fn leases_are_removed_only_after_unlock() {
    assert_eq!(live_leases(&[Probe::Held]), 1);
    assert!(!is_stale(Probe::Held));
    assert_eq!(live_leases(&[Probe::Unlocked]), 0);
    assert!(is_stale(Probe::Unlocked));
}

#[test]
fn held_leases_are_counted() {
    let probes = [Probe::Held, Probe::Gone, Probe::Unlocked, Probe::Held];
    assert_eq!(live_leases(&probes), 2);
    assert_eq!(live_leases(&[]), 0);
    assert!(!is_stale(Probe::Gone));
}

#[test]
fn instances_have_their_places() {
    let id = "0123456789abcdef0123456789abcdef";
    let dir = instance_dir(Some(b"/h"), id).unwrap();
    assert_eq!(dir, b"/h/.local/state/codex-rate-proxy/0123456789abcdef01234567");
    assert_eq!(instance_dir(None, id), Err(InstanceError::NoHome));
    let same = instance_dir(Some(b"/h"), "0123456789abcdef01234567\u{e9}").unwrap();
    assert_eq!(same, dir);
    let wide = instance_dir(Some(b"/h"), &"\u{e9}".repeat(13)).unwrap();
    assert!(wide.ends_with("\u{e9}".repeat(12).as_bytes()));
    assert!(!wide.ends_with("\u{e9}".repeat(13).as_bytes()));
    assert_eq!(InstanceFile::Socket.path(b"/d"), b"/d/control.sock");
    assert_eq!(InstanceFile::Record.path(b"/d"), b"/d/record.json");
    assert_eq!(InstanceFile::RunLock.path(b"/d"), b"/d/run.lock");
    assert_eq!(InstanceFile::StartLock.path(b"/d"), b"/d/start.lock");
    assert_eq!(InstanceFile::Log.path(b"/d"), b"/d/proxy.log");
    assert_eq!(lease_draft(b"/d", "ab"), b"/d/lease-ab.tmp");
    assert_eq!(lease_path(b"/d", "ab"), b"/d/leases/ab");
    assert_eq!(lease_path(b"/d", "/ab"), b"/ab");
    assert_eq!(
        leftovers(b"/d"),
        vec![b"/d/record.json".to_vec(), b"/d/control.sock".to_vec(), b"/d/record.tmp".to_vec()]
    );
    assert_eq!(
        Place::Config.path(Some(b"/h/")).unwrap(),
        b"/h/.config/codex-rate-proxy/config.ini"
    );
    assert_eq!(Place::Share.path(Some(b"/h")).unwrap(), b"/h/.local/share/codex-rate-proxy");
    assert!(Place::State.path(None).is_err());
}

#[test]
fn sockets_need_short_paths() {
    let id = identity("k", "http://llm/v1", b"/a.ini");
    let below_home = "/.local/state/codex-rate-proxy/".len() + 24 + "/control.sock".len();
    let longest = vec![b'x'; 107 - below_home];
    let too_long = vec![b'x'; 108 - below_home];
    assert!(instance_dir(Some(&longest), &id).is_ok());
    assert_eq!(instance_dir(Some(&too_long), &id), Err(InstanceError::PathTooLong));
    let start = |home: &[u8]| {
        bootstrap(boot("k", id.clone()), &settings(), b"/a.ini", Some(home), 0).map(|_| ())
    };
    assert_eq!(start(&longest), Ok(()));
    assert_eq!(start(&too_long), Err(BootstrapError::PathTooLong));
    assert_eq!(
        BootstrapError::PathTooLong.message(),
        "HOME path is too long for a Unix control socket"
    );
    assert_eq!(InstanceError::NoHome.message(), "HOME is not set");
}

#[test]
fn directories_are_real_and_private() {
    assert_eq!(private_dir(true, false), Ok(PRIVATE_DIRECTORY));
    assert_eq!(private_dir(false, false), Err(NotADirectory));
    assert_eq!(private_dir(true, true), Err(NotADirectory));
    assert_eq!(PRIVATE_DIRECTORY, 0o700);
    assert_eq!(NotADirectory.message(), "runtime path must be a real directory");
}

#[test]
fn identifiers_are_hexadecimal() {
    let mut bytes = [0u8; 32];
    bytes[0] = 0xab;
    bytes[31] = 9;
    let id = random_id(&bytes);
    assert_eq!(id.len(), 64);
    assert!(id.starts_with("ab00") && id.ends_with("0009"));
}

#[test]
fn instances_check_what_they_are_told() {
    let id = identity("k", "http://llm/v1", b"/a.ini");
    let start = |key: &str, id: String, home: Option<&[u8]>| {
        bootstrap(boot(key, id), &settings(), b"/a.ini", home, 0).map(|_| ())
    };
    assert_eq!(start("k", id.clone(), Some(b"/h")), Ok(()));
    assert_eq!(start("", id.clone(), Some(b"/h")), Err(BootstrapError::InvalidKey));
    assert_eq!(start("k", "0".repeat(64), Some(b"/h")), Err(BootstrapError::ConfigurationChanged));
    assert_eq!(start("k", id, None), Err(BootstrapError::NoHome));
    assert_eq!(
        BootstrapError::ConfigurationChanged.message(),
        "configuration changed during startup; retry launch"
    );
    assert_eq!(BootstrapError::AlreadyRunning.message(), "instance already running");
}

#[test]
fn instances_tell_of_themselves() {
    let managed = managed();
    let record = managed.publish("http://u".to_owned(), 7);
    assert_eq!(record.protocol, 1);
    assert_eq!(record.identity, identity("k", "http://llm/v1", b"/a.ini"));
    assert_eq!(record.token, "token");
    assert_eq!(record.url, "http://u");
    assert_eq!(record.pid, 7);
    assert_eq!(managed.served_key(), "k");
    assert!(!managed.stops());
    assert!(managed.directory().starts_with(b"/h/.local/state/codex-rate-proxy/"));
    assert_eq!(managed.cleanup(), leftovers(managed.directory()));
}

#[test]
fn strangers_get_no_answer() {
    let managed = managed();
    let ask = |identity: &str, token: &str| {
        managed.authenticate(&Control {
            identity: identity.to_owned(),
            token: token.to_owned(),
            operation: "status".to_owned(),
        })
    };
    let id = identity("k", "http://llm/v1", b"/a.ini");
    assert_eq!(ask(&id, "token"), Ok("status".to_owned()));
    assert_eq!(ask(&id, "other"), Err(ControlError::AuthenticationFailed));
    assert_eq!(ask("other", "token"), Err(ControlError::AuthenticationFailed));
}

#[test]
fn instances_in_use_do_not_stop() {
    let mut managed = managed();
    let activity = managed.activity(SECOND).unwrap();
    assert_eq!(managed.requests(), 1);
    let status = managed.status("stop", 0, 2 * SECOND, None).unwrap();
    assert!(!status.stopped && !status.stopping);
    assert_eq!(status.requests, 1);
    managed.release(activity, 3 * SECOND);
    assert_eq!(managed.requests(), 0);
    assert!(!managed.status("prune", 1, 4 * SECOND, None).unwrap().stopped);
    let status = managed.status("stop", 0, 9 * SECOND, None).unwrap();
    assert!(status.stopped && status.stopping && managed.stops());
    assert_eq!(status.idle_seconds, 5);
    assert!(managed.activity(10 * SECOND).is_none());
    assert_eq!(managed.requests(), 0);
    let again = managed.status("status", 0, 10 * SECOND, None).unwrap();
    assert!(!again.stopped && again.stopping);
}

#[test]
fn idle_instances_stop_by_themselves() {
    let mut managed = managed();
    assert!(!managed.watchdog(Some(0), 9 * SECOND, 10 * SECOND));
    assert!(!managed.watchdog(None, 100 * SECOND, 10 * SECOND));
    assert!(!managed.watchdog(Some(1), 100 * SECOND, 10 * SECOND));
    assert!(!managed.watchdog(Some(0), 109 * SECOND, 10 * SECOND));
    assert!(managed.watchdog(Some(0), 110 * SECOND, 10 * SECOND));
    assert!(managed.stops());
}

#[test]
fn asking_does_not_stop() {
    let mut managed = managed();
    let status = managed.status("status", 0, 5 * SECOND, None).unwrap();
    assert!(!status.stopped && !status.stopping);
    assert!(!managed.status("auto", 0, 5 * SECOND, None).unwrap().stopped);
    assert_eq!(
        managed.status("dance", 0, 5 * SECOND, None).unwrap_err(),
        ControlError::UnknownOperation
    );
    assert!(!managed.stops());
}

#[test]
fn leases_are_locked_before_they_are_seen() {
    let mut step = LeaseStep::Create;
    let mut steps = Vec::new();
    while step != LeaseStep::Held {
        assert_eq!(take_lease(step, false), LeaseStep::Failed);
        steps.push(step);
        step = take_lease(step, true);
    }
    assert_eq!(steps, vec![LeaseStep::Create, LeaseStep::Lock, LeaseStep::Reveal]);
    assert_eq!(take_lease(LeaseStep::Failed, true), LeaseStep::Failed);
}

#[test]
fn instances_are_ready_before_they_are_found() {
    let mut step = PublishStep::ClearSocket;
    let mut steps = Vec::new();
    while step != PublishStep::Serve {
        assert_eq!(publish_step(step, false), PublishStep::Failed);
        steps.push(step);
        step = publish_step(step, true);
    }
    assert_eq!(
        steps,
        vec![
            PublishStep::ClearSocket,
            PublishStep::Bind,
            PublishStep::Protect,
            PublishStep::WriteDraft,
            PublishStep::SyncDraft,
            PublishStep::Reveal,
        ]
    );
    assert_eq!(publish_step(PublishStep::Failed, true), PublishStep::Failed);
}
