use codex_rate_proxy::startup::{
    after_codex, begin, cleanup_failed_launch, ensure_proxy, Cleanup, Outcome, Sight, Stage,
    StartError, Step, PATIENCE,
};

fn run(sights: &[(Sight, u128)]) -> Vec<Step> {
    let (mut stage, first) = begin();
    let mut steps = vec![first];
    for (sight, now) in sights {
        let (next, step) = ensure_proxy(stage, *sight, *now);
        stage = next;
        steps.push(step);
    }
    steps
}

#[test]
fn uses_the_proxy_that_is_there() {
    let steps =
        run(&[(Sight::Record { own: false }, 0), (Sight::Answer { stopping: false }, 0)]);
    assert_eq!(steps, vec![Step::ReadRecord, Step::AskStatus, Step::Use { created: false }]);
}

#[test]
fn starts_one_under_the_lock() {
    let steps = run(&[
        (Sight::Record { own: false }, 0),
        (Sight::Answer { stopping: true }, 0),
        (Sight::LockHeld, 1),
        (Sight::Waited, 2),
        (Sight::LockTaken, 3),
        (Sight::Started, 4),
        (Sight::Running, 5),
        (Sight::NoRecord, 6),
        (Sight::Waited, 7),
        (Sight::Running, 8),
        (Sight::Record { own: false }, 9),
        (Sight::Waited, 10),
        (Sight::Running, 11),
        (Sight::Record { own: true }, 12),
        (Sight::Answer { stopping: false }, 13),
    ]);
    assert_eq!(
        steps,
        vec![
            Step::ReadRecord,
            Step::AskStatus,
            Step::TryLock,
            Step::Pause,
            Step::TryLock,
            Step::Start,
            Step::CheckChild,
            Step::ReadRecord,
            Step::Pause,
            Step::CheckChild,
            Step::ReadRecord,
            Step::Pause,
            Step::CheckChild,
            Step::ReadRecord,
            Step::AskStatus,
            Step::Use { created: true },
        ]
    );
}

#[test]
fn gives_up_in_the_end() {
    let steps = run(&[(Sight::NoRecord, 5), (Sight::LockHeld, 5 + PATIENCE)]);
    assert_eq!(steps[2], Step::Fail(StartError::Unresponsive));
    let steps = run(&[(Sight::NoRecord, 0), (Sight::LockTaken, 0), (Sight::NotTold, 0)]);
    assert_eq!(steps[3], Step::ReapAndFail(StartError::NotTold));
    let steps = run(&[
        (Sight::NoRecord, 0),
        (Sight::LockTaken, 0),
        (Sight::Started, 0),
        (Sight::Ended, 0),
    ]);
    assert_eq!(steps[4], Step::Fail(StartError::StartupFailed));
    assert_eq!(
        ensure_proxy(Stage::Confirming(9), Sight::NoAnswer, 9).1,
        Step::EndAndFail(StartError::TimedOut)
    );
    assert_eq!(ensure_proxy(Stage::Confirming(9), Sight::NoAnswer, 8).1, Step::Pause);
}

#[test]
fn start_errors_are_told() {
    assert_eq!(
        StartError::Unresponsive.message("", ""),
        "existing proxy is unresponsive or draining; try again later"
    );
    assert_eq!(StartError::NotTold.message("", ""), "could not initialize proxy");
    assert_eq!(
        StartError::StartupFailed.message("exit status: 1", "/d/proxy.log"),
        "proxy startup failed (exit status: 1); inspect /d/proxy.log"
    );
    assert_eq!(StartError::TimedOut.message("", ""), "proxy startup timed out");
}

#[test]
fn failed_launches_are_cleaned_up() {
    assert_eq!(after_codex(true, true), Cleanup::Nothing);
    assert_eq!(after_codex(false, false), Cleanup::Nothing);
    let step = after_codex(false, true);
    assert_eq!(step, Cleanup::TakeLock);
    let step = cleanup_failed_launch(step, Outcome::Done);
    assert_eq!(step, Cleanup::AskToStop);
    assert_eq!(cleanup_failed_launch(step, Outcome::InUse), Cleanup::Kept);
    assert_eq!(cleanup_failed_launch(step, Outcome::Failed), Cleanup::Unfinished);
    let step = cleanup_failed_launch(step, Outcome::Done);
    assert_eq!(step, Cleanup::AwaitEnd);
    assert_eq!(cleanup_failed_launch(step, Outcome::Failed), Cleanup::Unfinished);
    let step = cleanup_failed_launch(step, Outcome::Done);
    assert_eq!(step.message(), Some("Stopped unused proxy created by failed launch"));
    assert_eq!(
        Cleanup::Unfinished.message(),
        Some("Could not finish proxy cleanup; inspect codex-rate-proxy list/prune")
    );
    assert_eq!(Cleanup::Kept.message(), None);
}
