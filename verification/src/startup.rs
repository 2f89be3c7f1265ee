//! How a launcher comes by a proxy: it uses the one that is there or starts one,
//! and stops what it started in vain. Times are counted in nanoseconds.

use vstd::prelude::*;
use vstd::string::*;

use crate::pacing::LONGEST;

verus! {

/// How long a launcher waits for an old proxy to go, or for a new one to come:
/// fifteen seconds.
pub const PATIENCE: u128 = 15000000000;

/// How long a launcher waits before it looks again: a tenth of a second.
pub const PAUSE: u128 = 100000000;

/// How far a launcher has come.
#[derive(Clone, Copy, Debug, PartialEq, Eq, Structural)]
pub enum Stage {
    /// It looks for the record of a proxy.
    Looking,
    /// It asked the proxy that it found.
    Probing,
    /// It tries to take the lock of the proxy, until a time.
    Locking(u128),
    /// It waits for that lock.
    LockPause(u128),
    /// It starts a proxy.
    Starting,
    /// It looks whether the proxy that it started still runs, until a time.
    Watching(u128),
    /// It looks for the record of the proxy that it started.
    Awaiting(u128),
    /// It asked the proxy that it started.
    Confirming(u128),
    /// It waits for that proxy.
    WatchPause(u128),
    /// It is done.
    Done,
}

/// What a launcher sees.
#[derive(Clone, Copy, Debug, PartialEq, Eq, Structural)]
pub enum Sight {
    /// A record of the proxy; the flag says that it is the one that this
    /// launcher started.
    Record {
        /// Whether this launcher started it.
        own: bool,
    },
    /// No record of the proxy.
    NoRecord,
    /// An answer of the proxy.
    Answer {
        /// Whether the proxy is on its way out.
        stopping: bool,
    },
    /// No answer of the proxy.
    NoAnswer,
    /// It holds the lock of the proxy.
    LockTaken,
    /// Someone else holds it.
    LockHeld,
    /// The proxy was started and told what to do.
    Started,
    /// The proxy was started, but could not be told what to do.
    NotTold,
    /// The proxy that it started runs.
    Running,
    /// The proxy that it started has ended.
    Ended,
    /// The wait is over.
    Waited,
}

/// Why a launcher gets no proxy.
#[derive(Clone, Copy, Debug, PartialEq, Eq, Structural)]
pub enum StartError {
    /// The old one does not answer and does not go.
    Unresponsive,
    /// The new one could not be told what to do.
    NotTold,
    /// The new one has ended.
    StartupFailed,
    /// The new one does not come.
    TimedOut,
}

impl StartError {
    /// What the error says, given how the new one ended and where its log is.
    pub open spec fn text(self, exit: Seq<char>, log: Seq<char>) -> Seq<char> {
        match self {
            StartError::Unresponsive =>
                "existing proxy is unresponsive or draining; try again later"@,
            StartError::NotTold => "could not initialize proxy"@,
            StartError::StartupFailed => "proxy startup failed ("@ + exit + "); inspect "@ + log,
            StartError::TimedOut => "proxy startup timed out"@,
        }
    }

    /// What the error says, given how the new one ended and where its log is.
    pub fn message(&self, exit: &str, log: &str) -> (r: String)
        ensures
            r@ == self.text(exit@, log@),
    {
        match self {
            StartError::Unresponsive =>
                "existing proxy is unresponsive or draining; try again later".to_owned(),
            StartError::NotTold => "could not initialize proxy".to_owned(),
            StartError::StartupFailed => {
                let mut r = "proxy startup failed (".to_owned();
                r.append(exit);
                r.append("); inspect ");
                r.append(log);
                r
            },
            StartError::TimedOut => "proxy startup timed out".to_owned(),
        }
    }
}

/// What a launcher does.
#[derive(Clone, Copy, Debug, PartialEq, Eq, Structural)]
pub enum Step {
    /// Look for the record of the proxy.
    ReadRecord,
    /// Ask the proxy how it is.
    AskStatus,
    /// Try to take the lock of the proxy.
    TryLock,
    /// Wait a little.
    Pause,
    /// Let the lock go, start a proxy and tell it what to do.
    Start,
    /// Look whether the proxy that it started still runs.
    CheckChild,
    /// Use the proxy; the flag says that this launcher started it.
    Use {
        /// Whether this launcher started it.
        created: bool,
    },
    /// End the proxy that it started, and give up.
    EndAndFail(StartError),
    /// Wait for the proxy that it started to end, and give up.
    ReapAndFail(StartError),
    /// Give up.
    Fail(StartError),
}

/// What a launcher does first.
pub fn begin() -> (r: (Stage, Step))
    ensures
        r == (Stage::Looking, Step::ReadRecord),
{
    (Stage::Looking, Step::ReadRecord)
}

/// Whether a launcher can see something at a stage.
pub open spec fn is_due(stage: Stage, sight: Sight) -> bool {
    match stage {
        Stage::Looking | Stage::Awaiting(_) => sight is Record || sight is NoRecord,
        Stage::Probing | Stage::Confirming(_) => sight is Answer || sight is NoAnswer,
        Stage::Locking(_) => sight is LockTaken || sight is LockHeld,
        Stage::Starting => sight is Started || sight is NotTold,
        Stage::Watching(_) => sight is Running || sight is Ended,
        Stage::LockPause(_) | Stage::WatchPause(_) => sight is Waited,
        Stage::Done => false,
    }
}

/// What a launcher does when it sees something that is due. Anything else
/// changes nothing.
pub open spec fn launcher_step(stage: Stage, sight: Sight, now: nat) -> (Stage, Step) {
    let until = (now + PATIENCE) as u128;
    match (stage, sight) {
        (Stage::Looking, Sight::Record { .. }) => (Stage::Probing, Step::AskStatus),
        (Stage::Looking, Sight::NoRecord) => (Stage::Locking(until), Step::TryLock),
        (Stage::Probing, Sight::Answer { stopping: false }) => (
            Stage::Done,
            Step::Use { created: false },
        ),
        (Stage::Probing, Sight::Answer { stopping: true }) => (
            Stage::Locking(until),
            Step::TryLock,
        ),
        (Stage::Probing, Sight::NoAnswer) => (Stage::Locking(until), Step::TryLock),
        (Stage::Locking(_), Sight::LockTaken) => (Stage::Starting, Step::Start),
        (Stage::Locking(deadline), Sight::LockHeld) => if now >= deadline {
            (Stage::Done, Step::Fail(StartError::Unresponsive))
        } else {
            (Stage::LockPause(deadline), Step::Pause)
        },
        (Stage::LockPause(deadline), Sight::Waited) => (Stage::Locking(deadline), Step::TryLock),
        (Stage::Starting, Sight::Started) => (Stage::Watching(until), Step::CheckChild),
        (Stage::Starting, Sight::NotTold) => (Stage::Done, Step::ReapAndFail(StartError::NotTold)),
        (Stage::Watching(_), Sight::Ended) => (Stage::Done, Step::Fail(StartError::StartupFailed)),
        (Stage::Watching(deadline), Sight::Running) => (
            Stage::Awaiting(deadline),
            Step::ReadRecord,
        ),
        (Stage::Awaiting(deadline), Sight::Record { own: true }) => (
            Stage::Confirming(deadline),
            Step::AskStatus,
        ),
        (Stage::Awaiting(deadline), Sight::Record { own: false }) => watch_on(deadline, now),
        (Stage::Awaiting(deadline), Sight::NoRecord) => watch_on(deadline, now),
        (Stage::Confirming(_), Sight::Answer { stopping: false }) => (
            Stage::Done,
            Step::Use { created: true },
        ),
        (Stage::Confirming(deadline), Sight::Answer { stopping: true }) => watch_on(deadline, now),
        (Stage::Confirming(deadline), Sight::NoAnswer) => watch_on(deadline, now),
        (Stage::WatchPause(deadline), Sight::Waited) => (
            Stage::Watching(deadline),
            Step::CheckChild,
        ),
        _ => (stage, Step::Pause),
    }
}

/// What a launcher does while the proxy that it started is not ready.
pub open spec fn watch_on(deadline: u128, now: nat) -> (Stage, Step) {
    if now >= deadline {
        (Stage::Done, Step::EndAndFail(StartError::TimedOut))
    } else {
        (Stage::WatchPause(deadline), Step::Pause)
    }
}

fn keep_watching(deadline: u128, now: u128) -> (r: (Stage, Step))
    ensures
        r == watch_on(deadline, now as nat),
{
    if now >= deadline {
        (Stage::Done, Step::EndAndFail(StartError::TimedOut))
    } else {
        (Stage::WatchPause(deadline), Step::Pause)
    }
}

/// Decides what a launcher does when it sees something.
pub fn ensure_proxy(stage: Stage, sight: Sight, now: u128) -> (r: (Stage, Step))
    requires
        now <= LONGEST,
        is_due(stage, sight),
    ensures
        r == launcher_step(stage, sight, now as nat),
{
    let until: u128 = now + PATIENCE;
    match (stage, sight) {
        (Stage::Looking, Sight::Record { .. }) => (Stage::Probing, Step::AskStatus),
        (Stage::Looking, Sight::NoRecord) => (Stage::Locking(until), Step::TryLock),
        (Stage::Probing, Sight::Answer { stopping }) => {
            if stopping {
                (Stage::Locking(until), Step::TryLock)
            } else {
                (Stage::Done, Step::Use { created: false })
            }
        },
        (Stage::Probing, Sight::NoAnswer) => (Stage::Locking(until), Step::TryLock),
        (Stage::Locking(_), Sight::LockTaken) => (Stage::Starting, Step::Start),
        (Stage::Locking(deadline), Sight::LockHeld) => {
            if now >= deadline {
                (Stage::Done, Step::Fail(StartError::Unresponsive))
            } else {
                (Stage::LockPause(deadline), Step::Pause)
            }
        },
        (Stage::LockPause(deadline), Sight::Waited) => (Stage::Locking(deadline), Step::TryLock),
        (Stage::Starting, Sight::Started) => (Stage::Watching(until), Step::CheckChild),
        (Stage::Starting, Sight::NotTold) => (Stage::Done, Step::ReapAndFail(StartError::NotTold)),
        (Stage::Watching(_), Sight::Ended) => (Stage::Done, Step::Fail(StartError::StartupFailed)),
        (Stage::Watching(deadline), Sight::Running) => (
            Stage::Awaiting(deadline),
            Step::ReadRecord,
        ),
        (Stage::Awaiting(deadline), Sight::Record { own }) => {
            if own {
                (Stage::Confirming(deadline), Step::AskStatus)
            } else {
                keep_watching(deadline, now)
            }
        },
        (Stage::Awaiting(deadline), Sight::NoRecord) => keep_watching(deadline, now),
        (Stage::Confirming(deadline), Sight::Answer { stopping }) => {
            if stopping {
                keep_watching(deadline, now)
            } else {
                (Stage::Done, Step::Use { created: true })
            }
        },
        (Stage::Confirming(deadline), Sight::NoAnswer) => keep_watching(deadline, now),
        (Stage::WatchPause(deadline), Sight::Waited) => (
            Stage::Watching(deadline),
            Step::CheckChild,
        ),
        _ => (stage, Step::Pause),
    }
}

/// A proxy is started only by a launcher that held the lock which a running
/// proxy holds, and used only after it answered that it goes on.
pub proof fn law_proxies_are_not_doubled(stage: Stage, sight: Sight, now: nat)
    requires
        is_due(stage, sight),
    ensures
        launcher_step(stage, sight, now).1 == Step::Start ==> sight == Sight::LockTaken,
        launcher_step(stage, sight, now).1 is Use ==> sight == (Sight::Answer { stopping: false }),
        launcher_step(stage, sight, now).1 == (Step::Use { created: true }) ==> stage is Confirming,
        launcher_step(stage, sight, now).0 is Confirming ==> sight == (Sight::Record { own: true }),
{
}

/// A proxy that is there and goes on is used, and no other is started.
pub proof fn law_running_proxies_are_used(own: bool, found: nat, answered: nat)
    ensures
        ({
            let (stage, step) = launcher_step(Stage::Looking, Sight::Record { own }, found);
            step == Step::AskStatus && launcher_step(
                stage,
                Sight::Answer { stopping: false },
                answered,
            ) == (Stage::Done, Step::Use { created: false })
        }),
{
}

/// A launcher that waits longer than it has patience for gives up.
pub proof fn law_waits_end(deadline: u128, now: nat)
    requires
        now >= deadline,
    ensures
        launcher_step(Stage::Locking(deadline), Sight::LockHeld, now).1 == Step::Fail(
            StartError::Unresponsive,
        ),
        launcher_step(Stage::Awaiting(deadline), Sight::NoRecord, now).1 == Step::EndAndFail(
            StartError::TimedOut,
        ),
        launcher_step(Stage::Confirming(deadline), Sight::NoAnswer, now).1 == Step::EndAndFail(
            StartError::TimedOut,
        ),
{
}

/// How often a launcher starts a proxy in the course of what it sees, each at a
/// time.
pub open spec fn starts(stage: Stage, sights: Seq<(Sight, nat)>) -> nat
    decreases sights.len(),
{
    if sights.len() == 0 {
        0
    } else {
        let (after, step) = launcher_step(stage, sights[0].0, sights[0].1);
        let here: nat = if step == Step::Start {
            1
        } else {
            0
        };
        here + starts(after, sights.drop_first())
    }
}

spec fn may_start(stage: Stage) -> bool {
    stage is Looking || stage is Probing || stage is Locking || stage is LockPause
}

proof fn lemma_starts(stage: Stage, sights: Seq<(Sight, nat)>)
    ensures
        starts(stage, sights) <= 1,
        !may_start(stage) ==> starts(stage, sights) == 0,
    decreases sights.len(),
{
    if sights.len() > 0 {
        let (after, step) = launcher_step(stage, sights[0].0, sights[0].1);
        lemma_starts(after, sights.drop_first());
    }
}

/// Whatever a launcher sees, it starts one proxy at most.
pub proof fn law_one_start(sights: Seq<(Sight, nat)>)
    ensures
        starts(Stage::Looking, sights) <= 1,
{
    lemma_starts(Stage::Looking, sights);
}

/// What is done after Codex failed.
#[derive(Clone, Copy, Debug, PartialEq, Eq, Structural)]
pub enum Cleanup {
    /// Nothing: the proxy was there before.
    Nothing,
    /// Take the lock of the launchers.
    TakeLock,
    /// Ask the proxy to stop, if it is not in use.
    AskToStop,
    /// Wait five seconds for it to end.
    AwaitEnd,
    /// Say that it has stopped.
    Stopped,
    /// It is in use, and stays.
    Kept,
    /// Say that it is not known what became of it.
    Unfinished,
}

impl Cleanup {
    /// What the user is told, if anything.
    pub open spec fn text(self) -> Option<Seq<char>> {
        match self {
            Cleanup::Stopped => Some("Stopped unused proxy created by failed launch"@),
            Cleanup::Unfinished => Some(
                "Could not finish proxy cleanup; inspect codex-rate-proxy list/prune"@,
            ),
            _ => None,
        }
    }

    /// What the user is told, if anything.
    pub fn message(&self) -> (r: Option<&'static str>)
        ensures
            match r {
                Some(text) => self.text() == Some(text@),
                None => self.text() is None,
            },
    {
        match self {
            Cleanup::Stopped => Some("Stopped unused proxy created by failed launch"),
            Cleanup::Unfinished => Some(
                "Could not finish proxy cleanup; inspect codex-rate-proxy list/prune",
            ),
            _ => None,
        }
    }
}

/// What comes of a step of the cleanup.
#[derive(Clone, Copy, Debug, PartialEq, Eq, Structural)]
pub enum Outcome {
    /// It could not be done.
    Failed,
    /// It was done.
    Done,
    /// The proxy answered that it is in use.
    InUse,
}

/// What is done first after Codex ended: only a launcher that started the proxy
/// cleans up, and only after Codex failed.
pub fn after_codex(succeeded: bool, created: bool) -> (r: Cleanup)
    ensures
        r == (if !succeeded && created {
            Cleanup::TakeLock
        } else {
            Cleanup::Nothing
        }),
{
    if !succeeded && created {
        Cleanup::TakeLock
    } else {
        Cleanup::Nothing
    }
}

/// What is done next after Codex failed.
pub open spec fn cleanup_step(step: Cleanup, outcome: Outcome) -> Cleanup {
    match (step, outcome) {
        (Cleanup::TakeLock, Outcome::Done) => Cleanup::AskToStop,
        (Cleanup::AskToStop, Outcome::Done) => Cleanup::AwaitEnd,
        (Cleanup::AskToStop, Outcome::InUse) => Cleanup::Kept,
        (Cleanup::AwaitEnd, Outcome::Done) => Cleanup::Stopped,
        (Cleanup::Nothing, _) => Cleanup::Nothing,
        (Cleanup::Stopped, _) => Cleanup::Stopped,
        (Cleanup::Kept, _) => Cleanup::Kept,
        _ => Cleanup::Unfinished,
    }
}

/// Decides what is done next after Codex failed.
pub fn cleanup_failed_launch(step: Cleanup, outcome: Outcome) -> (r: Cleanup)
    ensures
        r == cleanup_step(step, outcome),
{
    match (step, outcome) {
        (Cleanup::TakeLock, Outcome::Done) => Cleanup::AskToStop,
        (Cleanup::AskToStop, Outcome::Done) => Cleanup::AwaitEnd,
        (Cleanup::AskToStop, Outcome::InUse) => Cleanup::Kept,
        (Cleanup::AwaitEnd, Outcome::Done) => Cleanup::Stopped,
        (Cleanup::Nothing, _) => Cleanup::Nothing,
        (Cleanup::Stopped, _) => Cleanup::Stopped,
        (Cleanup::Kept, _) => Cleanup::Kept,
        _ => Cleanup::Unfinished,
    }
}

/// It is told that a proxy has stopped only after it was asked to, answered that
/// it does, and ended.
pub proof fn law_cleanup_is_honest(step: Cleanup, outcome: Outcome)
    ensures
        cleanup_step(step, outcome) == Cleanup::Stopped ==> step == Cleanup::Stopped || (step
            == Cleanup::AwaitEnd && outcome == Outcome::Done),
        cleanup_step(step, outcome) == Cleanup::AwaitEnd ==> step == Cleanup::AskToStop && outcome
            == Outcome::Done,
{
}

/// A launcher waits fifteen seconds for the lock and then fifteen for the proxy
/// that it started, each from when it begins to wait.
pub proof fn law_launchers_wait_fifteen_seconds(now: nat)
    requires
        now + 15000000000 <= u128::MAX,
    ensures
        ({
            let until = (now + 15000000000) as u128;
            &&& launcher_step(Stage::Looking, Sight::NoRecord, now) == (
                Stage::Locking(until),
                Step::TryLock,
            )
            &&& launcher_step(Stage::Probing, Sight::NoAnswer, now) == (
                Stage::Locking(until),
                Step::TryLock,
            )
            &&& launcher_step(Stage::Probing, Sight::Answer { stopping: true }, now) == (
                Stage::Locking(until),
                Step::TryLock,
            )
            &&& launcher_step(Stage::Starting, Sight::Started, now) == (
                Stage::Watching(until),
                Step::CheckChild,
            )
            &&& PAUSE == 100000000
        }),
{
}

/// A launcher does not give up before its time: until then it looks again and
/// again, and the time does not move.
pub proof fn law_launchers_are_patient(deadline: u128, now: nat, own: bool)
    requires
        now < deadline,
    ensures
        launcher_step(Stage::Locking(deadline), Sight::LockHeld, now) == (
            Stage::LockPause(deadline),
            Step::Pause,
        ),
        launcher_step(Stage::LockPause(deadline), Sight::Waited, now) == (
            Stage::Locking(deadline),
            Step::TryLock,
        ),
        launcher_step(Stage::Awaiting(deadline), Sight::NoRecord, now) == (
            Stage::WatchPause(deadline),
            Step::Pause,
        ),
        launcher_step(Stage::Awaiting(deadline), Sight::Record { own: false }, now) == (
            Stage::WatchPause(deadline),
            Step::Pause,
        ),
        launcher_step(Stage::Confirming(deadline), Sight::NoAnswer, now) == (
            Stage::WatchPause(deadline),
            Step::Pause,
        ),
        launcher_step(Stage::Confirming(deadline), Sight::Answer { stopping: true }, now) == (
            Stage::WatchPause(deadline),
            Step::Pause,
        ),
{
}

/// Whatever a launcher waits for, it looks again after each pause, for the child
/// first and then for its record, under the same deadline.
pub proof fn law_launchers_look_again(deadline: u128, now: nat)
    ensures
        launcher_step(Stage::WatchPause(deadline), Sight::Waited, now) == (
            Stage::Watching(deadline),
            Step::CheckChild,
        ),
        launcher_step(Stage::LockPause(deadline), Sight::Waited, now) == (
            Stage::Locking(deadline),
            Step::TryLock,
        ),
        launcher_step(Stage::Watching(deadline), Sight::Running, now) == (
            Stage::Awaiting(deadline),
            Step::ReadRecord,
        ),
        launcher_step(Stage::Awaiting(deadline), Sight::Record { own: true }, now) == (
            Stage::Confirming(deadline),
            Step::AskStatus,
        ),
        launcher_step(Stage::Confirming(deadline), Sight::Answer { stopping: false }, now) == (
            Stage::Done,
            Step::Use { created: true },
        ),
        launcher_step(Stage::Locking(deadline), Sight::LockTaken, now) == (
            Stage::Starting,
            Step::Start,
        ),
{
}

/// Every wait that is over its time ends, whatever is seen but success, and a proxy
/// that was started in vain is ended.
pub proof fn law_launchers_give_up_in_the_end(deadline: u128, now: nat)
    requires
        now >= deadline,
    ensures
        launcher_step(Stage::Locking(deadline), Sight::LockHeld, now) == (
            Stage::Done,
            Step::Fail(StartError::Unresponsive),
        ),
        launcher_step(Stage::Awaiting(deadline), Sight::NoRecord, now) == (
            Stage::Done,
            Step::EndAndFail(StartError::TimedOut),
        ),
        launcher_step(Stage::Awaiting(deadline), Sight::Record { own: false }, now) == (
            Stage::Done,
            Step::EndAndFail(StartError::TimedOut),
        ),
        launcher_step(Stage::Confirming(deadline), Sight::NoAnswer, now) == (
            Stage::Done,
            Step::EndAndFail(StartError::TimedOut),
        ),
        launcher_step(Stage::Confirming(deadline), Sight::Answer { stopping: true }, now) == (
            Stage::Done,
            Step::EndAndFail(StartError::TimedOut),
        ),
{
}

/// A proxy that ended at its start, or could not be told what to do, is given up at
/// once, whatever time is left.
pub proof fn law_failed_starts_are_given_up(deadline: u128, now: nat)
    ensures
        launcher_step(Stage::Watching(deadline), Sight::Ended, now) == (
            Stage::Done,
            Step::Fail(StartError::StartupFailed),
        ),
        launcher_step(Stage::Starting, Sight::NotTold, now) == (
            Stage::Done,
            Step::ReapAndFail(StartError::NotTold),
        ),
{
}

/// What is due at each stage is what the step that led there asks to see.
pub proof fn law_launchers_see_what_they_look_for(deadline: u128, sight: Sight)
    ensures
        is_due(Stage::Looking, sight) <==> sight is Record || sight is NoRecord,
        is_due(Stage::Awaiting(deadline), sight) <==> sight is Record || sight is NoRecord,
        is_due(Stage::Probing, sight) <==> sight is Answer || sight is NoAnswer,
        is_due(Stage::Confirming(deadline), sight) <==> sight is Answer || sight is NoAnswer,
        is_due(Stage::Locking(deadline), sight) <==> sight is LockTaken || sight is LockHeld,
        is_due(Stage::LockPause(deadline), sight) <==> sight is Waited,
        is_due(Stage::WatchPause(deadline), sight) <==> sight is Waited,
        is_due(Stage::Starting, sight) <==> sight is Started || sight is NotTold,
        is_due(Stage::Watching(deadline), sight) <==> sight is Running || sight is Ended,
        !is_due(Stage::Done, sight),
{
}

/// A proxy that is asked to stop after Codex failed is waited for and then said to
/// have stopped; one in use is kept in silence; and where any step cannot be done,
/// that is said. What has been settled stays so.
pub proof fn law_cleanup_comes_to_an_end(outcome: Outcome)
    ensures
        cleanup_step(Cleanup::TakeLock, Outcome::Done) == Cleanup::AskToStop,
        cleanup_step(Cleanup::AskToStop, Outcome::Done) == Cleanup::AwaitEnd,
        cleanup_step(Cleanup::AskToStop, Outcome::InUse) == Cleanup::Kept,
        cleanup_step(Cleanup::AwaitEnd, Outcome::Done) == Cleanup::Stopped,
        cleanup_step(Cleanup::TakeLock, Outcome::Failed) == Cleanup::Unfinished,
        cleanup_step(Cleanup::TakeLock, Outcome::InUse) == Cleanup::Unfinished,
        cleanup_step(Cleanup::AwaitEnd, Outcome::InUse) == Cleanup::Unfinished,
        cleanup_step(Cleanup::AskToStop, Outcome::Failed) == Cleanup::Unfinished,
        cleanup_step(Cleanup::AwaitEnd, Outcome::Failed) == Cleanup::Unfinished,
        cleanup_step(Cleanup::Nothing, outcome) == Cleanup::Nothing,
        cleanup_step(Cleanup::Stopped, outcome) == Cleanup::Stopped,
        cleanup_step(Cleanup::Kept, outcome) == Cleanup::Kept,
        cleanup_step(Cleanup::Unfinished, outcome) == Cleanup::Unfinished,
        Cleanup::Kept.text() is None,
        Cleanup::Nothing.text() is None,
        Cleanup::Stopped.text() is Some,
        Cleanup::Unfinished.text() is Some,
{
}

/// What a user is told of a proxy that failed to start says how it ended and where
/// its log is.
pub proof fn law_failed_starts_name_the_log(exit: Seq<char>, log: Seq<char>)
    ensures
        StartError::StartupFailed.text(exit, log) == "proxy startup failed ("@ + exit
            + "); inspect "@ + log,
        log.is_suffix_of(StartError::StartupFailed.text(exit, log)),
{
    let text = StartError::StartupFailed.text(exit, log);
    assert(text.subrange(text.len() - log.len(), text.len() as int) =~= log);
}

} // verus!
