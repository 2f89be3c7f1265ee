//! Proxy instances: where they live, when they start and when they stop. Times
//! are counted in nanoseconds.

use vstd::prelude::*;
use vstd::slice::*;
use vstd::string::*;
use vstd::utf8::{encode_utf8, is_char_boundary};

use crate::control::{
    Bootstrap, Control, ControlError, Record, RecordModel, Status, StatusModel, PROTOCOL,
};
use crate::digits::{hex, hex_of};
use crate::identity::{identity, identity_of};
use crate::keys::{is_api_key, validate_key, InvalidKey};
use crate::pacing::{LONGEST, SECOND};
use crate::paths::{join, join_bytes, joined_path, NoHome, Place};
use crate::settings::Settings;
use crate::text::{lemma_ascii_is_cut_anywhere, same_text};

verus! {

/// Writes random bytes as an identifier: two small hexadecimal digits for each.
pub fn random_id(bytes: &[u8; 32]) -> (r: String)
    ensures
        r@ == hex_of(bytes@),
        r@.len() == 64,
{
    hex(bytes)
}

/// What an instance keeps in its directory.
#[derive(Clone, Copy, Debug, PartialEq, Eq, Structural)]
pub enum InstanceFile {
    /// What it tells of itself.
    Record,
    /// The same, while it is being written.
    RecordDraft,
    /// Where launchers talk to it.
    Socket,
    /// Held as long as it runs.
    RunLock,
    /// Held by a launcher that starts or stops it.
    StartLock,
    /// What it logs.
    Log,
    /// The directory of the launchers that use it.
    Leases,
}

impl InstanceFile {
    /// The name.
    pub open spec fn name_text(self) -> Seq<char> {
        match self {
            InstanceFile::Record => "record.json"@,
            InstanceFile::RecordDraft => "record.tmp"@,
            InstanceFile::Socket => "control.sock"@,
            InstanceFile::RunLock => "run.lock"@,
            InstanceFile::StartLock => "start.lock"@,
            InstanceFile::Log => "proxy.log"@,
            InstanceFile::Leases => "leases"@,
        }
    }

    /// The path, given the directory of the instance.
    pub open spec fn path_of(self, directory: Seq<u8>) -> Seq<u8> {
        joined_path(directory, encode_utf8(self.name_text()))
    }

    /// The path, given the directory of the instance.
    pub fn path(&self, directory: &[u8]) -> (r: Vec<u8>)
        ensures
            r@ == self.path_of(directory@),
    {
        match self {
            InstanceFile::Record => join(directory, "record.json"),
            InstanceFile::RecordDraft => join(directory, "record.tmp"),
            InstanceFile::Socket => join(directory, "control.sock"),
            InstanceFile::RunLock => join(directory, "run.lock"),
            InstanceFile::StartLock => join(directory, "start.lock"),
            InstanceFile::Log => join(directory, "proxy.log"),
            InstanceFile::Leases => join(directory, "leases"),
        }
    }
}

/// The directory of an instance: it is called by the first 24 bytes of its name.
pub open spec fn instance_directory(home: Seq<u8>, id: Seq<char>) -> Seq<u8> {
    joined_path(Place::State.path_of(home), encode_utf8(id).take(24))
}

/// The path of a socket has to be shorter than this.
pub const SOCKET_LIMIT: usize = 108;

/// Whether the socket of an instance has a path that the system takes.
pub open spec fn socket_fits(directory: Seq<u8>) -> bool {
    InstanceFile::Socket.path_of(directory).len() < SOCKET_LIMIT
}

/// Why an instance has no directory.
#[derive(Clone, Copy, Debug, PartialEq, Eq, Structural)]
pub enum InstanceError {
    /// The home directory is not known.
    NoHome,
    /// The home directory is too far down for a socket.
    PathTooLong,
}

impl InstanceError {
    /// What the error says.
    pub open spec fn text(self) -> Seq<char> {
        match self {
            InstanceError::NoHome => NoHome.text(),
            InstanceError::PathTooLong => "HOME path is too long for a Unix control socket"@,
        }
    }

    /// What the error says.
    pub fn message(&self) -> (r: String)
        ensures
            r@ == self.text(),
    {
        match self {
            InstanceError::NoHome => NoHome.message(),
            InstanceError::PathTooLong => "HOME path is too long for a Unix control socket"
                .to_owned(),
        }
    }
}

/// Names the directory of an instance, unless its socket would have too long a
/// path.
pub fn instance_dir(home: Option<&[u8]>, id: &str) -> (r: Result<Vec<u8>, InstanceError>)
    requires
        encode_utf8(id@).len() >= 24,
        is_char_boundary(encode_utf8(id@), 24),
    ensures
        match r {
            Ok(path) => home matches Some(h) && path@ == instance_directory(h@, id@) && socket_fits(
                path@,
            ),
            Err(InstanceError::NoHome) => home is None,
            Err(InstanceError::PathTooLong) => home matches Some(h) && !socket_fits(
                instance_directory(h@, id@),
            ),
        },
{
    let root = match Place::State.path(home) {
        Ok(root) => root,
        Err(_) => return Err(InstanceError::NoHome),
    };
    let name = slice_subrange(id.as_bytes(), 0, 24);
    assert(name@ =~= encode_utf8(id@).take(24));
    let path = join_bytes(root.as_slice(), name);
    if InstanceFile::Socket.path(path.as_slice()).len() >= SOCKET_LIMIT {
        Err(InstanceError::PathTooLong)
    } else {
        Ok(path)
    }
}

/// Names the file that a launcher locks before others may see it.
pub fn lease_draft(directory: &[u8], id: &str) -> (r: Vec<u8>)
    ensures
        r@ == joined_path(directory@, encode_utf8("lease-"@ + id@ + ".tmp"@)),
{
    let mut name = "lease-".to_owned();
    name.append(id);
    name.append(".tmp");
    join(directory, name.as_str())
}

/// Names the file whose lock says that a launcher uses an instance.
pub fn lease_path(directory: &[u8], id: &str) -> (r: Vec<u8>)
    ensures
        r@ == joined_path(InstanceFile::Leases.path_of(directory@), encode_utf8(id@)),
{
    join(InstanceFile::Leases.path(directory).as_slice(), id)
}

/// What is done next to take a lease.
#[derive(Clone, Copy, Debug, PartialEq, Eq, Structural)]
pub enum LeaseStep {
    /// Create the file where no one looks for it.
    Create,
    /// Take its lock.
    Lock,
    /// Move it to where others see it.
    Reveal,
    /// The lease is held.
    Held,
    /// There is no lease.
    Failed,
}

/// What is done after a step, given whether it succeeded.
pub open spec fn lease_step_after(step: LeaseStep, done: bool) -> LeaseStep {
    match step {
        LeaseStep::Held => LeaseStep::Held,
        LeaseStep::Failed => LeaseStep::Failed,
        _ => if !done {
            LeaseStep::Failed
        } else {
            match step {
                LeaseStep::Create => LeaseStep::Lock,
                LeaseStep::Lock => LeaseStep::Reveal,
                _ => LeaseStep::Held,
            }
        },
    }
}

/// Decides what is done next to take a lease.
pub fn take_lease(step: LeaseStep, done: bool) -> (r: LeaseStep)
    ensures
        r == lease_step_after(step, done),
{
    match step {
        LeaseStep::Held => LeaseStep::Held,
        LeaseStep::Failed => LeaseStep::Failed,
        LeaseStep::Create => if done {
            LeaseStep::Lock
        } else {
            LeaseStep::Failed
        },
        LeaseStep::Lock => if done {
            LeaseStep::Reveal
        } else {
            LeaseStep::Failed
        },
        LeaseStep::Reveal => if done {
            LeaseStep::Held
        } else {
            LeaseStep::Failed
        },
    }
}

/// The step that comes after some steps with these outcomes.
pub open spec fn lease_step_reached(outcomes: Seq<bool>) -> LeaseStep
    decreases outcomes.len(),
{
    if outcomes.len() == 0 {
        LeaseStep::Create
    } else {
        lease_step_after(lease_step_reached(outcomes.drop_last()), outcomes.last())
    }
}

proof fn lemma_lease_steps(outcomes: Seq<bool>)
    ensures
        lease_step_reached(outcomes) == LeaseStep::Create ==> outcomes.len() == 0,
        lease_step_reached(outcomes) == LeaseStep::Lock ==> outcomes == seq![true],
        lease_step_reached(outcomes) == LeaseStep::Reveal ==> outcomes == seq![true, true],
    decreases outcomes.len(),
{
    if outcomes.len() > 0 {
        let before = outcomes.drop_last();
        lemma_lease_steps(before);
        assert(outcomes =~= before.push(outcomes.last()));
        if lease_step_reached(outcomes) == LeaseStep::Lock {
            assert(outcomes =~= seq![true]);
        }
        if lease_step_reached(outcomes) == LeaseStep::Reveal {
            assert(outcomes =~= seq![true, true]);
        }
    }
}

/// Others see a lease only after its lock was taken: none is ever swept away as
/// if it had been let go.
pub proof fn law_leases_are_locked_before_they_are_seen(outcomes: Seq<bool>)
    ensures
        lease_step_reached(outcomes) == LeaseStep::Reveal ==> outcomes == seq![true, true],
{
    lemma_lease_steps(outcomes);
}

/// What is done next to make an instance known.
#[derive(Clone, Copy, Debug, PartialEq, Eq, Structural)]
pub enum PublishStep {
    /// Remove the socket of an instance that is gone.
    ClearSocket,
    /// Open the socket.
    Bind,
    /// Let no one else talk to it.
    Protect,
    /// Write what the instance tells of itself, where no one looks for it.
    WriteDraft,
    /// Get that onto the disk.
    SyncDraft,
    /// Move it to where launchers look.
    Reveal,
    /// Answer launchers.
    Serve,
    /// It could not be made known.
    Failed,
}

/// What is done after a step, given whether it succeeded.
pub open spec fn publish_step_after(step: PublishStep, done: bool) -> PublishStep {
    match step {
        PublishStep::Serve => PublishStep::Serve,
        PublishStep::Failed => PublishStep::Failed,
        _ => if !done {
            PublishStep::Failed
        } else {
            match step {
                PublishStep::ClearSocket => PublishStep::Bind,
                PublishStep::Bind => PublishStep::Protect,
                PublishStep::Protect => PublishStep::WriteDraft,
                PublishStep::WriteDraft => PublishStep::SyncDraft,
                PublishStep::SyncDraft => PublishStep::Reveal,
                _ => PublishStep::Serve,
            }
        },
    }
}

/// Decides what is done next to make an instance known.
pub fn publish_step(step: PublishStep, done: bool) -> (r: PublishStep)
    ensures
        r == publish_step_after(step, done),
{
    match step {
        PublishStep::Serve => PublishStep::Serve,
        PublishStep::Failed => PublishStep::Failed,
        _ => {
            if !done {
                return PublishStep::Failed;
            }
            match step {
                PublishStep::ClearSocket => PublishStep::Bind,
                PublishStep::Bind => PublishStep::Protect,
                PublishStep::Protect => PublishStep::WriteDraft,
                PublishStep::WriteDraft => PublishStep::SyncDraft,
                PublishStep::SyncDraft => PublishStep::Reveal,
                _ => PublishStep::Serve,
            }
        },
    }
}

/// The step that comes after some steps with these outcomes.
pub open spec fn publish_step_reached(outcomes: Seq<bool>) -> PublishStep
    decreases outcomes.len(),
{
    if outcomes.len() == 0 {
        PublishStep::ClearSocket
    } else {
        publish_step_after(publish_step_reached(outcomes.drop_last()), outcomes.last())
    }
}

spec fn publish_stage(step: PublishStep) -> int {
    match step {
        PublishStep::ClearSocket => 0,
        PublishStep::Bind => 1,
        PublishStep::Protect => 2,
        PublishStep::WriteDraft => 3,
        PublishStep::SyncDraft => 4,
        PublishStep::Reveal => 5,
        _ => -1,
    }
}

proof fn lemma_publish_steps(outcomes: Seq<bool>)
    ensures
        ({
            let n = publish_stage(publish_step_reached(outcomes));
            &&& 0 <= n ==> n == outcomes.len()
            &&& forall|i: int| 0 <= i < n ==> outcomes[i]
        }),
    decreases outcomes.len(),
{
    if outcomes.len() > 0 {
        let before = outcomes.drop_last();
        lemma_publish_steps(before);
        assert forall|i: int|
            0 <= i < publish_stage(publish_step_reached(outcomes)) implies outcomes[i] by {
            if i < before.len() {
                assert(before[i] == outcomes[i]);
            }
        }
    }
}

/// Launchers find an instance only after its socket was opened and protected and
/// the whole record was on the disk.
pub proof fn law_instances_are_ready_before_they_are_found(outcomes: Seq<bool>)
    ensures
        publish_step_reached(outcomes) == PublishStep::Reveal ==> outcomes == seq![
            true,
            true,
            true,
            true,
            true,
        ],
{
    lemma_publish_steps(outcomes);
    if publish_step_reached(outcomes) == PublishStep::Reveal {
        assert(outcomes =~= seq![true, true, true, true, true]);
    }
}

/// What is found of a lease.
#[derive(Clone, Copy, Debug, PartialEq, Eq, Structural)]
pub enum Probe {
    /// The file is gone.
    Gone,
    /// No one holds its lock any more.
    Unlocked,
    /// Its lock is held.
    Held,
}

/// Whether the file of a lease is removed: only after its lock was let go.
pub fn is_stale(probe: Probe) -> (r: bool)
    ensures
        r == (probe == Probe::Unlocked),
{
    probe == Probe::Unlocked
}

/// How many leases are held.
pub open spec fn held(probes: Seq<Probe>) -> nat
    decreases probes.len(),
{
    if probes.len() == 0 {
        0
    } else {
        let last: nat = if probes.last() == Probe::Held {
            1
        } else {
            0
        };
        held(probes.drop_last()) + last
    }
}

/// Counts the leases that are held.
pub fn live_leases(probes: &[Probe]) -> (r: usize)
    ensures
        r == held(probes@),
        r <= probes@.len(),
{
    let mut count: usize = 0;
    let mut i: usize = 0;
    while i < probes.len()
        invariant
            i <= probes.len(),
            count == held(probes@.take(i as int)),
            count <= i,
        decreases probes.len() - i,
    {
        if probes[i] == Probe::Held {
            count = count + 1;
        }
        i = i + 1;
        assert(probes@.take(i as int).drop_last() =~= probes@.take(i - 1));
    }
    assert(probes@.take(probes.len() as int) =~= probes@);
    count
}

/// An instance that runs.
#[derive(Debug)]
pub struct Managed {
    key: String,
    identity: String,
    token: String,
    directory: Vec<u8>,
    requests: usize,
    idle_since: u128,
    stopping: bool,
    stop: bool,
}

/// An instance with its texts as characters.
#[verifier::ext_equal]
pub struct ManagedModel {
    /// The key that it serves.
    pub key: Seq<char>,
    /// Its name.
    pub identity: Seq<char>,
    /// What launchers prove themselves by.
    pub token: Seq<char>,
    /// Its directory.
    pub directory: Seq<u8>,
    /// How many requests are under way.
    pub requests: nat,
    /// Since when it has not been used.
    pub idle_since: nat,
    /// Whether it is on its way out.
    pub stopping: bool,
    /// Whether it is to stop.
    pub stop: bool,
}

impl View for Managed {
    type V = ManagedModel;

    closed spec fn view(&self) -> ManagedModel {
        ManagedModel {
            key: self.key@,
            identity: self.identity@,
            token: self.token@,
            directory: self.directory@,
            requests: self.requests as nat,
            idle_since: self.idle_since as nat,
            stopping: self.stopping,
            stop: self.stop,
        }
    }
}

/// A request that an instance is busy with.
#[derive(Debug)]
pub struct Activity {
    taken: (),
}

/// Why an instance does not start.
#[derive(Clone, Copy, Debug, PartialEq, Eq, Structural)]
pub enum BootstrapError {
    /// The key is none.
    InvalidKey,
    /// It was named after another configuration.
    ConfigurationChanged,
    /// The home directory is not known.
    NoHome,
    /// The home directory is too far down for a socket.
    PathTooLong,
    /// There is one already.
    AlreadyRunning,
}

impl BootstrapError {
    /// What the error says.
    pub open spec fn text(self) -> Seq<char> {
        match self {
            BootstrapError::InvalidKey => InvalidKey.text(),
            BootstrapError::ConfigurationChanged =>
                "configuration changed during startup; retry launch"@,
            BootstrapError::NoHome => InstanceError::NoHome.text(),
            BootstrapError::PathTooLong => InstanceError::PathTooLong.text(),
            BootstrapError::AlreadyRunning => "instance already running"@,
        }
    }

    /// What the error says.
    pub fn message(&self) -> (r: String)
        ensures
            r@ == self.text(),
    {
        match self {
            BootstrapError::InvalidKey => InvalidKey.message(),
            BootstrapError::ConfigurationChanged =>
                "configuration changed during startup; retry launch".to_owned(),
            BootstrapError::NoHome => InstanceError::NoHome.message(),
            BootstrapError::PathTooLong => InstanceError::PathTooLong.message(),
            BootstrapError::AlreadyRunning => "instance already running".to_owned(),
        }
    }
}

/// Makes an instance out of what its launcher tells it, if that still goes with
/// the configuration.
pub fn bootstrap(
    boot: Bootstrap,
    settings: &Settings,
    config: &[u8],
    home: Option<&[u8]>,
    now: u128,
) -> (r: Result<Managed, BootstrapError>)
    ensures
        ({
            let name = identity_of(
                encode_utf8(boot.key@),
                encode_utf8(settings.upstream_base_url@),
                config@,
            );
            match r {
                Ok(managed) => is_api_key(boot.key@) && boot.identity@ == name && (home matches Some(
                    h,
                ) && socket_fits(instance_directory(h@, name)) && managed@ == (ManagedModel {
                    key: boot.key@,
                    identity: name,
                    token: boot.token@,
                    directory: instance_directory(h@, name),
                    requests: 0,
                    idle_since: now as nat,
                    stopping: false,
                    stop: false,
                })),
                Err(BootstrapError::InvalidKey) => !is_api_key(boot.key@),
                Err(BootstrapError::ConfigurationChanged) => is_api_key(boot.key@)
                    && boot.identity@ != name,
                Err(BootstrapError::NoHome) => is_api_key(boot.key@) && boot.identity@ == name
                    && home is None,
                Err(BootstrapError::PathTooLong) => is_api_key(boot.key@) && boot.identity@ == name
                    && (home matches Some(h) && !socket_fits(instance_directory(h@, name))),
                Err(BootstrapError::AlreadyRunning) => false,
            }
        }),
{
    if validate_key(boot.key.as_str()).is_err() {
        return Err(BootstrapError::InvalidKey);
    }
    let name = identity(boot.key.as_str(), settings.upstream_base_url.as_str(), config);
    if !same_text(name.as_str(), boot.identity.as_str()) {
        return Err(BootstrapError::ConfigurationChanged);
    }
    proof {
        lemma_ascii_is_cut_anywhere(name@, 24);
    }
    let directory = match instance_dir(home, name.as_str()) {
        Ok(directory) => directory,
        Err(InstanceError::NoHome) => return Err(BootstrapError::NoHome),
        Err(InstanceError::PathTooLong) => return Err(BootstrapError::PathTooLong),
    };
    Ok(
        Managed {
            key: boot.key,
            identity: boot.identity,
            token: boot.token,
            directory,
            requests: 0,
            idle_since: now,
            stopping: false,
            stop: false,
        },
    )
}

/// Whether an instance is in use.
pub open spec fn is_used(managed: ManagedModel, sessions: nat) -> bool {
    sessions > 0 || managed.requests > 0
}

/// Whether an operation asks an instance to stop that has not been used for a
/// while; none where the operation is unknown.
pub open spec fn asks_to_stop(operation: Seq<char>, idle: nat, idle_timeout: Option<nat>) -> Option<
    bool,
> {
    if operation == "stop"@ || operation == "prune"@ {
        Some(true)
    } else if operation == "auto"@ {
        Some(
            idle >= match idle_timeout {
                Some(timeout) => timeout,
                None => LONGEST as nat,
            },
        )
    } else if operation == "status"@ {
        Some(false)
    } else {
        None
    }
}

/// What an instance becomes, and answers, when it is asked something.
pub open spec fn asked(
    managed: ManagedModel,
    operation: Seq<char>,
    sessions: nat,
    now: nat,
    idle_timeout: Option<nat>,
) -> (ManagedModel, Result<StatusModel, ControlError>) {
    let used = is_used(managed, sessions);
    let since = if used {
        now
    } else {
        managed.idle_since
    };
    let idle = if now > since {
        (now - since) as nat
    } else {
        0
    };
    let seen = ManagedModel { idle_since: since, ..managed };
    match asks_to_stop(operation, idle, idle_timeout) {
        None => (seen, Err(ControlError::UnknownOperation)),
        Some(wanted) => {
            let stops = wanted && !used;
            let after = if stops {
                ManagedModel { stopping: true, stop: true, ..seen }
            } else {
                seen
            };
            (
                after,
                Ok(
                    StatusModel {
                        identity: managed.identity,
                        sessions,
                        requests: managed.requests,
                        idle_seconds: idle / SECOND as nat,
                        stopped: stops,
                        stopping: after.stopping,
                    },
                ),
            )
        },
    }
}

/// An optional number.
pub open spec fn option_nat(n: Option<u128>) -> Option<nat> {
    match n {
        Some(n) => Some(n as nat),
        None => None,
    }
}

/// What an instance becomes when a request begins.
pub open spec fn begun(managed: ManagedModel, now: nat) -> ManagedModel {
    ManagedModel { requests: managed.requests + 1, idle_since: now, ..managed }
}

/// What an instance becomes when a request ends.
pub open spec fn ended(managed: ManagedModel, now: nat) -> ManagedModel {
    ManagedModel { requests: (managed.requests - 1) as nat, idle_since: now, ..managed }
}

impl Managed {
    /// How many requests are under way.
    pub fn requests(&self) -> (r: usize)
        ensures
            r == self@.requests,
    {
        self.requests
    }

    /// The key that it serves.
    pub fn served_key(&self) -> (r: &str)
        ensures
            r@ == self@.key,
    {
        self.key.as_str()
    }

    /// Whether it is to stop.
    pub fn stops(&self) -> (r: bool)
        ensures
            r == self@.stop,
    {
        self.stop
    }

    /// Its directory.
    pub fn directory(&self) -> (r: &[u8])
        ensures
            r@ == self@.directory,
    {
        self.directory.as_slice()
    }

    /// Takes up a request, unless the instance is on its way out.
    pub fn activity(&mut self, now: u128) -> (r: Option<Activity>)
        requires
            old(self)@.requests < usize::MAX,
        ensures
            r is None <==> old(self)@.stopping,
            final(self)@ == offered(old(self)@, now as nat),
    {
        if self.stopping {
            return None;
        }
        self.requests = self.requests + 1;
        self.idle_since = now;
        Some(Activity { taken: () })
    }

    /// Lets go of a request.
    pub fn release(&mut self, activity: Activity, now: u128)
        requires
            old(self)@.requests > 0,
        ensures
            final(self)@ == ended(old(self)@, now as nat),
    {
        self.requests = self.requests - 1;
        self.idle_since = now;
    }

    /// What the instance tells of itself.
    pub fn publish(&self, url: String, pid: u32) -> (r: Record)
        ensures
            r@ == (RecordModel {
                protocol: PROTOCOL as nat,
                identity: self@.identity,
                token: self@.token,
                url: url@,
                pid: pid as nat,
            }),
    {
        Record {
            protocol: PROTOCOL,
            identity: self.identity.clone(),
            token: self.token.clone(),
            url,
            pid,
        }
    }

    /// Accepts a question from a launcher that proves itself, and tells what is
    /// asked.
    pub fn authenticate(&self, request: &Control) -> (r: Result<String, ControlError>)
        ensures
            match r {
                Ok(operation) => request@.identity == self@.identity && request@.token
                    == self@.token && operation@ == request@.operation,
                Err(e) => e == ControlError::AuthenticationFailed && (request@.identity
                    != self@.identity || request@.token != self@.token),
            },
    {
        if same_text(request.identity.as_str(), self.identity.as_str()) && same_text(
            request.token.as_str(),
            self.token.as_str(),
        ) {
            Ok(request.operation.clone())
        } else {
            Err(ControlError::AuthenticationFailed)
        }
    }

    /// Answers a question, given how many launchers use the instance. It stops
    /// only where it is asked to and not in use.
    pub fn status(
        &mut self,
        operation: &str,
        sessions: usize,
        now: u128,
        idle_timeout: Option<u128>,
    ) -> (r: Result<Status, ControlError>)
        requires
            now <= LONGEST,
        ensures
            final(self)@ == asked(
                old(self)@,
                operation@,
                sessions as nat,
                now as nat,
                option_nat(idle_timeout),
            ).0,
            match r {
                Ok(status) => asked(
                    old(self)@,
                    operation@,
                    sessions as nat,
                    now as nat,
                    option_nat(idle_timeout),
                ).1 == Ok::<StatusModel, ControlError>(status@),
                Err(e) => asked(
                    old(self)@,
                    operation@,
                    sessions as nat,
                    now as nat,
                    option_nat(idle_timeout),
                ).1 == Err::<StatusModel, ControlError>(e),
            },
    {
        let available = sessions == 0 && self.requests == 0;
        if !available {
            self.idle_since = now;
        }
        let idle: u128 = if now > self.idle_since {
            now - self.idle_since
        } else {
            0
        };
        let wanted = if same_text(operation, "stop") || same_text(operation, "prune") {
            true
        } else if same_text(operation, "auto") {
            idle >= match idle_timeout {
                Some(timeout) => timeout,
                None => LONGEST,
            }
        } else if same_text(operation, "status") {
            false
        } else {
            return Err(ControlError::UnknownOperation);
        };
        let stops = wanted && available;
        if stops {
            self.stopping = true;
            self.stop = true;
        }
        Ok(
            Status {
                identity: self.identity.clone(),
                sessions,
                requests: self.requests,
                idle_seconds: (idle / SECOND) as u64,
                stopped: stops,
                stopping: self.stopping,
            },
        )
    }

    /// Looks after the instance: it stops when it has not been used for
    /// `idle_timeout`. Where the launchers could not be counted, it stays. Tells
    /// whether it is to stop.
    pub fn watchdog(&mut self, sessions: Option<usize>, now: u128, idle_timeout: u128) -> (r: bool)
        requires
            now <= LONGEST,
        ensures
            final(self)@ == (match sessions {
                Some(n) => asked(
                    old(self)@,
                    "auto"@,
                    n as nat,
                    now as nat,
                    Some(idle_timeout as nat),
                ).0,
                None => old(self)@,
            }),
            r == final(self)@.stop,
    {
        match sessions {
            Some(n) => {
                let answer = self.status("auto", n, now, Some(idle_timeout));
            },
            None => {},
        }
        self.stop
    }

    /// What is removed of the directory when the instance has stopped. Locks
    /// stay: a launcher may wait for one.
    pub fn cleanup(&self) -> (r: Vec<Vec<u8>>)
        ensures
            r@.len() == 3,
            r@[0]@ == InstanceFile::Record.path_of(self@.directory),
            r@[1]@ == InstanceFile::Socket.path_of(self@.directory),
            r@[2]@ == InstanceFile::RecordDraft.path_of(self@.directory),
    {
        leftovers(self.directory.as_slice())
    }
}

/// What an instance that is gone leaves in its directory.
pub fn leftovers(directory: &[u8]) -> (r: Vec<Vec<u8>>)
    ensures
        r@.len() == 3,
        r@[0]@ == InstanceFile::Record.path_of(directory@),
        r@[1]@ == InstanceFile::Socket.path_of(directory@),
        r@[2]@ == InstanceFile::RecordDraft.path_of(directory@),
{
    let mut paths: Vec<Vec<u8>> = Vec::new();
    paths.push(InstanceFile::Record.path(directory));
    paths.push(InstanceFile::Socket.path(directory));
    paths.push(InstanceFile::RecordDraft.path(directory));
    paths
}

/// No question stops an instance that is in use.
pub proof fn law_used_instances_go_on(
    managed: ManagedModel,
    operation: Seq<char>,
    sessions: nat,
    now: nat,
    idle_timeout: Option<nat>,
)
    requires
        is_used(managed, sessions),
    ensures
        ({
            let (after, answer) = asked(managed, operation, sessions, now, idle_timeout);
            &&& after.stop == managed.stop
            &&& after.stopping == managed.stopping
            &&& answer matches Ok(status) ==> !status.stopped
        }),
{
}

/// By itself an instance stops only after it has not been used for the whole
/// idle timeout, and then it does stop.
pub proof fn law_idle_instances_stop(
    managed: ManagedModel,
    sessions: nat,
    now: nat,
    idle_timeout: nat,
)
    requires
        now >= managed.idle_since,
        !managed.stop,
    ensures
        asked(managed, "auto"@, sessions, now, Some(idle_timeout)).0.stop <==> !is_used(
            managed,
            sessions,
        ) && now >= managed.idle_since + idle_timeout,
{
    reveal_strlit("auto");
    reveal_strlit("stop");
    reveal_strlit("prune");
    assert("auto"@[0] != "stop"@[0]);
}

/// Asking how an instance is never stops it.
pub proof fn law_asking_does_not_stop(
    managed: ManagedModel,
    sessions: nat,
    now: nat,
    idle_timeout: Option<nat>,
)
    ensures
        asked(managed, "status"@, sessions, now, idle_timeout).0.stop == managed.stop,
        asked(managed, "status"@, sessions, now, idle_timeout).0.stopping == managed.stopping,
        asked(managed, "status"@, sessions, now, idle_timeout).1 is Ok,
{
    reveal_strlit("status");
    reveal_strlit("auto");
    reveal_strlit("stop");
    reveal_strlit("prune");
    assert("status"@.len() == 6 && "auto"@.len() == 4 && "stop"@.len() == 4 && "prune"@.len() == 5);
}

/// An instance on its way out is to stop and has no request under way.
pub open spec fn is_sound(managed: ManagedModel) -> bool {
    managed.stopping ==> managed.stop && managed.requests == 0
}

/// What an instance becomes when a request comes: one on its way out takes none.
pub open spec fn offered(managed: ManagedModel, now: nat) -> ManagedModel {
    if managed.stopping {
        managed
    } else {
        begun(managed, now)
    }
}

/// No request is ever cut off: whatever an instance is asked and whatever
/// requests come and go, once it is on its way out none is under way.
pub proof fn law_no_request_is_cut_off(
    managed: ManagedModel,
    operation: Seq<char>,
    sessions: nat,
    now: nat,
    idle_timeout: Option<nat>,
)
    requires
        is_sound(managed),
    ensures
        is_sound(asked(managed, operation, sessions, now, idle_timeout).0),
        is_sound(offered(managed, now)),
        managed.requests > 0 ==> is_sound(ended(managed, now)),
{
}

/// A request that begins and ends leaves the count as it was, and while it is
/// under way the instance is in use.
pub proof fn law_requests_are_counted(managed: ManagedModel, sessions: nat, begin: nat, end: nat)
    ensures
        is_used(begun(managed, begin), sessions),
        ended(begun(managed, begin), end).requests == managed.requests,
        ended(begun(managed, begin), end).idle_since == end,
{
}

/// An instance that answered that it stops never says otherwise again.
pub proof fn law_stopping_is_final(
    managed: ManagedModel,
    operation: Seq<char>,
    sessions: nat,
    now: nat,
    idle_timeout: Option<nat>,
)
    requires
        managed.stopping,
    ensures
        asked(managed, operation, sessions, now, idle_timeout).0.stopping,
        managed.stop ==> asked(managed, operation, sessions, now, idle_timeout).0.stop,
        asked(managed, operation, sessions, now, idle_timeout).1 matches Ok(status)
            ==> status.stopping,
{
}

/// An instance that is not in use stops when it is told to, however short a time
/// that has been and whatever the idle timeout, and says so. An instance in use
/// that is told to stop answers that it did not.
pub proof fn law_unused_instances_stop_when_told(
    managed: ManagedModel,
    sessions: nat,
    now: nat,
    idle_timeout: Option<nat>,
)
    ensures
        ({
            let unused = sessions == 0 && managed.requests == 0;
            let (stopped, stop) = asked(managed, "stop"@, sessions, now, idle_timeout);
            let (pruned, prune) = asked(managed, "prune"@, sessions, now, idle_timeout);
            &&& stop matches Ok(status) && status.stopped == unused
            &&& prune matches Ok(status) && status.stopped == unused
            &&& unused ==> stopped.stop && stopped.stopping
            &&& unused ==> pruned.stop && pruned.stopping
        }),
{
    reveal_strlit("stop");
    reveal_strlit("prune");
}

/// An instance that looks after itself stops once it has not been used for the
/// idle timeout, and without one only after the longest time that there is. Its
/// answer tells whether it stops now.
pub proof fn law_timeouts_decide(
    managed: ManagedModel,
    sessions: nat,
    now: nat,
    idle_timeout: Option<nat>,
)
    ensures
        ({
            let limit = match idle_timeout {
                Some(timeout) => timeout,
                None => 18446744073709551615999999999,
            };
            let due = sessions == 0 && managed.requests == 0 && (limit == 0 || now
                - managed.idle_since >= limit);
            let (after, answer) = asked(managed, "auto"@, sessions, now, idle_timeout);
            &&& after.stop == (managed.stop || due)
            &&& after.stopping == (managed.stopping || due)
            &&& answer matches Ok(status) && status.stopped == due
        }),
{
    reveal_strlit("auto");
    reveal_strlit("stop");
    reveal_strlit("prune");
    assert("auto"@[0] != "stop"@[0]);
}

/// What an instance answers is true: its name, how many launchers use it, how
/// many requests are under way, how many whole seconds it has not been used, and
/// whether it is on its way out.
pub proof fn law_answers_are_true(
    managed: ManagedModel,
    operation: Seq<char>,
    sessions: nat,
    now: nat,
    idle_timeout: Option<nat>,
)
    ensures
        ({
            let (after, answer) = asked(managed, operation, sessions, now, idle_timeout);
            answer matches Ok(status) ==> {
                &&& status.identity == managed.identity
                &&& status.sessions == sessions
                &&& status.requests == managed.requests
                &&& status.stopping == after.stopping
                &&& status.stopped ==> after.stop && after.stopping
                &&& sessions > 0 || managed.requests > 0 ==> status.idle_seconds == 0
                &&& sessions == 0 && managed.requests == 0 && now >= managed.idle_since ==> {
                    &&& status.idle_seconds * 1000000000 <= now - managed.idle_since
                    &&& now - managed.idle_since < (status.idle_seconds + 1) * 1000000000
                }
                &&& now < managed.idle_since ==> status.idle_seconds == 0
            }
        }),
{
}

/// An instance that is in use when it is asked counts as used at that time, and
/// one that is not is not made to look used by being asked.
pub proof fn law_use_is_remembered(
    managed: ManagedModel,
    operation: Seq<char>,
    sessions: nat,
    now: nat,
    idle_timeout: Option<nat>,
)
    ensures
        ({
            let after = asked(managed, operation, sessions, now, idle_timeout).0;
            &&& sessions > 0 || managed.requests > 0 ==> after.idle_since == now
            &&& sessions == 0 && managed.requests == 0 ==> after.idle_since == managed.idle_since
        }),
{
}

/// An instance answers the four questions that it knows, and refuses every other
/// one without stopping for it.
pub proof fn law_unknown_questions_are_refused(
    managed: ManagedModel,
    operation: Seq<char>,
    sessions: nat,
    now: nat,
    idle_timeout: Option<nat>,
)
    ensures
        ({
            let (after, answer) = asked(managed, operation, sessions, now, idle_timeout);
            let known = operation == "status"@ || operation == "auto"@ || operation == "stop"@
                || operation == "prune"@;
            &&& known <==> answer is Ok
            &&& !known ==> answer == Err::<StatusModel, ControlError>(
                ControlError::UnknownOperation,
            )
            &&& !known ==> after.stop == managed.stop && after.stopping == managed.stopping
        }),
{
}

/// Nothing that happens to an instance changes its key, its name, its token or
/// its directory, and no question changes how many requests are under way.
pub proof fn law_instances_stay_who_they_are(
    managed: ManagedModel,
    operation: Seq<char>,
    sessions: nat,
    now: nat,
    idle_timeout: Option<nat>,
)
    ensures
        ({
            let after = asked(managed, operation, sessions, now, idle_timeout).0;
            let busier = offered(managed, now);
            let calmer = ended(managed, now);
            &&& after.key == managed.key && busier.key == managed.key && calmer.key == managed.key
            &&& after.identity == managed.identity && busier.identity == managed.identity
                && calmer.identity == managed.identity
            &&& after.token == managed.token && busier.token == managed.token && calmer.token
                == managed.token
            &&& after.directory == managed.directory && busier.directory == managed.directory
                && calmer.directory == managed.directory
            &&& after.requests == managed.requests
            &&& busier.stop == managed.stop && busier.stopping == managed.stopping
            &&& calmer.stop == managed.stop && calmer.stopping == managed.stopping
        }),
{
}

/// A request that comes is counted and makes the instance used now, unless the
/// instance is on its way out: then nothing changes. One that ends is no longer
/// counted, and the instance was used until then.
pub proof fn law_requests_come_and_go(managed: ManagedModel, now: nat)
    ensures
        !managed.stopping ==> offered(managed, now).requests == managed.requests + 1,
        !managed.stopping ==> offered(managed, now).idle_since == now,
        managed.stopping ==> offered(managed, now) == managed,
        managed.requests > 0 ==> ended(managed, now).requests == managed.requests - 1,
        managed.requests > 0 ==> ended(managed, now).idle_since == now,
{
}

/// Each lease that is held counts once, and no other counts.
pub proof fn law_held_leases_are_counted(first: Seq<Probe>, probe: Probe, second: Seq<Probe>)
    ensures
        held(first + second) == held(first) + held(second),
        held(seq![Probe::Held]) == 1,
        held(seq![Probe::Gone]) == 0,
        held(seq![Probe::Unlocked]) == 0,
        held(first.push(probe)) >= held(first),
    decreases second.len(),
{
    reveal_with_fuel(held, 2);
    assert(first.push(probe).drop_last() =~= first);
    assert(seq![Probe::Held].drop_last() =~= Seq::empty());
    assert(seq![Probe::Gone].drop_last() =~= Seq::empty());
    assert(seq![Probe::Unlocked].drop_last() =~= Seq::empty());
    if second.len() == 0 {
        assert(first + second =~= first);
    } else {
        law_held_leases_are_counted(first, probe, second.drop_last());
        assert((first + second).drop_last() =~= first + second.drop_last());
        assert((first + second).last() == second.last());
    }
}

/// A lease is held after its three steps succeeded, and a step that fails is the
/// last.
pub proof fn law_leases_are_taken_in_order(outcomes: Seq<bool>, done: bool)
    ensures
        lease_step_reached(seq![true, true, true]) == LeaseStep::Held,
        lease_step_reached(Seq::empty()) == LeaseStep::Create,
        lease_step_reached(seq![true]) == LeaseStep::Lock,
        lease_step_reached(seq![true, true]) == LeaseStep::Reveal,
        lease_step_reached(outcomes) == LeaseStep::Held || lease_step_reached(outcomes)
            == LeaseStep::Failed ==> lease_step_reached(outcomes.push(done))
            == lease_step_reached(outcomes),
        !done && lease_step_reached(outcomes) != LeaseStep::Held ==> lease_step_reached(
            outcomes.push(done),
        ) == LeaseStep::Failed,
{
    reveal_with_fuel(lease_step_reached, 4);
    assert(outcomes.push(done).drop_last() =~= outcomes);
    assert(seq![true].drop_last() =~= Seq::empty());
    assert(seq![true, true].drop_last() =~= seq![true]);
    assert(seq![true, true, true].drop_last() =~= seq![true, true]);
}

/// An instance is made known step by step, a step that fails is the last, and
/// after the six steps launchers are answered.
pub proof fn law_instances_are_published_in_order(outcomes: Seq<bool>, done: bool)
    ensures
        publish_step_reached(Seq::empty()) == PublishStep::ClearSocket,
        publish_step_reached(seq![true]) == PublishStep::Bind,
        publish_step_reached(seq![true, true]) == PublishStep::Protect,
        publish_step_reached(seq![true, true, true]) == PublishStep::WriteDraft,
        publish_step_reached(seq![true, true, true, true]) == PublishStep::SyncDraft,
        publish_step_reached(seq![true, true, true, true, true]) == PublishStep::Reveal,
        publish_step_reached(seq![true, true, true, true, true, true]) == PublishStep::Serve,
        publish_step_reached(outcomes) == PublishStep::Serve || publish_step_reached(outcomes)
            == PublishStep::Failed ==> publish_step_reached(outcomes.push(done))
            == publish_step_reached(outcomes),
        !done && publish_step_reached(outcomes) != PublishStep::Serve ==> publish_step_reached(
            outcomes.push(done),
        ) == PublishStep::Failed,
{
    reveal_with_fuel(publish_step_reached, 7);
    assert(outcomes.push(done).drop_last() =~= outcomes);
    assert(seq![true].drop_last() =~= Seq::empty());
    assert(seq![true, true].drop_last() =~= seq![true]);
    assert(seq![true, true, true].drop_last() =~= seq![true, true]);
    assert(seq![true, true, true, true].drop_last() =~= seq![true, true, true]);
    assert(seq![true, true, true, true, true].drop_last() =~= seq![true, true, true, true]);
    assert(seq![true, true, true, true, true, true].drop_last() =~= seq![
        true,
        true,
        true,
        true,
        true,
    ]);
}

/// An instance has the directory that the first 24 bytes of its name call; names
/// that begin alike share it, and others do not.
pub proof fn law_instances_have_their_own_directories(
    home: Seq<u8>,
    id: Seq<char>,
    other: Seq<char>,
)
    requires
        encode_utf8(id).len() >= 24,
        encode_utf8(other).len() >= 24,
        encode_utf8(id)[0] != 47,
        encode_utf8(other)[0] != 47,
    ensures
        instance_directory(home, id) == instance_directory(home, other) <==> encode_utf8(id).take(
            24,
        ) == encode_utf8(other).take(24),
        encode_utf8(id).take(24).is_suffix_of(instance_directory(home, id)),
        Place::State.path_of(home).is_prefix_of(instance_directory(home, id)),
{
    let state = Place::State.path_of(home);
    let a = encode_utf8(id).take(24);
    let b = encode_utf8(other).take(24);
    let path = instance_directory(home, id);
    if path == instance_directory(home, other) {
        crate::paths::law_joined_paths_differ(state, a, b);
    }
    assert(path.subrange(path.len() - 24, path.len() as int) =~= a);
    assert(path.subrange(0, state.len() as int) =~= state);
}

/// A socket fits where its path, with the slash and the name of the socket, has at
/// most 107 bytes.
pub proof fn law_sockets_have_short_paths(directory: Seq<u8>)
    requires
        directory.len() > 0,
        directory.last() != 47,
    ensures
        InstanceFile::Socket.path_of(directory).len() == directory.len() + 13,
        socket_fits(directory) <==> directory.len() + 13 <= 107,
{
    reveal_strlit("control.sock");
    crate::text::lemma_ascii_bytes("control.sock"@);
}

/// The files of an instance have different names, and so different paths.
pub proof fn law_instance_files_stay_apart(
    directory: Seq<u8>,
    file: InstanceFile,
    other: InstanceFile,
)
    requires
        file != other,
    ensures
        file.path_of(directory) != other.path_of(directory),
{
    lemma_file_name(file);
    lemma_file_name(other);
    if file.path_of(directory) == other.path_of(directory) {
        crate::paths::law_joined_paths_differ(
            directory,
            encode_utf8(file.name_text()),
            encode_utf8(other.name_text()),
        );
        crate::text::lemma_utf8_tells_texts_apart(file.name_text(), other.name_text());
        let a = file.name_text();
        let b = other.name_text();
        assert(a.len() == b.len());
        assert(a[0] == b[0]);
    }
}

proof fn lemma_file_name(file: InstanceFile)
    ensures
        ({
            let name = file.name_text();
            &&& name.len() == (match file {
                InstanceFile::Record => 11int,
                InstanceFile::RecordDraft => 10,
                InstanceFile::Socket => 12,
                InstanceFile::RunLock => 8,
                InstanceFile::StartLock => 10,
                InstanceFile::Log => 9,
                InstanceFile::Leases => 6,
            })
            &&& file is RecordDraft ==> name[0] == 'r'
            &&& file is StartLock ==> name[0] == 's'
            &&& encode_utf8(name).len() > 0
            &&& encode_utf8(name)[0] != 47
        }),
{
    reveal_strlit("record.json");
    reveal_strlit("record.tmp");
    reveal_strlit("control.sock");
    reveal_strlit("run.lock");
    reveal_strlit("start.lock");
    reveal_strlit("proxy.log");
    reveal_strlit("leases");
    crate::text::lemma_ascii_bytes(file.name_text());
}

} // verus!
