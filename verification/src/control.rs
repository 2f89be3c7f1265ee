//! What a proxy instance and its launchers tell each other.

use vstd::prelude::*;
use vstd::string::*;
use vstd::utf8::*;

use crate::digits::{decimal, decimal_of};
use crate::text::{copy_bytes, same_text, utf8_text};

verus! {

/// What a launcher tells the instance that it starts.
#[derive(Debug)]
pub struct Bootstrap {
    /// The key to serve.
    pub key: String,
    /// The name of the instance.
    pub identity: String,
    /// What launchers prove themselves by.
    pub token: String,
}

/// What an instance tells of itself.
#[derive(Debug)]
pub struct Record {
    /// The version of what follows.
    pub protocol: u32,
    /// The name of the instance.
    pub identity: String,
    /// What launchers prove themselves by.
    pub token: String,
    /// Where it is reached.
    pub url: String,
    /// The number of its process.
    pub pid: u32,
}

/// A record with its texts as characters.
pub struct RecordModel {
    /// The version of what follows.
    pub protocol: nat,
    /// The name of the instance.
    pub identity: Seq<char>,
    /// What launchers prove themselves by.
    pub token: Seq<char>,
    /// Where it is reached.
    pub url: Seq<char>,
    /// The number of its process.
    pub pid: nat,
}

impl View for Record {
    type V = RecordModel;

    open spec fn view(&self) -> RecordModel {
        RecordModel {
            protocol: self.protocol as nat,
            identity: self.identity@,
            token: self.token@,
            url: self.url@,
            pid: self.pid as nat,
        }
    }
}

/// What a launcher asks of an instance.
#[derive(Debug)]
pub struct Control {
    /// The name of the instance.
    pub identity: String,
    /// What the launcher proves itself by.
    pub token: String,
    /// What it asks.
    pub operation: String,
}

/// A question with its texts as characters.
pub struct ControlModel {
    /// The name of the instance.
    pub identity: Seq<char>,
    /// What the launcher proves itself by.
    pub token: Seq<char>,
    /// What it asks.
    pub operation: Seq<char>,
}

impl View for Control {
    type V = ControlModel;

    open spec fn view(&self) -> ControlModel {
        ControlModel {
            identity: self.identity@,
            token: self.token@,
            operation: self.operation@,
        }
    }
}

/// How an instance is.
#[derive(Debug)]
pub struct Status {
    /// The name of the instance.
    pub identity: String,
    /// How many launchers use it.
    pub sessions: usize,
    /// How many requests are under way.
    pub requests: usize,
    /// How long it has not been used.
    pub idle_seconds: u64,
    /// Whether this question stopped it.
    pub stopped: bool,
    /// Whether it is on its way out.
    pub stopping: bool,
}

/// How an instance is, as characters and numbers.
pub struct StatusModel {
    /// The name of the instance.
    pub identity: Seq<char>,
    /// How many launchers use it.
    pub sessions: nat,
    /// How many requests are under way.
    pub requests: nat,
    /// How long it has not been used.
    pub idle_seconds: nat,
    /// Whether this question stopped it.
    pub stopped: bool,
    /// Whether it is on its way out.
    pub stopping: bool,
}

impl View for Status {
    type V = StatusModel;

    open spec fn view(&self) -> StatusModel {
        StatusModel {
            identity: self.identity@,
            sessions: self.sessions as nat,
            requests: self.requests as nat,
            idle_seconds: self.idle_seconds as nat,
            stopped: self.stopped,
            stopping: self.stopping,
        }
    }
}

/// Why an instance cannot be talked to.
#[derive(Clone, Copy, Debug, PartialEq, Eq, Structural)]
pub enum ControlError {
    /// Its record is of another version.
    UnsupportedProtocol,
    /// Another instance answered.
    IdentityMismatch,
    /// The launcher did not prove itself.
    AuthenticationFailed,
    /// It was asked what it does not know.
    UnknownOperation,
}

impl ControlError {
    /// What the error says.
    pub open spec fn text(self) -> Seq<char> {
        match self {
            ControlError::UnsupportedProtocol => "unsupported control protocol"@,
            ControlError::IdentityMismatch => "instance identity mismatch"@,
            ControlError::AuthenticationFailed => "control authentication failed"@,
            ControlError::UnknownOperation => "unknown control operation"@,
        }
    }

    /// What the error says.
    pub fn message(&self) -> (r: String)
        ensures
            r@ == self.text(),
    {
        match self {
            ControlError::UnsupportedProtocol => "unsupported control protocol".to_owned(),
            ControlError::IdentityMismatch => "instance identity mismatch".to_owned(),
            ControlError::AuthenticationFailed => "control authentication failed".to_owned(),
            ControlError::UnknownOperation => "unknown control operation".to_owned(),
        }
    }
}

/// The version of the records.
pub const PROTOCOL: u32 = 1;

/// Accepts a record of the version that is understood.
pub fn record(read: Record) -> (r: Result<Record, ControlError>)
    ensures
        match r {
            Ok(accepted) => accepted == read && read.protocol == PROTOCOL,
            Err(e) => e == ControlError::UnsupportedProtocol && read.protocol != PROTOCOL,
        },
{
    if read.protocol != PROTOCOL {
        Err(ControlError::UnsupportedProtocol)
    } else {
        Ok(read)
    }
}

/// Asks something of the instance that a record tells of.
pub fn control(record: &Record, operation: &str) -> (r: Control)
    ensures
        r@ == (ControlModel {
            identity: record@.identity,
            token: record@.token,
            operation: operation@,
        }),
{
    Control {
        identity: record.identity.clone(),
        token: record.token.clone(),
        operation: operation.to_owned(),
    }
}

/// Accepts the answer of the instance that a record tells of.
pub fn control_answer(record: &Record, answer: Status) -> (r: Result<Status, ControlError>)
    ensures
        match r {
            Ok(status) => status == answer && answer@.identity == record@.identity,
            Err(e) => e == ControlError::IdentityMismatch && answer@.identity != record@.identity,
        },
{
    if same_text(answer.identity.as_str(), record.identity.as_str()) {
        Ok(answer)
    } else {
        Err(ControlError::IdentityMismatch)
    }
}

/// The most bytes that are read of a message.
pub const MESSAGE_LIMIT: usize = 65536;

/// The byte that ends a message.
pub const NEWLINE: u8 = 10;

/// Ends a message.
pub fn write_json(json: &[u8]) -> (r: Vec<u8>)
    ensures
        r@ == json@.push(NEWLINE),
{
    let mut message = copy_bytes(json);
    message.push(NEWLINE);
    message
}

/// The bytes up to the first end of a message, or all of them.
pub open spec fn up_to_newline(input: Seq<u8>) -> Seq<u8>
    decreases input.len(),
{
    if input.len() == 0 {
        Seq::empty()
    } else if input[0] == NEWLINE {
        seq![NEWLINE]
    } else {
        seq![input[0]] + up_to_newline(input.drop_first())
    }
}

/// What is read as a message: the first line, as far as it is not too long.
pub open spec fn message_of(input: Seq<u8>) -> Seq<u8> {
    if input.len() > MESSAGE_LIMIT {
        up_to_newline(input.take(MESSAGE_LIMIT as int))
    } else {
        up_to_newline(input)
    }
}

proof fn lemma_up_to_newline(input: Seq<u8>, count: int)
    requires
        0 <= count < input.len(),
        input[count] == NEWLINE,
        forall|i: int| 0 <= i < count ==> input[i] != NEWLINE,
    ensures
        up_to_newline(input) == input.take(count + 1),
    decreases input.len(),
{
    if count == 0 {
        assert(input.take(1) =~= seq![NEWLINE]);
    } else {
        lemma_up_to_newline(input.drop_first(), count - 1);
        assert(input.take(count + 1) =~= seq![input[0]] + input.drop_first().take(count));
    }
}

proof fn lemma_no_newline(input: Seq<u8>)
    requires
        forall|i: int| 0 <= i < input.len() ==> input[i] != NEWLINE,
    ensures
        up_to_newline(input) == input,
    decreases input.len(),
{
    if input.len() == 0 {
        assert(input =~= Seq::empty());
    } else {
        lemma_no_newline(input.drop_first());
        assert(input =~= seq![input[0]] + input.drop_first());
    }
}

/// Takes the first message out of what came in, if it is text.
pub fn read_json(input: &[u8]) -> (r: Option<String>)
    ensures
        match r {
            Some(text) => valid_utf8(message_of(input@)) && text@ == decode_utf8(
                message_of(input@),
            ),
            None => !valid_utf8(message_of(input@)),
        },
{
    let most: usize = if input.len() > MESSAGE_LIMIT {
        MESSAGE_LIMIT
    } else {
        input.len()
    };
    let ghost part = input@.take(most as int);
    assert(input.len() <= MESSAGE_LIMIT ==> part =~= input@);
    let mut line: Vec<u8> = Vec::new();
    let mut i: usize = 0;
    let mut ended = false;
    while i < most && !ended
        invariant
            i <= most <= input@.len(),
            part == input@.take(most as int),
            line@ == input@.take(i as int),
            !ended ==> forall|j: int| 0 <= j < i ==> input@[j] != NEWLINE,
            ended ==> i > 0 && input@[i - 1] == NEWLINE && forall|j: int|
                0 <= j < i - 1 ==> input@[j] != NEWLINE,
        decreases most - i,
    {
        let b = input[i];
        line.push(b);
        assert(input@.take(i + 1) =~= input@.take(i as int).push(b));
        ended = b == NEWLINE;
        i = i + 1;
    }
    proof {
        if ended {
            lemma_up_to_newline(part, i - 1);
            assert(part.take(i as int) =~= input@.take(i as int));
        } else {
            lemma_no_newline(part);
        }
    }
    utf8_text(line)
}

/// A message arrives as it was sent, whatever comes after it, unless it holds an
/// end or is too long.
pub proof fn law_messages_arrive(json: Seq<u8>, after: Seq<u8>)
    requires
        !json.contains(NEWLINE),
        json.len() < MESSAGE_LIMIT,
    ensures
        message_of(json.push(NEWLINE) + after) == json.push(NEWLINE),
{
    let input = json.push(NEWLINE) + after;
    let part = if input.len() > MESSAGE_LIMIT {
        input.take(MESSAGE_LIMIT as int)
    } else {
        input
    };
    assert forall|i: int| 0 <= i < json.len() implies part[i] != NEWLINE by {
        assert(part[i] == json[i]);
        assert(json.contains(json[i]));
    }
    lemma_up_to_newline(part, json.len() as int);
    assert(part.take(json.len() + 1int) =~= json.push(NEWLINE));
}

/// Whether an instance is not in use.
pub open spec fn is_unused(status: StatusModel) -> bool {
    status.sessions == 0 && status.requests == 0
}

/// How an instance is, in a word.
pub open spec fn condition(status: StatusModel) -> Seq<char> {
    if status.stopping {
        "stopping"@
    } else if is_unused(status) {
        "unused"@
    } else {
        "active"@
    }
}

/// A line about an instance that answers.
pub open spec fn status_line_of(record: RecordModel, status: StatusModel) -> Seq<char> {
    record.url + " pid="@ + decimal_of(record.pid) + " sessions="@ + decimal_of(status.sessions)
        + " requests="@ + decimal_of(status.requests) + " idle="@ + decimal_of(status.idle_seconds)
        + "s "@ + condition(status)
}

/// Writes a line about an instance that answers.
pub fn status_line(record: &Record, status: &Status) -> (r: String)
    ensures
        r@ == status_line_of(record@, status@),
{
    let mut r = record.url.clone();
    r.append(" pid=");
    r.append(decimal(record.pid as u64).as_str());
    r.append(" sessions=");
    r.append(decimal(status.sessions as u64).as_str());
    r.append(" requests=");
    r.append(decimal(status.requests as u64).as_str());
    r.append(" idle=");
    r.append(decimal(status.idle_seconds).as_str());
    r.append("s ");
    if status.stopping {
        r.append("stopping");
    } else if status.sessions == 0 && status.requests == 0 {
        r.append("unused");
    } else {
        r.append("active");
    }
    r
}

/// Writes a line about an instance that does not answer.
pub fn unavailable_line(record: &Record) -> (r: String)
    ensures
        r@ == record@.url + " unavailable (not terminated)"@,
{
    let mut r = record.url.clone();
    r.append(" unavailable (not terminated)");
    r
}

/// Says what came of asking an instance to stop if it is not in use.
pub fn prune_line(stopped: bool) -> (r: &'static str)
    ensures
        r@ == (if stopped {
            "  stopping"@
        } else {
            "  became active; kept"@
        }),
{
    if stopped {
        "  stopping"
    } else {
        "  became active; kept"
    }
}

/// What is done with an instance after it was shown.
#[derive(Clone, Copy, Debug, PartialEq, Eq, Structural)]
pub enum Pruning {
    /// Nothing.
    Keep,
    /// It is asked to stop, if it is still not in use.
    AskToStop,
    /// What it left behind is removed, if nothing holds its lock.
    SweepIfDead,
}

/// What is done with an instance after it was shown: only the command that
/// prunes does anything, and nothing to one in use.
pub open spec fn pruning_of(prune: bool, dry_run: bool, status: Option<StatusModel>) -> Pruning {
    if !prune || dry_run {
        Pruning::Keep
    } else {
        match status {
            Some(s) => if is_unused(s) {
                Pruning::AskToStop
            } else {
                Pruning::Keep
            },
            None => Pruning::SweepIfDead,
        }
    }
}

/// Decides what is done with an instance after it was shown. One that does not
/// answer has no status.
pub fn list_or_prune(prune: bool, dry_run: bool, status: Option<&Status>) -> (r: Pruning)
    ensures
        r == pruning_of(
            prune,
            dry_run,
            match status {
                Some(s) => Some(s@),
                None => None,
            },
        ),
{
    if !prune || dry_run {
        return Pruning::Keep;
    }
    match status {
        Some(s) => if s.sessions == 0 && s.requests == 0 {
            Pruning::AskToStop
        } else {
            Pruning::Keep
        },
        None => Pruning::SweepIfDead,
    }
}

/// Neither a list nor a dry run touches an instance, and pruning touches none in
/// use.
pub proof fn law_pruning_spares_used_instances(
    prune: bool,
    dry_run: bool,
    status: Option<StatusModel>,
)
    ensures
        !prune || dry_run ==> pruning_of(prune, dry_run, status) == Pruning::Keep,
        status matches Some(s) && !is_unused(s) ==> pruning_of(prune, dry_run, status)
            == Pruning::Keep,
{
}

/// What comes of the command that stops a proxy.
#[derive(Clone, Copy, Debug, PartialEq, Eq, Structural)]
pub enum Stopping {
    /// It stops.
    Stops,
    /// It is in use.
    InUse,
    /// There is none.
    NoProxy,
}

impl Stopping {
    /// What the user is told of the proxy at an address.
    pub open spec fn text(self, url: Seq<char>) -> Seq<char> {
        match self {
            Stopping::Stops => "stopping "@ + url,
            Stopping::InUse => "proxy is in use; close its Codex sessions before stopping"@,
            Stopping::NoProxy => "no registered proxy for this key and configuration"@,
        }
    }

    /// What the user is told of the proxy at an address.
    pub fn message(&self, url: &str) -> (r: String)
        ensures
            r@ == self.text(url@),
    {
        match self {
            Stopping::Stops => {
                let mut r = "stopping ".to_owned();
                r.append(url);
                r
            },
            Stopping::InUse => "proxy is in use; close its Codex sessions before stopping"
                .to_owned(),
            Stopping::NoProxy => "no registered proxy for this key and configuration".to_owned(),
        }
    }
}

/// Whether a record tells of the instance with a name.
pub fn is_record_of(record: &Record, id: &str) -> (r: bool)
    ensures
        r == (record@.identity == id@),
{
    same_text(record.identity.as_str(), id)
}

/// Whether a record tells of the very instance that was started with a token.
pub fn is_record_of_start(record: &Record, id: &str, token: &str) -> (r: bool)
    ensures
        r == (record@.identity == id@ && record@.token == token@),
{
    same_text(record.identity.as_str(), id) && same_text(record.token.as_str(), token)
}

/// Says what comes of stopping a proxy: whether there is a record of it, and
/// how it answered.
pub fn stop_outcome(known: bool, stopped: bool) -> (r: Stopping)
    ensures
        r == (if !known {
            Stopping::NoProxy
        } else if stopped {
            Stopping::Stops
        } else {
            Stopping::InUse
        }),
{
    if !known {
        Stopping::NoProxy
    } else if stopped {
        Stopping::Stops
    } else {
        Stopping::InUse
    }
}

/// What is read as a message is the beginning of what came in: as far as the first
/// end of a line, or 65536 bytes, or all of it, whichever is shortest.
pub proof fn law_messages_end_at_the_line(input: Seq<u8>, i: int)
    ensures
        ({
            let message = message_of(input);
            &&& message.is_prefix_of(input)
            &&& message.len() <= 65536
            &&& 0 <= i < message.len() - 1 ==> message[i] != 10
            &&& message.len() < input.len() && message.len() < 65536 ==> message.len() > 0
                && message.last() == 10
        }),
{
    let part = if input.len() > MESSAGE_LIMIT {
        input.take(MESSAGE_LIMIT as int)
    } else {
        input
    };
    lemma_message(part);
    let message = message_of(input);
    assert(input.subrange(0, message.len() as int) =~= part.subrange(0, message.len() as int));
}

proof fn lemma_message(part: Seq<u8>)
    ensures
        up_to_newline(part).len() <= part.len(),
        up_to_newline(part) == part.subrange(0, up_to_newline(part).len() as int),
        forall|i: int| 0 <= i < up_to_newline(part).len() - 1 ==> up_to_newline(part)[i] != 10,
        up_to_newline(part).len() < part.len() ==> up_to_newline(part).len() > 0
            && up_to_newline(part).last() == 10,
    decreases part.len(),
{
    if part.len() > 0 && part[0] != NEWLINE {
        let rest = part.drop_first();
        lemma_message(rest);
        let all = up_to_newline(part);
        let fewer = up_to_newline(rest);
        assert(all == seq![part[0]] + fewer);
        assert forall|i: int| 0 <= i < all.len() - 1 implies all[i] != 10 by {
            if i > 0 {
                assert(all[i] == fewer[i - 1]);
            }
        }
        assert forall|i: int| 0 <= i < all.len() implies all[i] == part[i] by {
            if i > 0 {
                assert(all[i] == fewer[i - 1]);
                assert(fewer[i - 1] == rest.subrange(0, fewer.len() as int)[i - 1]);
            }
        }
        assert(all =~= part.subrange(0, all.len() as int));
        if fewer.len() > 0 {
            assert(all.last() == fewer.last());
        }
    }
    assert(up_to_newline(part) =~= part.subrange(0, up_to_newline(part).len() as int));
}

/// An instance that neither a launcher nor a request uses is unused, and pruning
/// asks each such instance to stop, however long it has been unused and whether it
/// is stopping already or not; what a dead one left is swept away.
pub proof fn law_unused_instances_are_pruned(status: StatusModel)
    ensures
        is_unused(status) <==> status.sessions == 0 && status.requests == 0,
        status.sessions == 0 && status.requests == 0 ==> pruning_of(true, false, Some(status))
            == Pruning::AskToStop,
        status.sessions > 0 || status.requests > 0 ==> pruning_of(true, false, Some(status))
            == Pruning::Keep,
        pruning_of(true, false, None) == Pruning::SweepIfDead,
{
}

/// The word for an instance: one on its way out is stopping, whatever else holds;
/// one that goes on is active as long as anything uses it.
pub proof fn law_conditions_are_told_apart(status: StatusModel)
    ensures
        condition(status) == "stopping"@ <==> status.stopping,
        condition(status) == "active"@ <==> !status.stopping && (status.sessions > 0
            || status.requests > 0),
        condition(status) == "unused"@ <==> !status.stopping && status.sessions == 0
            && status.requests == 0,
{
    reveal_strlit("stopping");
    reveal_strlit("active");
    reveal_strlit("unused");
    assert("stopping"@.len() == 8 && "active"@.len() == 6 && "unused"@.len() == 6);
    assert("active"@[0] != "unused"@[0]);
}

/// A line about an instance tells its address, its process, how many launchers and
/// requests it has, and how long it has been idle, each number in full.
pub proof fn law_lines_tell_each_number(record: RecordModel, status: StatusModel)
    ensures
        ({
            let line = status_line_of(record, status);
            let pid = decimal_of(record.pid);
            let sessions = decimal_of(status.sessions);
            let requests = decimal_of(status.requests);
            let idle = decimal_of(status.idle_seconds);
            &&& line == record.url + (" pid="@ + pid + (" sessions="@ + sessions + (" requests="@
                + requests + (" idle="@ + idle + ("s "@ + condition(status))))))
            &&& record.url.is_prefix_of(line)
            &&& condition(status).is_suffix_of(line)
        }),
{
    let line = status_line_of(record, status);
    let pid = decimal_of(record.pid);
    let sessions = decimal_of(status.sessions);
    let requests = decimal_of(status.requests);
    let idle = decimal_of(status.idle_seconds);
    let word = condition(status);
    let made = record.url + (" pid="@ + pid + (" sessions="@ + sessions + (" requests="@ + requests
        + (" idle="@ + idle + ("s "@ + word)))));
    assert(line =~= made);
    assert(line.subrange(0, record.url.len() as int) =~= record.url);
    assert(line.subrange(line.len() - word.len(), line.len() as int) =~= word);
}

/// What a user is told of a proxy that stops names its address.
pub proof fn law_stopping_names_the_address(url: Seq<char>)
    ensures
        Stopping::Stops.text(url) == "stopping "@ + url,
        url.is_suffix_of(Stopping::Stops.text(url)),
{
    let text = Stopping::Stops.text(url);
    assert(text.subrange(text.len() - url.len(), text.len() as int) =~= url);
}

} // verus!
