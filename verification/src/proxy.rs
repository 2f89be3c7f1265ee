//! What the proxy does with a request: where it goes, how often it is sent and
//! what the client gets.

use vstd::prelude::*;
use vstd::string::*;

use crate::pacing::{doublings, doublings_of, retry_delay, retry_delay_of, Pause, LONGEST};
use crate::settings::{Settings, SettingsModel};
use crate::text::{ends_with, same_text, starts_with, starts_with_char};

verus! {

/// Where a request goes: its path and query behind the base. A `/v1` that both
/// have stands there once.
pub open spec fn target_url(base: Seq<char>, path_and_query: Option<Seq<char>>) -> Seq<char> {
    let path = match path_and_query {
        Some(p) => p,
        None => "/"@,
    };
    if "/v1"@.is_suffix_of(base) && "/v1/"@.is_prefix_of(path) {
        base + path.skip(3)
    } else if path.len() > 0 && path[0] == '/' {
        base + path
    } else {
        base + "/"@ + path
    }
}

/// Says where a request goes.
pub fn build_target_url(base: &str, path_and_query: Option<&str>) -> (r: String)
    ensures
        r@ == target_url(
            base@,
            match path_and_query {
                Some(p) => Some(p@),
                None => None,
            },
        ),
{
    let path = match path_and_query {
        Some(p) => p,
        None => "/",
    };
    let mut r = base.to_owned();
    if ends_with(base, "/v1") && starts_with(path, "/v1/") {
        proof {
            reveal_strlit("/v1/");
        }
        let n = path.unicode_len();
        assert(path@.subrange(3, n as int) =~= path@.skip(3));
        r.append(path.substring_char(3, n));
    } else if starts_with_char(path, '/') {
        r.append(path);
    } else {
        r.append("/");
        r.append(path);
    }
    r
}

/// A base that ends with `/v1` and a path that begins with `/v1/` join without
/// saying `/v1` twice.
pub proof fn law_v1_is_not_doubled(host: Seq<char>, rest: Seq<char>)
    requires
        rest.len() > 0,
        rest[0] == '/',
    ensures
        target_url(host + "/v1"@, Some("/v1"@ + rest)) == host + "/v1"@ + rest,
{
    reveal_strlit("/v1");
    reveal_strlit("/v1/");
    let base = host + "/v1"@;
    let path = "/v1"@ + rest;
    assert(base.subrange(host.len() as int, base.len() as int) =~= "/v1"@);
    assert(path.subrange(0, 4) =~= "/v1/"@);
    assert(path.skip(3) =~= rest);
}

/// Whatever the request, it goes to the upstream: the base comes first.
pub proof fn law_requests_go_to_the_base(base: Seq<char>, path_and_query: Option<Seq<char>>)
    ensures
        base.is_prefix_of(target_url(base, path_and_query)),
{
    let url = target_url(base, path_and_query);
    assert(url.subrange(0, base.len() as int) =~= base);
}

/// A reply that the proxy makes itself.
#[derive(Clone, Copy, Debug, PartialEq, Eq, Structural)]
pub enum Reply {
    /// The proxy is there.
    Healthy,
    /// The body of the request could not be read.
    BodyUnreadable,
    /// The upstream could not be reached.
    UpstreamFailed,
    /// The proxy is on its way out.
    Stopping,
    /// Something came at the wrong time.
    Unexpected,
}

impl Reply {
    /// The status code.
    pub open spec fn status_code(self) -> u16 {
        match self {
            Reply::Healthy => 200,
            Reply::BodyUnreadable => 400,
            Reply::UpstreamFailed => 502,
            Reply::Stopping => 503,
            Reply::Unexpected => 500,
        }
    }

    /// The kind of the content.
    pub open spec fn content_type_text(self) -> Seq<char> {
        match self {
            Reply::Healthy => "application/json"@,
            _ => "text/plain; charset=utf-8"@,
        }
    }

    /// The content.
    pub open spec fn body_text(self) -> Seq<char> {
        match self {
            Reply::Healthy => "{\"status\":\"ok\"}\n"@,
            Reply::BodyUnreadable => "Could not read request body\n"@,
            Reply::UpstreamFailed => "Upstream connection failed\n"@,
            Reply::Stopping => "Proxy is stopping\n"@,
            Reply::Unexpected => "Retry loop ended unexpectedly\n"@,
        }
    }

    /// The status code.
    pub fn status(&self) -> (r: u16)
        ensures
            r == self.status_code(),
    {
        match self {
            Reply::Healthy => 200,
            Reply::BodyUnreadable => 400,
            Reply::UpstreamFailed => 502,
            Reply::Stopping => 503,
            Reply::Unexpected => 500,
        }
    }

    /// The kind of the content.
    pub fn content_type(&self) -> (r: &'static str)
        ensures
            r@ == self.content_type_text(),
    {
        match self {
            Reply::Healthy => "application/json",
            Reply::BodyUnreadable => "text/plain; charset=utf-8",
            Reply::UpstreamFailed => "text/plain; charset=utf-8",
            Reply::Stopping => "text/plain; charset=utf-8",
            Reply::Unexpected => "text/plain; charset=utf-8",
        }
    }

    /// The content.
    pub fn body(&self) -> (r: &'static str)
        ensures
            r@ == self.body_text(),
    {
        match self {
            Reply::Healthy => "{\"status\":\"ok\"}\n",
            Reply::BodyUnreadable => "Could not read request body\n",
            Reply::UpstreamFailed => "Upstream connection failed\n",
            Reply::Stopping => "Proxy is stopping\n",
            Reply::Unexpected => "Retry loop ended unexpectedly\n",
        }
    }
}

/// Whether a request asks the proxy itself how it is.
pub open spec fn asks_health(method: Seq<char>, path: Seq<char>) -> bool {
    method == "GET"@ && path == "/health"@
}

/// Whether a request asks the proxy itself how it is.
pub fn is_health_request(method: &str, path: &str) -> (r: bool)
    ensures
        r == asks_health(method@, path@),
{
    same_text(method, "GET") && same_text(path, "/health")
}

/// How far a request has come. Attempts count from zero.
#[derive(Clone, Copy, Debug, PartialEq, Eq, Structural)]
pub enum Progress {
    /// Its body is being read.
    ReadingBody,
    /// It waits for its turn.
    AwaitingTurn(u32),
    /// It has been sent.
    Sent(u32),
    /// It was refused and is to be sent again.
    Refused(u32),
    /// It waits to be sent again.
    BackingOff(u32),
    /// The client has its answer.
    Done,
}

/// What happened to a request.
#[derive(Clone, Copy, Debug, PartialEq, Eq, Structural)]
pub enum Event {
    /// The proxy takes no request any more.
    Stopping,
    /// The body was read.
    BodyRead,
    /// The body could not be read, or is too large.
    BodyFailed,
    /// The turn came.
    TurnCame,
    /// The upstream answered.
    Answered {
        /// The status code.
        status: u16,
    },
    /// It is known what the wait depends on.
    Weighed(Pause),
    /// The upstream could not be reached.
    ConnectionFailed,
    /// The wait is over.
    Waited,
}

/// What is to be done with a request.
#[derive(Clone, Copy, Debug, PartialEq, Eq, Structural)]
pub enum Action {
    /// Answer the client.
    Respond(Reply),
    /// Read the body.
    ReadBody,
    /// Wait for the turn.
    TakeTurn,
    /// Send the request to the upstream.
    Send,
    /// Find out what the wait depends on.
    Weigh {
        /// How often the first wait is doubled.
        doublings: u32,
    },
    /// Wait this many nanoseconds.
    Wait(u128),
    /// Hand the upstream's answer on.
    Relay,
}

/// The status code that refuses a request for its rate.
pub const TOO_MANY_REQUESTS: u16 = 429;

/// What is done with a request when it comes.
pub open spec fn first_step(method: Seq<char>, path: Seq<char>) -> (Progress, Action) {
    if asks_health(method, path) {
        (Progress::Done, Action::Respond(Reply::Healthy))
    } else {
        (Progress::ReadingBody, Action::ReadBody)
    }
}

/// Decides what is done with a request when it comes.
pub fn receive(method: &str, path: &str) -> (r: (Progress, Action))
    ensures
        r == first_step(method@, path@),
{
    if is_health_request(method, path) {
        (Progress::Done, Action::Respond(Reply::Healthy))
    } else {
        (Progress::ReadingBody, Action::ReadBody)
    }
}

/// Whether an event says times that a clock can measure.
pub open spec fn is_timely(event: Event) -> bool {
    event matches Event::Weighed(pause) ==> pause.is_timely()
}

/// Whether a request that was refused is sent again.
pub open spec fn is_retried(max_retries: nat, attempt: u32, status: u16) -> bool {
    status == TOO_MANY_REQUESTS && attempt < max_retries
}

/// What is done with a request when something happened to it.
pub open spec fn next_step(settings: SettingsModel, progress: Progress, event: Event) -> (
    Progress,
    Action,
) {
    match (progress, event) {
        (Progress::ReadingBody, Event::Stopping) => (
            Progress::Done,
            Action::Respond(Reply::Stopping),
        ),
        (Progress::ReadingBody, Event::BodyRead) => (Progress::AwaitingTurn(0), Action::TakeTurn),
        (Progress::ReadingBody, Event::BodyFailed) => (
            Progress::Done,
            Action::Respond(Reply::BodyUnreadable),
        ),
        (Progress::AwaitingTurn(attempt), Event::TurnCame) => (
            Progress::Sent(attempt),
            Action::Send,
        ),
        (Progress::Sent(attempt), Event::ConnectionFailed) => (
            Progress::Done,
            Action::Respond(Reply::UpstreamFailed),
        ),
        (Progress::Sent(attempt), Event::Answered { status }) => if is_retried(
            settings.max_retries,
            attempt,
            status,
        ) {
            (
                Progress::Refused(attempt),
                Action::Weigh { doublings: doublings_of(attempt as nat) as u32 },
            )
        } else {
            (Progress::Done, Action::Relay)
        },
        (Progress::Refused(attempt), Event::Weighed(pause)) => (
            Progress::BackingOff(attempt),
            Action::Wait(retry_delay_of(settings, attempt as nat, pause) as u128),
        ),
        (Progress::BackingOff(attempt), Event::Waited) => if attempt < settings.max_retries {
            (Progress::AwaitingTurn((attempt + 1) as u32), Action::TakeTurn)
        } else {
            (Progress::Done, Action::Respond(Reply::Unexpected))
        },
        _ => (Progress::Done, Action::Respond(Reply::Unexpected)),
    }
}

/// Decides what is done with a request when something happened to it.
pub fn proxy_request(settings: &Settings, progress: Progress, event: Event) -> (r: (
    Progress,
    Action,
))
    requires
        settings.backoff_max <= LONGEST,
        settings.backoff_jitter <= LONGEST,
        is_timely(event),
    ensures
        r == next_step(settings@, progress, event),
{
    match (progress, event) {
        (Progress::ReadingBody, Event::Stopping) => (
            Progress::Done,
            Action::Respond(Reply::Stopping),
        ),
        (Progress::ReadingBody, Event::BodyRead) => (Progress::AwaitingTurn(0), Action::TakeTurn),
        (Progress::ReadingBody, Event::BodyFailed) => (
            Progress::Done,
            Action::Respond(Reply::BodyUnreadable),
        ),
        (Progress::AwaitingTurn(attempt), Event::TurnCame) => (
            Progress::Sent(attempt),
            Action::Send,
        ),
        (Progress::Sent(_), Event::ConnectionFailed) => (
            Progress::Done,
            Action::Respond(Reply::UpstreamFailed),
        ),
        (Progress::Sent(attempt), Event::Answered { status }) => {
            if status == TOO_MANY_REQUESTS && attempt < settings.max_retries {
                (Progress::Refused(attempt), Action::Weigh { doublings: doublings(attempt) })
            } else {
                (Progress::Done, Action::Relay)
            }
        },
        (Progress::Refused(attempt), Event::Weighed(pause)) => {
            let delay = retry_delay(settings, attempt, pause);
            (Progress::BackingOff(attempt), Action::Wait(delay))
        },
        (Progress::BackingOff(attempt), Event::Waited) => {
            if attempt < settings.max_retries {
                (Progress::AwaitingTurn(attempt + 1), Action::TakeTurn)
            } else {
                (Progress::Done, Action::Respond(Reply::Unexpected))
            }
        },
        _ => (Progress::Done, Action::Respond(Reply::Unexpected)),
    }
}

/// How often a request is sent in the course of some events.
pub open spec fn sends(settings: SettingsModel, progress: Progress, events: Seq<Event>) -> nat
    decreases events.len(),
{
    if events.len() == 0 {
        0
    } else {
        let (after, action) = next_step(settings, progress, events[0]);
        let here: nat = if action == Action::Send {
            1
        } else {
            0
        };
        here + sends(settings, after, events.drop_first())
    }
}

/// How often a request can still be sent.
pub open spec fn sends_left(settings: SettingsModel, progress: Progress) -> int {
    match progress {
        Progress::ReadingBody => settings.max_retries + 1int,
        Progress::AwaitingTurn(attempt) => settings.max_retries - attempt + 1int,
        Progress::Sent(attempt) => settings.max_retries - attempt,
        Progress::Refused(attempt) => settings.max_retries - attempt,
        Progress::BackingOff(attempt) => settings.max_retries - attempt,
        Progress::Done => 0,
    }
}

proof fn lemma_sends_are_bounded(settings: SettingsModel, progress: Progress, events: Seq<Event>)
    requires
        settings.max_retries <= u32::MAX,
        sends_left(settings, progress) >= 0,
        progress matches Progress::AwaitingTurn(attempt) ==> attempt <= settings.max_retries,
    ensures
        sends(settings, progress, events) <= sends_left(settings, progress),
    decreases events.len(),
{
    if events.len() > 0 {
        let (after, action) = next_step(settings, progress, events[0]);
        lemma_sends_are_bounded(settings, after, events.drop_first());
    }
}

/// However the upstream answers, a request is sent once and then again at most
/// `max_retries` times.
pub proof fn law_sends_are_bounded(settings: SettingsModel, events: Seq<Event>)
    requires
        settings.max_retries <= u32::MAX,
    ensures
        sends(settings, Progress::ReadingBody, events) <= settings.max_retries + 1,
{
    lemma_sends_are_bounded(settings, Progress::ReadingBody, events);
}

/// What comes of a request in the course of some events: how far it has come, and
/// what is done last.
pub open spec fn outcome(
    settings: SettingsModel,
    progress: Progress,
    action: Action,
    events: Seq<Event>,
) -> (Progress, Action)
    decreases events.len(),
{
    if events.len() == 0 {
        (progress, action)
    } else {
        let (after, next) = next_step(settings, progress, events[0]);
        outcome(settings, after, next, events.drop_first())
    }
}

/// What happens to a request, from its turn on, that is refused once for each
/// pause and then answered with a status.
pub open spec fn refused_then(pauses: Seq<Pause>, last: u16) -> Seq<Event>
    decreases pauses.len(),
{
    if pauses.len() == 0 {
        seq![Event::TurnCame, Event::Answered { status: last }]
    } else {
        seq![
            Event::TurnCame,
            Event::Answered { status: TOO_MANY_REQUESTS },
            Event::Weighed(pauses[0]),
            Event::Waited,
        ] + refused_then(pauses.drop_first(), last)
    }
}

proof fn lemma_refused_then(
    settings: SettingsModel,
    attempt: u32,
    action: Action,
    pauses: Seq<Pause>,
    last: u16,
)
    requires
        settings.max_retries <= u32::MAX,
        attempt + pauses.len() <= settings.max_retries,
        last != TOO_MANY_REQUESTS || attempt + pauses.len() == settings.max_retries,
    ensures
        sends(settings, Progress::AwaitingTurn(attempt), refused_then(pauses, last)) == pauses.len()
            + 1,
        outcome(settings, Progress::AwaitingTurn(attempt), action, refused_then(pauses, last)) == (
            Progress::Done,
            Action::Relay,
        ),
    decreases pauses.len(),
{
    reveal_with_fuel(sends, 5);
    reveal_with_fuel(outcome, 5);
    let events = refused_then(pauses, last);
    if pauses.len() == 0 {
        assert(events.drop_first() =~= seq![Event::Answered { status: last }]);
        assert(events.drop_first().drop_first() =~= Seq::empty());
    } else {
        let rest = refused_then(pauses.drop_first(), last);
        assert(events[0] == Event::TurnCame);
        assert(events.drop_first()[0] == Event::Answered { status: TOO_MANY_REQUESTS });
        assert(events.drop_first().drop_first()[0] == Event::Weighed(pauses[0]));
        assert(events.drop_first().drop_first().drop_first()[0] == Event::Waited);
        assert(events.drop_first().drop_first().drop_first().drop_first() =~= rest);
        lemma_refused_then(
            settings,
            (attempt + 1) as u32,
            Action::TakeTurn,
            pauses.drop_first(),
            last,
        );
    }
}

/// A request that is refused is sent again until another answer comes or
/// `max_retries` are used up: each refusal before that costs one send, and the
/// answer to the last send is handed on, a refusal too.
pub proof fn law_refusals_are_retried_to_the_end(
    settings: SettingsModel,
    pauses: Seq<Pause>,
    last: u16,
)
    requires
        settings.max_retries <= u32::MAX,
        pauses.len() <= settings.max_retries,
        last != TOO_MANY_REQUESTS || pauses.len() == settings.max_retries,
    ensures
        ({
            let events = seq![Event::BodyRead] + refused_then(pauses, last);
            &&& sends(settings, Progress::ReadingBody, events) == pauses.len() + 1
            &&& outcome(settings, Progress::ReadingBody, Action::ReadBody, events) == (
                Progress::Done,
                Action::Relay,
            )
        }),
{
    let rest = refused_then(pauses, last);
    let events = seq![Event::BodyRead] + rest;
    assert(events[0] == Event::BodyRead);
    assert(events.drop_first() =~= rest);
    lemma_refused_then(settings, 0, Action::TakeTurn, pauses, last);
}

/// Whether the upstream refused a request for its rate.
pub open spec fn is_refusal(event: Event) -> bool {
    event matches Event::Answered { status, .. } && status == TOO_MANY_REQUESTS
}

/// A request is sent only when its turn came, and only after a refusal for its
/// rate is it sent again; every other answer is handed on.
pub proof fn law_only_refusals_are_retried(
    settings: SettingsModel,
    progress: Progress,
    event: Event,
)
    ensures
        next_step(settings, progress, event).1 == Action::Send ==> event == Event::TurnCame,
        next_step(settings, progress, event).1 is Wait ==> progress is Refused,
        next_step(settings, progress, event).0 is Refused ==> progress is Sent && is_refusal(event),
        progress is Sent && event is Answered && !is_refusal(event) ==> next_step(
            settings,
            progress,
            event,
        ) == (Progress::Done, Action::Relay),
{
}

/// A refused request is sent again no sooner than the upstream asked.
pub proof fn law_wait_respects_the_upstream(settings: SettingsModel, attempt: u32, pause: Pause)
    requires
        settings.backoff_max <= LONGEST,
        settings.backoff_jitter <= LONGEST,
        pause.is_timely(),
    ensures
        next_step(settings, Progress::Refused(attempt), Event::Weighed(pause)).1 matches Action::Wait(
            delay,
        ) && delay >= pause.asked(),
{
    crate::pacing::law_retry_after_is_kept(settings, attempt as nat, pause);
}

/// The whole path and query arrive: unless a `/v1` would be doubled, a path that
/// begins with a slash stands unchanged behind the base, any other path behind the
/// base and a slash, and where there is none a slash stands in its place.
pub proof fn law_path_and_query_arrive(base: Seq<char>, path: Seq<char>)
    ensures
        !("/v1"@.is_suffix_of(base) && "/v1/"@.is_prefix_of(path)) && path.len() > 0 && path[0]
            == '/' ==> {
            let url = target_url(base, Some(path));
            &&& url == base + path
            &&& url.len() == base.len() + path.len()
            &&& path.is_suffix_of(url)
        },
        path.len() == 0 || path[0] != '/' ==> target_url(base, Some(path)) == base + seq!['/']
            + path,
        target_url(base, None) == base + seq!['/'],
{
    reveal_strlit("/");
    reveal_strlit("/v1/");
    assert("/"@ =~= seq!['/']);
    assert(path.is_suffix_of(base + path)) by {
        assert((base + path).subrange(base.len() as int, (base + path).len() as int) =~= path);
    }
    if "/v1/"@.is_prefix_of(path) {
        assert("/v1/"@[0] == path[0]);
    }
    assert(!"/v1/"@.is_prefix_of("/"@));
}

/// Requests that differ in their path or query go to different places, unless one
/// begins with the slash that the other lacks, or with the `/v1` that the base
/// already ends with.
pub proof fn law_requests_stay_apart(base: Seq<char>, path: Seq<char>, other: Seq<char>)
    requires
        path.len() > 0,
        path[0] == '/',
        other.len() > 0,
        other[0] == '/',
        !"/v1"@.is_suffix_of(base),
        path != other,
    ensures
        target_url(base, Some(path)) != target_url(base, Some(other)),
{
    law_path_and_query_arrive(base, path);
    law_path_and_query_arrive(base, other);
    assert((base + path).skip(base.len() as int) =~= path);
    assert((base + other).skip(base.len() as int) =~= other);
}

/// The proxy answers a request itself only where it is a GET of exactly `/health`;
/// of every other one it reads the body first.
pub proof fn law_only_health_is_answered_here(method: Seq<char>, path: Seq<char>)
    ensures
        method == "GET"@ && path == "/health"@ ==> first_step(method, path) == (
            Progress::Done,
            Action::Respond(Reply::Healthy),
        ),
        !(method == "GET"@ && path == "/health"@) ==> first_step(method, path) == (
            Progress::ReadingBody,
            Action::ReadBody,
        ),
{
}

/// A request whose body was read waits for its turn as attempt number zero, is
/// sent as the same attempt when the turn comes, and after a refusal and the wait
/// is the next attempt.
pub proof fn law_attempts_count_up(
    settings: SettingsModel,
    attempt: u32,
    status: u16,
    pause: Pause,
)
    requires
        settings.max_retries <= u32::MAX,
    ensures
        next_step(settings, Progress::ReadingBody, Event::BodyRead) == (
            Progress::AwaitingTurn(0),
            Action::TakeTurn,
        ),
        next_step(settings, Progress::AwaitingTurn(attempt), Event::TurnCame) == (
            Progress::Sent(attempt),
            Action::Send,
        ),
        status == 429 && attempt < settings.max_retries ==> {
            let (after, action) = next_step(
                settings,
                Progress::Sent(attempt),
                Event::Answered { status },
            );
            &&& after == Progress::Refused(attempt)
            &&& action matches Action::Weigh { doublings } && doublings == if attempt < 30 {
                attempt
            } else {
                30
            }
        },
        status != 429 || attempt >= settings.max_retries ==> next_step(
            settings,
            Progress::Sent(attempt),
            Event::Answered { status },
        ) == (Progress::Done, Action::Relay),
        next_step(settings, Progress::Refused(attempt), Event::Weighed(pause)).0
            == Progress::BackingOff(attempt),
        attempt < settings.max_retries ==> next_step(
            settings,
            Progress::BackingOff(attempt),
            Event::Waited,
        ) == (Progress::AwaitingTurn((attempt + 1) as u32), Action::TakeTurn),
        attempt >= settings.max_retries ==> next_step(
            settings,
            Progress::BackingOff(attempt),
            Event::Waited,
        ) == (Progress::Done, Action::Respond(Reply::Unexpected)),
{
}

/// Whatever goes wrong has its own answer: a body that cannot be read, a proxy
/// that is stopping, an upstream that cannot be reached. An answered request
/// needs nothing more.
pub proof fn law_failures_are_answered(settings: SettingsModel, attempt: u32, event: Event)
    ensures
        next_step(settings, Progress::ReadingBody, Event::BodyFailed) == (
            Progress::Done,
            Action::Respond(Reply::BodyUnreadable),
        ),
        next_step(settings, Progress::ReadingBody, Event::Stopping) == (
            Progress::Done,
            Action::Respond(Reply::Stopping),
        ),
        next_step(settings, Progress::Sent(attempt), Event::ConnectionFailed) == (
            Progress::Done,
            Action::Respond(Reply::UpstreamFailed),
        ),
        next_step(settings, Progress::Done, event) == (
            Progress::Done,
            Action::Respond(Reply::Unexpected),
        ),
{
}

/// Something that comes at the wrong time ends the request with an answer of its
/// own: nothing is sent and nothing is handed on for it.
pub proof fn law_nothing_comes_out_of_turn(
    settings: SettingsModel,
    progress: Progress,
    event: Event,
)
    requires
        !(progress is ReadingBody && (event is BodyRead || event is BodyFailed || event
            is Stopping)),
        !(progress is AwaitingTurn && event is TurnCame),
        !(progress is Sent && (event is Answered || event is ConnectionFailed)),
        !(progress is Refused && event is Weighed),
        !(progress is BackingOff && event is Waited),
    ensures
        next_step(settings, progress, event) == (
            Progress::Done,
            Action::Respond(Reply::Unexpected),
        ),
{
}

/// The wait before a request is sent again is the longer of the backoff for its
/// attempt and what the upstream asked, and no more than the range of the jitter
/// above that.
pub proof fn law_wait_follows_the_attempt(settings: SettingsModel, attempt: u32, pause: Pause)
    requires
        settings.backoff_max <= LONGEST,
        settings.backoff_jitter <= LONGEST,
        pause.is_timely(),
    ensures
        ({
            let waited = crate::pacing::backoff(
                settings.backoff_base,
                settings.backoff_max,
                attempt as nat,
                pause.backoff_read as nat,
            );
            next_step(
                settings,
                Progress::Refused(attempt),
                Event::Weighed(pause),
            ).1 matches Action::Wait(delay) && {
                &&& pause.asked() >= waited ==> pause.asked() <= delay <= pause.asked()
                    + settings.backoff_jitter
                &&& pause.asked() <= waited ==> waited <= delay <= waited
                    + settings.backoff_jitter
            }
        }),
{
    crate::pacing::law_wait_is_the_longer_of_two(settings, attempt as nat, pause);
    crate::pacing::law_retry_after_is_kept(settings, attempt as nat, pause);
}

/// Each answer of the proxy has the status that says what went wrong: only the
/// health answer is a success, only an unreadable body is the client's fault.
pub proof fn law_statuses_say_whose_fault_it_is(reply: Reply)
    ensures
        200 <= reply.status_code() < 300 <==> reply is Healthy,
        400 <= reply.status_code() < 500 <==> reply is BodyUnreadable,
        500 <= reply.status_code() < 600 <==> reply is UpstreamFailed || reply is Stopping || reply
            is Unexpected,
        Reply::Healthy.status_code() == 200,
        Reply::BodyUnreadable.status_code() == 400,
        Reply::UpstreamFailed.status_code() == 502,
        Reply::Stopping.status_code() == 503,
        Reply::Unexpected.status_code() == 500,
{
}

} // verus!
