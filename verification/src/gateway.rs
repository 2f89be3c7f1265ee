//! The shared entry point: it tells keys apart and hands each request to the
//! proxy of its key.

use axum::http::{HeaderMap, HeaderValue};
use vstd::prelude::*;
use vstd::string::*;
use vstd::utf8::encode_utf8;

use crate::digits::{decimal, decimal_of};
use crate::headers::{authorization_fields, bytes_of, header_fields, visible, visible_text};
use crate::identity::{fingerprint, fingerprint_of};
use crate::json::{json_field, json_pair, json_text, json_text_under};
use crate::keys::{is_api_key, validate_key};
use crate::proxy::{asks_health, is_health_request};
use crate::settings::Settings;
use crate::text::{lower, option_view, same_text, split_once, split_once_at, to_lower};

verus! {

/// An address of a machine.
#[derive(Clone, Copy, Debug, PartialEq, Eq, Structural)]
pub enum Ip {
    /// Four bytes.
    V4(u8, u8, u8, u8),
    /// Sixteen bytes, as a number.
    V6(u128),
}

/// Whether an address is that of the machine itself.
pub open spec fn is_loopback(ip: Ip) -> bool {
    match ip {
        Ip::V4(first, _, _, _) => first == 127,
        Ip::V6(n) => n == 1,
    }
}

/// Why there is no gateway.
#[derive(Clone, Copy, Debug, PartialEq, Eq, Structural)]
pub enum GatewayError {
    /// Others could reach it, or its port is not fixed.
    NotLoopback,
    /// None answers, or one with another configuration.
    Unavailable,
}

impl GatewayError {
    /// What the error says.
    pub open spec fn text(self) -> Seq<char> {
        match self {
            GatewayError::NotLoopback =>
                "gateway requires a loopback [server] host and a fixed nonzero port"@,
            GatewayError::Unavailable =>
                "shared gateway unavailable or configuration mismatch; start codex-rate-proxy gateway with the same INI"@,
        }
    }

    /// What the error says.
    pub fn message(&self) -> (r: String)
        ensures
            r@ == self.text(),
    {
        match self {
            GatewayError::NotLoopback =>
                "gateway requires a loopback [server] host and a fixed nonzero port".to_owned(),
            GatewayError::Unavailable =>
                "shared gateway unavailable or configuration mismatch; start codex-rate-proxy gateway with the same INI".to_owned(),
        }
    }
}

/// Writes where the settings say to listen.
pub fn listen_address(settings: &Settings) -> (r: String)
    ensures
        r@ == settings@.listen_host + ":"@ + decimal_of(settings@.listen_port),
{
    let mut r = settings.listen_host.clone();
    r.append(":");
    r.append(decimal(settings.listen_port as u64).as_str());
    r
}

/// Accepts an address for the gateway: of the machine itself, with a fixed port.
pub fn address(ip: Ip, port: u16) -> (r: Result<(), GatewayError>)
    ensures
        match r {
            Ok(()) => is_loopback(ip) && port != 0,
            Err(e) => e == GatewayError::NotLoopback && (!is_loopback(ip) || port == 0),
        },
{
    let loopback = match ip {
        Ip::V4(first, _, _, _) => first == 127,
        Ip::V6(n) => n == 1,
    };
    if loopback && port != 0 {
        Ok(())
    } else {
        Err(GatewayError::NotLoopback)
    }
}

/// Writes where clients reach the gateway at an address.
pub fn gateway_url(address: &str) -> (r: String)
    ensures
        r@ == "http://"@ + address@ + "/v1"@,
{
    let mut r = "http://".to_owned();
    r.append(address);
    r.append("/v1");
    r
}

/// Writes where the gateway at an address tells how it is.
pub fn health_url(address: &str) -> (r: String)
    ensures
        r@ == "http://"@ + address@ + "/health"@,
{
    let mut r = "http://".to_owned();
    r.append(address);
    r.append("/health");
    r
}

/// What a gateway tells of itself, given the name of its configuration.
pub open spec fn health_text(name: Seq<char>) -> Seq<char> {
    json_pair("config"@, name, "gateway"@, "codex-rate-proxy/1"@)
}

/// Writes what a gateway tells of itself.
pub fn health_body(config: &[u8], settings: &Settings) -> (r: String)
    ensures
        r@ == health_text(fingerprint_of(config@, encode_utf8(settings@.upstream_base_url))),
{
    let name = fingerprint(config, settings.upstream_base_url.as_str());
    let mut r = "{".to_owned();
    r.append(json_text("config").unwrap().as_str());
    r.append(":");
    r.append(json_text(name.as_str()).unwrap().as_str());
    r.append(",");
    r.append(json_text("gateway").unwrap().as_str());
    r.append(":");
    r.append(json_text("codex-rate-proxy/1").unwrap().as_str());
    r.append("}");
    r
}

/// The most bytes that are read of what a gateway tells.
pub const HEALTH_LIMIT: usize = 4096;

/// Adds a piece to what a gateway tells, unless that gets too long.
pub fn gather(data: &mut Vec<u8>, piece: &[u8]) -> (r: bool)
    requires
        old(data)@.len() <= HEALTH_LIMIT,
    ensures
        r == (old(data)@.len() + piece@.len() <= HEALTH_LIMIT),
        final(data)@ == (if r {
            old(data)@ + piece@
        } else {
            old(data)@
        }),
{
    if piece.len() > HEALTH_LIMIT - data.len() {
        return false;
    }
    data.extend_from_slice(piece);
    assert(data@ =~= old(data)@ + piece@);
    true
}

/// Whether what was told names a gateway with the expected configuration.
pub fn is_expected(gateway: Option<String>, config: Option<String>, expected: &str) -> (r: bool)
    ensures
        r == (option_view(gateway) == Some("codex-rate-proxy/1"@) && option_view(config) == Some(
            expected@,
        )),
{
    match gateway {
        Some(gateway) => match config {
            Some(config) => same_text(gateway.as_str(), "codex-rate-proxy/1") && same_text(
                config.as_str(),
                expected,
            ),
            None => false,
        },
        None => false,
    }
}

/// Decides whether a gateway that answered is the one that is looked for. What a
/// gateway tells of itself is accepted where the configurations have the same
/// name, and only there.
pub fn check(status: u16, data: &[u8], expected: &str) -> (r: Result<(), GatewayError>)
    ensures
        r is Ok <==> status == 200 && json_text_under(data@, "gateway"@) == Some(
            "codex-rate-proxy/1"@,
        ) && json_text_under(data@, "config"@) == Some(expected@),
        r matches Err(e) ==> e == GatewayError::Unavailable,
        forall|name: Seq<char>|
            status == 200 && data@ == encode_utf8(#[trigger] health_text(name)) ==> (r is Ok
                <==> name == expected@),
{
    if status != 200 {
        return Err(GatewayError::Unavailable);
    }
    let gateway = json_field(data, "gateway");
    let config = json_field(data, "config");
    proof {
        assert forall|name: Seq<char>|
            data@ == encode_utf8(#[trigger] health_text(name)) implies option_view(gateway)
            == Some("codex-rate-proxy/1"@) && option_view(config) == Some(name) by {
            assert(data@ == encode_utf8(
                json_pair("config"@, name, "gateway"@, "codex-rate-proxy/1"@),
            ));
        }
    }
    if is_expected(gateway, config, expected) {
        Ok(())
    } else {
        Err(GatewayError::Unavailable)
    }
}

/// The key that a request brings along: exactly one bearer token that is an API
/// key.
pub open spec fn bearer_of(values: Seq<Seq<u8>>) -> Option<Seq<char>> {
    if values.len() != 1 {
        None
    } else {
        match visible_text(values[0]) {
            None => None,
            Some(text) => match split_once_at(text, ' ') {
                None => None,
                Some((scheme, key)) => if lower(scheme) == "bearer"@ && is_api_key(key) {
                    Some(key)
                } else {
                    None
                },
            },
        }
    }
}

/// Finds the key that a request brings along.
pub fn bearer_key(headers: &HeaderMap<HeaderValue>) -> (r: Option<String>)
    ensures
        option_view(r) == bearer_of(bytes_of(header_fields(*headers), "authorization"@)),
        r matches Some(key) ==> is_api_key(key@),
{
    let values = authorization_fields(headers);
    let ghost all = bytes_of(header_fields(*headers), "authorization"@);
    assert(all.len() == values@.len());
    if values.len() != 1 {
        return None;
    }
    assert(all[0] == values@[0]@);
    let text = visible(values[0].as_slice())?;
    let (scheme, key) = split_once(text.as_str(), ' ')?;
    if same_text(to_lower(scheme).as_str(), "bearer") && validate_key(key).is_ok() {
        Some(key.to_owned())
    } else {
        None
    }
}

/// A reply that the gateway makes itself.
#[derive(Clone, Copy, Debug, PartialEq, Eq, Structural)]
pub enum Refusal {
    /// The request does not bring one key along.
    NoKey,
    /// Too many requests are under way.
    Busy,
    /// The body is too large or cannot be read.
    BodyRefused,
    /// The body does not come in time.
    BodyTimeout,
    /// There is no proxy for the key.
    NoWorker,
    /// The proxy of the key cannot be reached.
    WorkerFailed,
}

impl Refusal {
    /// The status code.
    pub open spec fn status_code(self) -> u16 {
        match self {
            Refusal::NoKey => 401,
            Refusal::Busy => 503,
            Refusal::BodyRefused => 413,
            Refusal::BodyTimeout => 408,
            Refusal::NoWorker => 503,
            Refusal::WorkerFailed => 502,
        }
    }

    /// The content.
    pub open spec fn body_text(self) -> Seq<char> {
        match self {
            Refusal::NoKey => "A single Bearer API key is required\n"@,
            Refusal::Busy => "Gateway request capacity reached\n"@,
            Refusal::BodyRefused => "Request body too large or unreadable\n"@,
            Refusal::BodyTimeout => "Request body timeout\n"@,
            Refusal::NoWorker => "Key worker unavailable or capacity reached\n"@,
            Refusal::WorkerFailed => "Key worker connection failed\n"@,
        }
    }

    /// The status code.
    pub fn status(&self) -> (r: u16)
        ensures
            r == self.status_code(),
    {
        match self {
            Refusal::NoKey => 401,
            Refusal::Busy => 503,
            Refusal::BodyRefused => 413,
            Refusal::BodyTimeout => 408,
            Refusal::NoWorker => 503,
            Refusal::WorkerFailed => 502,
        }
    }

    /// The content, which is plain text.
    pub fn body(&self) -> (r: &'static str)
        ensures
            r@ == self.body_text(),
    {
        match self {
            Refusal::NoKey => "A single Bearer API key is required\n",
            Refusal::Busy => "Gateway request capacity reached\n",
            Refusal::BodyRefused => "Request body too large or unreadable\n",
            Refusal::BodyTimeout => "Request body timeout\n",
            Refusal::NoWorker => "Key worker unavailable or capacity reached\n",
            Refusal::WorkerFailed => "Key worker connection failed\n",
        }
    }
}

/// How far a request has come.
#[derive(Clone, Copy, Debug, PartialEq, Eq, Structural)]
pub enum Passage {
    /// It waits to be let in.
    Entering,
    /// Its body is being read.
    ReadingBody,
    /// The proxy of its key is looked for.
    FindingWorker,
    /// It has been sent to that proxy.
    Sent,
    /// The client has its answer.
    Done,
}

/// What happened to a request.
#[derive(Clone, Copy, Debug, PartialEq, Eq, Structural)]
pub enum Happening {
    /// It was let in.
    Admitted,
    /// There is no room for it.
    Refused,
    /// The body was read.
    BodyRead,
    /// The body could not be read, or is too large.
    BodyFailed,
    /// The body did not come in time.
    BodyLate,
    /// There is a proxy for the key.
    WorkerReady,
    /// There is no proxy for the key.
    WorkerMissing,
    /// The proxy answered.
    Answered,
    /// The proxy could not be reached.
    ConnectionFailed,
}

/// What is to be done with a request.
#[derive(Clone, Copy, Debug, PartialEq, Eq, Structural)]
pub enum Move {
    /// Tell how the gateway is.
    TellHealth,
    /// Answer the client.
    Respond(Refusal),
    /// Let the request in, if there is room.
    Enter,
    /// Read the body.
    ReadBody,
    /// Look for the proxy of the key, or start one.
    FindWorker,
    /// Send the request to that proxy, once.
    Send,
    /// Hand the answer on.
    Relay,
}

/// What is done with a request when it comes.
pub open spec fn first_move(health: bool, has_key: bool) -> (Passage, Move) {
    if health {
        (Passage::Done, Move::TellHealth)
    } else if !has_key {
        (Passage::Done, Move::Respond(Refusal::NoKey))
    } else {
        (Passage::Entering, Move::Enter)
    }
}

/// Decides what is done with a request when it comes, and finds the key that it
/// brings along.
pub fn receive(method: &str, path: &str, headers: &HeaderMap<HeaderValue>) -> (r: (
    Passage,
    Move,
    Option<String>,
))
    ensures
        option_view(r.2) == bearer_of(bytes_of(header_fields(*headers), "authorization"@)),
        (r.0, r.1) == first_move(asks_health(method@, path@), r.2 is Some),
{
    let key = bearer_key(headers);
    if is_health_request(method, path) {
        (Passage::Done, Move::TellHealth, key)
    } else if key.is_none() {
        (Passage::Done, Move::Respond(Refusal::NoKey), key)
    } else {
        (Passage::Entering, Move::Enter, key)
    }
}

/// Whether something can happen to a request that has come this far.
pub open spec fn can_happen(passage: Passage, happening: Happening) -> bool {
    match passage {
        Passage::Entering => happening == Happening::Admitted || happening == Happening::Refused,
        Passage::ReadingBody => happening == Happening::BodyRead || happening
            == Happening::BodyFailed || happening == Happening::BodyLate,
        Passage::FindingWorker => happening == Happening::WorkerReady || happening
            == Happening::WorkerMissing,
        Passage::Sent => happening == Happening::Answered || happening
            == Happening::ConnectionFailed,
        Passage::Done => false,
    }
}

/// What is done with a request when something happened to it.
pub open spec fn next_move(happening: Happening) -> (Passage, Move) {
    match happening {
        Happening::Admitted => (Passage::ReadingBody, Move::ReadBody),
        Happening::Refused => (Passage::Done, Move::Respond(Refusal::Busy)),
        Happening::BodyRead => (Passage::FindingWorker, Move::FindWorker),
        Happening::BodyFailed => (Passage::Done, Move::Respond(Refusal::BodyRefused)),
        Happening::BodyLate => (Passage::Done, Move::Respond(Refusal::BodyTimeout)),
        Happening::WorkerReady => (Passage::Sent, Move::Send),
        Happening::WorkerMissing => (Passage::Done, Move::Respond(Refusal::NoWorker)),
        Happening::Answered => (Passage::Done, Move::Relay),
        Happening::ConnectionFailed => (Passage::Done, Move::Respond(Refusal::WorkerFailed)),
    }
}

/// Decides what is done with a request when something happened to it.
pub fn forward(passage: Passage, happening: Happening) -> (r: (Passage, Move))
    requires
        can_happen(passage, happening),
    ensures
        r == next_move(happening),
{
    match happening {
        Happening::Admitted => (Passage::ReadingBody, Move::ReadBody),
        Happening::Refused => (Passage::Done, Move::Respond(Refusal::Busy)),
        Happening::BodyRead => (Passage::FindingWorker, Move::FindWorker),
        Happening::BodyFailed => (Passage::Done, Move::Respond(Refusal::BodyRefused)),
        Happening::BodyLate => (Passage::Done, Move::Respond(Refusal::BodyTimeout)),
        Happening::WorkerReady => (Passage::Sent, Move::Send),
        Happening::WorkerMissing => (Passage::Done, Move::Respond(Refusal::NoWorker)),
        Happening::Answered => (Passage::Done, Move::Relay),
        Happening::ConnectionFailed => (Passage::Done, Move::Respond(Refusal::WorkerFailed)),
    }
}

/// Decides whether the proxy of a key may serve: one that is known may, and a new
/// one as long as fewer run than the limit.
pub fn admits_worker(known: bool, running: usize, limit: usize) -> (r: bool)
    ensures
        r == (known || running < limit),
{
    known || running < limit
}

/// Where a request can have come after some happenings, each of which can happen
/// there; nowhere, if one cannot.
pub open spec fn passed(happenings: Seq<Happening>) -> Option<Passage>
    decreases happenings.len(),
{
    if happenings.len() == 0 {
        Some(Passage::Entering)
    } else {
        match passed(happenings.drop_last()) {
            None => None,
            Some(passage) => if can_happen(passage, happenings.last()) {
                Some(next_move(happenings.last()).0)
            } else {
                None
            },
        }
    }
}

/// The gateway sends a request once at most, and only one that was let in, whose
/// body was read and for whose key there is a proxy.
pub proof fn law_requests_are_sent_once(happenings: Seq<Happening>)
    requires
        passed(happenings) is Some,
        happenings.contains(Happening::WorkerReady),
    ensures
        happenings.len() >= 3,
        happenings.take(3) == seq![
            Happening::Admitted,
            Happening::BodyRead,
            Happening::WorkerReady,
        ],
        forall|i: int| 3 <= i < happenings.len() ==> happenings[i] != Happening::WorkerReady,
{
    lemma_passage(happenings);
    let at = choose|i: int| 0 <= i < happenings.len() && happenings[i] == Happening::WorkerReady;
    assert(at == 2);
    assert(happenings.take(3) =~= seq![
        Happening::Admitted,
        Happening::BodyRead,
        Happening::WorkerReady,
    ]);
}

spec fn in_order(i: int, happening: Happening) -> bool {
    match happening {
        Happening::Admitted => i == 0,
        Happening::Refused => i == 0,
        Happening::BodyRead => i == 1,
        Happening::BodyFailed => i == 1,
        Happening::BodyLate => i == 1,
        Happening::WorkerReady => i == 2,
        Happening::WorkerMissing => i == 2,
        Happening::Answered => i == 3,
        Happening::ConnectionFailed => i == 3,
    }
}

proof fn lemma_passage(happenings: Seq<Happening>)
    requires
        passed(happenings) is Some,
    ensures
        forall|i: int| 0 <= i < happenings.len() ==> in_order(i, #[trigger] happenings[i]),
        happenings.len() > 1 ==> happenings[0] == Happening::Admitted,
        happenings.len() > 2 ==> happenings[1] == Happening::BodyRead,
        happenings.len() > 3 ==> happenings[2] == Happening::WorkerReady,
        match passed(happenings)->0 {
            Passage::Entering => happenings.len() == 0,
            Passage::ReadingBody => happenings.len() == 1 && happenings[0] == Happening::Admitted,
            Passage::FindingWorker => happenings.len() == 2 && happenings[1]
                == Happening::BodyRead,
            Passage::Sent => happenings.len() == 3 && happenings[2] == Happening::WorkerReady,
            Passage::Done => true,
        },
    decreases happenings.len(),
{
    if happenings.len() > 0 {
        let before = happenings.drop_last();
        lemma_passage(before);
        assert forall|i: int| 0 <= i < happenings.len() implies in_order(
            i,
            #[trigger] happenings[i],
        ) by {
            if i < before.len() {
                assert(before[i] == happenings[i]);
            }
        }
    }
}

/// A key that is sent as a bearer token arrives as it is, in whatever case the
/// scheme is written.
pub proof fn law_bearer_keys_arrive(scheme: Seq<char>, key: Seq<char>, value: Seq<u8>)
    requires
        lower(scheme) == "bearer"@,
        is_api_key(key),
        value.len() == scheme.len() + 1 + key.len(),
        forall|i: int|
            0 <= i < value.len() ==> #[trigger] value[i] as int == (scheme + seq![' '] + key)[i]
                as int,
    ensures
        bearer_of(seq![value]) == Some(key),
{
    let text = scheme + seq![' '] + key;
    reveal_strlit("bearer");
    assert(lower(scheme).len() == 6);
    assert forall|i: int| 0 <= i < scheme.len() implies 65 <= (#[trigger] scheme[i]) as u32
        <= 122 by {
        assert(lower(scheme)[i] == "bearer"@[i]);
        crate::text::law_only_capitals_are_made_small(scheme, i);
    }
    assert forall|i: int| 0 <= i < value.len() implies 32 <= #[trigger] value[i] <= 126 by {
        if i < scheme.len() {
            assert(text[i] == scheme[i]);
        } else if i > scheme.len() {
            assert(text[i] == key[i - scheme.len() - 1]);
        }
    }
    assert(visible_text(value) is Some);
    let read = visible_text(value)->0;
    assert forall|i: int| 0 <= i < read.len() implies read[i] == text[i] by {
        assert(value[i] as int == text[i] as int);
    }
    assert(read =~= text);
    crate::text::lemma_position(text, ' ', scheme.len() as int);
    assert(text.take(scheme.len() as int) =~= scheme);
    assert(text.skip(scheme.len() + 1int) =~= key);
}

/// A key is found only where there is exactly one field, whose value is the word
/// `bearer` in whatever case, one space and the key; nothing is cut off or added.
pub proof fn law_only_bearer_keys_are_taken(values: Seq<Seq<u8>>)
    ensures
        values.len() != 1 ==> bearer_of(values) is None,
        bearer_of(values) matches Some(key) ==> {
            let value = values[0];
            &&& is_api_key(key)
            &&& value.len() == key.len() + 7
            &&& value[6] == 32
            &&& forall|i: int|
                0 <= i < key.len() ==> (#[trigger] key[i]) as int == value[i + 7] as int
        },
{
    if bearer_of(values) is Some {
        let value = values[0];
        let text = visible_text(value)->0;
        crate::text::law_texts_are_cut_at_the_first(text, ' ');
        let (scheme, key) = split_once_at(text, ' ')->0;
        reveal_strlit("bearer");
        assert(lower(scheme).len() == 6);
        assert(text == scheme + seq![' '] + key);
        assert(text[6] == ' ');
        assert(text[6] == value[6] as char);
        assert forall|i: int| 0 <= i < key.len() implies (#[trigger] key[i]) as int == value[i + 7]
            as int by {
            assert(text[i + 7] == key[i]);
            assert(text[i + 7] == value[i + 7] as char);
        }
    }
}

/// Only addresses of the machine itself count as such: every one that begins with
/// 127, and `::1`.
pub proof fn law_loopback_is_this_machine(a: u8, b: u8, c: u8, d: u8, n: u128)
    ensures
        is_loopback(Ip::V4(a, b, c, d)) <==> a == 127,
        is_loopback(Ip::V6(n)) <==> n == 1,
{
}

/// A request for the health is answered whether it brings a key or not; any other
/// without a key is refused, and one with a key waits to be let in.
pub proof fn law_keys_are_needed_but_for_health(has_key: bool)
    ensures
        first_move(true, has_key) == (Passage::Done, Move::TellHealth),
        first_move(false, false) == (Passage::Done, Move::Respond(Refusal::NoKey)),
        first_move(false, true) == (Passage::Entering, Move::Enter),
{
}

/// A request that nothing goes wrong with is let in, read, given to the proxy of
/// its key and answered by it, in this order.
pub proof fn law_good_requests_pass()
    ensures
        next_move(Happening::Admitted) == (Passage::ReadingBody, Move::ReadBody),
        next_move(Happening::BodyRead) == (Passage::FindingWorker, Move::FindWorker),
        next_move(Happening::WorkerReady) == (Passage::Sent, Move::Send),
        next_move(Happening::Answered) == (Passage::Done, Move::Relay),
        passed(
            seq![
                Happening::Admitted,
                Happening::BodyRead,
                Happening::WorkerReady,
                Happening::Answered,
            ],
        ) == Some(Passage::Done),
{
    reveal_with_fuel(passed, 5);
    let a = seq![Happening::Admitted];
    let b = seq![Happening::Admitted, Happening::BodyRead];
    let c = seq![Happening::Admitted, Happening::BodyRead, Happening::WorkerReady];
    let d = seq![
        Happening::Admitted,
        Happening::BodyRead,
        Happening::WorkerReady,
        Happening::Answered,
    ];
    assert(d.drop_last() =~= c);
    assert(c.drop_last() =~= b);
    assert(b.drop_last() =~= a);
    assert(a.drop_last() =~= Seq::empty());
}

/// Whatever goes wrong ends the request with the answer that says what it was, and
/// nothing is sent for it. A request that was answered has no further part.
pub proof fn law_refusals_say_what_went_wrong(happening: Happening)
    ensures
        next_move(Happening::Refused) == (Passage::Done, Move::Respond(Refusal::Busy)),
        next_move(Happening::BodyFailed) == (Passage::Done, Move::Respond(Refusal::BodyRefused)),
        next_move(Happening::BodyLate) == (Passage::Done, Move::Respond(Refusal::BodyTimeout)),
        next_move(Happening::WorkerMissing) == (Passage::Done, Move::Respond(Refusal::NoWorker)),
        next_move(Happening::ConnectionFailed) == (
            Passage::Done,
            Move::Respond(Refusal::WorkerFailed),
        ),
        !can_happen(Passage::Done, happening),
        next_move(happening).1 == Move::Send ==> happening == Happening::WorkerReady,
        next_move(happening).1 == Move::Relay ==> happening == Happening::Answered,
{
}

/// At each point exactly the things can happen that the step before it leads to.
pub proof fn law_happenings_come_in_order(happening: Happening)
    ensures
        can_happen(Passage::Entering, happening) <==> happening is Admitted || happening is Refused,
        can_happen(Passage::ReadingBody, happening) <==> happening is BodyRead || happening
            is BodyFailed || happening is BodyLate,
        can_happen(Passage::FindingWorker, happening) <==> happening is WorkerReady || happening
            is WorkerMissing,
        can_happen(Passage::Sent, happening) <==> happening is Answered || happening
            is ConnectionFailed,
{
}

/// Each refusal has the status that says whose fault it is: the client's where the
/// key or the body is at fault, the gateway's otherwise.
pub proof fn law_refusals_have_their_status(refusal: Refusal)
    ensures
        400 <= refusal.status_code() < 500 <==> refusal is NoKey || refusal is BodyRefused
            || refusal is BodyTimeout,
        500 <= refusal.status_code() < 600 <==> refusal is Busy || refusal is NoWorker || refusal
            is WorkerFailed,
        Refusal::NoKey.status_code() == 401,
        Refusal::BodyTimeout.status_code() == 408,
        Refusal::BodyRefused.status_code() == 413,
        Refusal::WorkerFailed.status_code() == 502,
        Refusal::Busy.status_code() == 503,
        Refusal::NoWorker.status_code() == 503,
{
}

/// Up to 4096 bytes are taken of what a gateway tells.
pub proof fn law_gateways_are_heard_out(length: nat)
    ensures
        length <= 4096 <==> length <= HEALTH_LIMIT,
{
}

} // verus!
