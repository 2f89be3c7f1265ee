//! Digests that name a proxy instance and a gateway configuration.

use sha2::Digest;
use vstd::bytes::*;
use vstd::prelude::*;
use vstd::string::*;
use vstd::utf8::encode_utf8;

use crate::digits::{hex, hex_of, lemma_hex_is_ascii, lemma_hex_is_injective};
use crate::text::is_ascii_text;

verus! {

/// The SHA-256 digest of a message.
pub uninterp spec fn sha256_digest(message: Seq<u8>) -> Seq<u8>;

/// Calls `Sha256::digest` of the crate `sha2`. Its result depends on the
/// message alone and is always 32 bytes long.
#[verifier::external_body]
fn sha256(message: &[u8]) -> (r: Vec<u8>)
    ensures
        r@ == sha256_digest(message@),
        r@.len() == 32,
{
    sha2::Sha256::digest(message).to_vec()
}

/// A field with its length before it, as eight bytes with the lowest first.
pub open spec fn framed(field: Seq<u8>) -> Seq<u8> {
    spec_u64_to_le_bytes(field.len() as u64) + field
}

/// What an instance is named after: the key, the upstream and the path of the
/// configuration, each framed.
pub open spec fn identity_message(key: Seq<u8>, upstream: Seq<u8>, config: Seq<u8>) -> Seq<u8> {
    framed(key) + framed(upstream) + framed(config)
}

/// The name of an instance.
pub open spec fn identity_of(key: Seq<u8>, upstream: Seq<u8>, config: Seq<u8>) -> Seq<char> {
    hex_of(sha256_digest(identity_message(key, upstream, config)))
}

fn push_bytes(message: &mut Vec<u8>, bytes: &[u8])
    ensures
        final(message)@ == old(message)@ + bytes@,
{
    message.extend_from_slice(bytes);
    assert(message@ =~= old(message)@ + bytes@);
}

fn push_framed(message: &mut Vec<u8>, field: &[u8])
    ensures
        final(message)@ == old(message)@ + framed(field@),
{
    let length = u64_to_le_bytes(field.len() as u64);
    push_bytes(message, length.as_slice());
    push_bytes(message, field);
    assert(message@ =~= old(message)@ + framed(field@));
}

/// Names the instance that serves a key towards an upstream under a
/// configuration: 64 small hexadecimal digits.
pub fn identity(key: &str, upstream: &str, config: &[u8]) -> (r: String)
    ensures
        r@ == identity_of(encode_utf8(key@), encode_utf8(upstream@), config@),
        r@.len() == 64,
        is_ascii_text(r@),
{
    let mut message: Vec<u8> = Vec::new();
    push_framed(&mut message, key.as_bytes());
    push_framed(&mut message, upstream.as_bytes());
    push_framed(&mut message, config);
    assert(message@ =~= identity_message(encode_utf8(key@), encode_utf8(upstream@), config@));
    proof {
        lemma_hex_is_ascii(sha256_digest(message@));
    }
    hex(sha256(message.as_slice()).as_slice())
}

proof fn lemma_frame_splits(a: Seq<u8>, rest_a: Seq<u8>, b: Seq<u8>, rest_b: Seq<u8>)
    requires
        a.len() <= u64::MAX,
        b.len() <= u64::MAX,
        framed(a) + rest_a == framed(b) + rest_b,
    ensures
        a == b,
        rest_a == rest_b,
{
    lemma_auto_spec_u64_to_from_le_bytes();
    let la = spec_u64_to_le_bytes(a.len() as u64);
    let lb = spec_u64_to_le_bytes(b.len() as u64);
    assert(la =~= (framed(a) + rest_a).take(8));
    assert(lb =~= (framed(b) + rest_b).take(8));
    assert(a.len() == b.len());
    let n = a.len() as int;
    assert(a =~= (framed(a) + rest_a).subrange(8, 8 + n));
    assert(b =~= (framed(b) + rest_b).subrange(8, 8 + n));
    assert(rest_a =~= (framed(a) + rest_a).skip(8 + n));
    assert(rest_b =~= (framed(b) + rest_b).skip(8 + n));
}

/// Keys, upstreams and configurations that differ in any part are told apart:
/// the messages that are digested differ.
pub proof fn law_identity_messages_differ(
    key: Seq<u8>,
    upstream: Seq<u8>,
    config: Seq<u8>,
    key2: Seq<u8>,
    upstream2: Seq<u8>,
    config2: Seq<u8>,
)
    requires
        key.len() <= u64::MAX,
        upstream.len() <= u64::MAX,
        config.len() <= u64::MAX,
        key2.len() <= u64::MAX,
        upstream2.len() <= u64::MAX,
        config2.len() <= u64::MAX,
        identity_message(key, upstream, config) == identity_message(key2, upstream2, config2),
    ensures
        key == key2,
        upstream == upstream2,
        config == config2,
{
    let nothing = Seq::<u8>::empty();
    assert(identity_message(key, upstream, config) =~= framed(key) + (framed(upstream) + (framed(
        config,
    ) + nothing)));
    assert(identity_message(key2, upstream2, config2) =~= framed(key2) + (framed(upstream2) + (
    framed(config2) + nothing)));
    lemma_frame_splits(
        key,
        framed(upstream) + (framed(config) + nothing),
        key2,
        framed(upstream2) + (framed(config2) + nothing),
    );
    lemma_frame_splits(
        upstream,
        framed(config) + nothing,
        upstream2,
        framed(config2) + nothing,
    );
    lemma_frame_splits(config, nothing, config2, nothing);
}

/// Two instances share a name only if they agree in key, upstream and
/// configuration, or else two different messages have one digest.
pub proof fn law_identity_separates(
    key: Seq<u8>,
    upstream: Seq<u8>,
    config: Seq<u8>,
    key2: Seq<u8>,
    upstream2: Seq<u8>,
    config2: Seq<u8>,
)
    requires
        key.len() <= u64::MAX,
        upstream.len() <= u64::MAX,
        config.len() <= u64::MAX,
        key2.len() <= u64::MAX,
        upstream2.len() <= u64::MAX,
        config2.len() <= u64::MAX,
        identity_of(key, upstream, config) == identity_of(key2, upstream2, config2),
    ensures
        ({
            let a = identity_message(key, upstream, config);
            let b = identity_message(key2, upstream2, config2);
            ||| key == key2 && upstream == upstream2 && config == config2
            ||| a != b && sha256_digest(a) == sha256_digest(b)
        }),
{
    let a = identity_message(key, upstream, config);
    let b = identity_message(key2, upstream2, config2);
    lemma_hex_is_injective(sha256_digest(a), sha256_digest(b));
    if a == b {
        law_identity_messages_differ(key, upstream, config, key2, upstream2, config2);
    }
}

/// What a gateway's configuration is named after: the path of the
/// configuration, a zero byte and the upstream.
pub open spec fn fingerprint_message(config: Seq<u8>, upstream: Seq<u8>) -> Seq<u8> {
    config + seq![0u8] + upstream
}

/// The name of a gateway's configuration.
pub open spec fn fingerprint_of(config: Seq<u8>, upstream: Seq<u8>) -> Seq<char> {
    hex_of(sha256_digest(fingerprint_message(config, upstream)))
}

/// Names a gateway's configuration: 64 small hexadecimal digits.
pub fn fingerprint(config: &[u8], upstream: &str) -> (r: String)
    ensures
        r@ == fingerprint_of(config@, encode_utf8(upstream@)),
        r@.len() == 64,
{
    let mut message: Vec<u8> = Vec::new();
    push_bytes(&mut message, config);
    message.push(0);
    push_bytes(&mut message, upstream.as_bytes());
    assert(message@ =~= fingerprint_message(config@, encode_utf8(upstream@)));
    hex(sha256(message.as_slice()).as_slice())
}

/// Gateways whose configuration paths, which hold no zero byte, or upstreams
/// differ are told apart: the messages that are digested differ.
pub proof fn law_fingerprint_messages_differ(
    config: Seq<u8>,
    upstream: Seq<u8>,
    config2: Seq<u8>,
    upstream2: Seq<u8>,
)
    requires
        !config.contains(0u8),
        !config2.contains(0u8),
        fingerprint_message(config, upstream) == fingerprint_message(config2, upstream2),
    ensures
        config == config2,
        upstream == upstream2,
{
    let a = fingerprint_message(config, upstream);
    let b = fingerprint_message(config2, upstream2);
    assert(a[config.len() as int] == 0u8);
    assert(b[config2.len() as int] == 0u8);
    if config.len() < config2.len() {
        assert(b[config.len() as int] == config2[config.len() as int]);
        assert(config2.contains(0u8));
    }
    if config2.len() < config.len() {
        assert(a[config2.len() as int] == config[config2.len() as int]);
        assert(config.contains(0u8));
    }
    let n = config.len() as int;
    assert(config =~= a.take(n));
    assert(config2 =~= b.take(n));
    assert(upstream =~= a.skip(n + 1));
    assert(upstream2 =~= b.skip(n + 1));
}

/// An instance is named by the digest of its whole key, upstream and configuration,
/// in this order, each behind its length in eight bytes, the lowest first.
pub proof fn law_identities_are_made_of_all_parts(
    key: Seq<u8>,
    upstream: Seq<u8>,
    config: Seq<u8>,
)
    requires
        key.len() <= u64::MAX,
        upstream.len() <= u64::MAX,
        config.len() <= u64::MAX,
    ensures
        ({
            let message = identity_message(key, upstream, config);
            let second: int = 8 + key.len() as int;
            let third: int = second + 8 + upstream.len();
            &&& identity_of(key, upstream, config) == hex_of(sha256_digest(message))
            &&& message.len() == third + 8 + config.len()
            &&& spec_u64_from_le_bytes(message.subrange(0, 8)) == key.len()
            &&& message.subrange(8, second) == key
            &&& spec_u64_from_le_bytes(message.subrange(second, second + 8))
                == upstream.len()
            &&& message.subrange(second + 8, third) == upstream
            &&& spec_u64_from_le_bytes(message.subrange(third, third + 8)) == config.len()
            &&& message.skip(third + 8) == config
        }),
{
    lemma_auto_spec_u64_to_from_le_bytes();
    let message = identity_message(key, upstream, config);
    let second: int = 8 + key.len() as int;
    let third: int = second + 8 + upstream.len();
    assert(message.subrange(0, 8) =~= spec_u64_to_le_bytes(key.len() as u64));
    assert(message.subrange(8, second) =~= key);
    assert(message.subrange(second, second + 8) =~= spec_u64_to_le_bytes(
        upstream.len() as u64,
    ));
    assert(message.subrange(second + 8, third) =~= upstream);
    assert(message.subrange(third, third + 8) =~= spec_u64_to_le_bytes(config.len() as u64));
    assert(message.skip(third + 8) =~= config);
}

/// A configuration of a gateway is named by the digest of its whole path, a zero
/// byte and the whole upstream.
pub proof fn law_fingerprints_are_made_of_both_parts(config: Seq<u8>, upstream: Seq<u8>)
    ensures
        fingerprint_of(config, upstream) == hex_of(sha256_digest(config + seq![0u8] + upstream)),
{
}

} // verus!
