//! Registered keys: how they are named, sealed, opened and kept.

use chacha20poly1305::aead::{Aead, KeyInit, Payload};
use chacha20poly1305::{XChaCha20Poly1305, XNonce};
use vstd::prelude::*;
use vstd::slice::*;
use vstd::string::*;
use vstd::utf8::*;

use crate::keys::{is_api_key, key_line, read_key, validate_key, InvalidKey};
use crate::paths::{join, joined_path, Place, PRIVATE_FILE};
use crate::text::{
    bytes_start_with, chars_of, copy_bytes, is_ascii_text, lemma_ascii_bytes,
    lemma_utf8_tells_texts_apart, utf8_text,
};

verus! {

/// The most bytes that the cipher takes: its counter reaches no further.
pub const LONGEST_MESSAGE: u64 = 274877906816;

/// What XChaCha20-Poly1305 makes of a message under a key, a nonce and bytes
/// that the message is bound to.
pub uninterp spec fn xchacha_encrypted(
    key: Seq<u8>,
    nonce: Seq<u8>,
    message: Seq<u8>,
    bound_to: Seq<u8>,
) -> Seq<u8>;

/// The message that XChaCha20-Poly1305 finds, if the bytes are authentic.
pub uninterp spec fn xchacha_decrypted(
    key: Seq<u8>,
    nonce: Seq<u8>,
    encrypted: Seq<u8>,
    bound_to: Seq<u8>,
) -> Option<Seq<u8>>;

/// Optional bytes.
pub open spec fn option_bytes(bytes: Option<Vec<u8>>) -> Option<Seq<u8>> {
    match bytes {
        Some(b) => Some(b@),
        None => None,
    }
}

/// Calls `XChaCha20Poly1305::encrypt` of the crate `chacha20poly1305`. Its
/// result depends on the arguments alone: the encrypted message and behind it a
/// tag of 16 bytes. It does not fail on messages of at most `LONGEST_MESSAGE`
/// bytes, and decrypting with the same key, nonce and bound bytes gives the
/// message back. That no other key or bound bytes open it, or open it changed,
/// rests on the strength of the cipher and is left unsaid.
#[verifier::external_body]
fn encrypt(key: &[u8; 32], nonce: &[u8; 24], message: &[u8], bound_to: &[u8]) -> (r: Option<Vec<u8>>)
    requires
        message@.len() <= LONGEST_MESSAGE,
    ensures
        option_bytes(r) == Some(xchacha_encrypted(key@, nonce@, message@, bound_to@)),
        r matches Some(encrypted) ==> encrypted@.len() == message@.len() + 16,
        r matches Some(encrypted) ==> xchacha_decrypted(key@, nonce@, encrypted@, bound_to@)
            == Some(message@),
{
    let cipher = XChaCha20Poly1305::new(key.into());
    cipher.encrypt(XNonce::from_slice(nonce), Payload { msg: message, aad: bound_to }).ok()
}

/// Calls `XChaCha20Poly1305::decrypt` of the crate `chacha20poly1305`. Its
/// result depends on the arguments alone; there is one only for bytes that end
/// with a tag of 16 bytes.
#[verifier::external_body]
fn decrypt(key: &[u8; 32], nonce: &[u8], encrypted: &[u8], bound_to: &[u8]) -> (r: Option<Vec<u8>>)
    requires
        nonce@.len() == 24,
        encrypted@.len() <= LONGEST_MESSAGE,
    ensures
        option_bytes(r) == xchacha_decrypted(key@, nonce@, encrypted@, bound_to@),
        r matches Some(message) ==> encrypted@.len() == message@.len() + 16,
{
    let cipher = XChaCha20Poly1305::new(key.into());
    cipher.decrypt(XNonce::from_slice(nonce), Payload { msg: encrypted, aad: bound_to }).ok()
}

/// What an encrypted credential file begins with, whatever its version: the
/// letters `CRPKEY`.
pub open spec fn mark() -> Seq<u8> {
    seq![67, 82, 80, 75, 69, 89]
}

/// What a credential file of the current version begins with.
pub open spec fn magic() -> Seq<u8> {
    seq![67, 82, 80, 75, 69, 89, 0, 1]
}

/// The most bytes that a credential file has: its head, the nonce, the longest
/// key and the tag.
pub const MAX_FILE: u64 = 16432;

/// The bytes of a master key.
pub const MASTER_LENGTH: u64 = 32;

/// What a credential is bound to.
pub open spec fn bound_name(name: Seq<char>) -> Seq<char> {
    "codex-rate-proxy:credentials:v1:"@ + name
}

/// Says what a credential is bound to.
pub fn aad(name: &str) -> (r: String)
    ensures
        r@ == bound_name(name@),
{
    let mut r = "codex-rate-proxy:credentials:v1:".to_owned();
    r.append(name);
    r
}

/// Why a credential cannot be used.
#[derive(Clone, Copy, Debug, PartialEq, Eq, Structural)]
pub enum CredentialError {
    /// The user name is none.
    InvalidUser,
    /// The file is of another version or too short.
    Damaged,
    /// The file, the name or the master key is another than when it was sealed.
    Unauthentic,
    /// What was sealed is no text.
    NotText,
    /// The file is neither encrypted nor text.
    LegacyNotText,
    /// The text is no API key.
    InvalidKey,
    /// The name of a registered file is no text.
    NameNotText,
}

impl CredentialError {
    /// What the error says.
    pub open spec fn text(self) -> Seq<char> {
        match self {
            CredentialError::InvalidUser =>
                "user name must be 1-64 ASCII letters, digits, underscores or hyphens"@,
            CredentialError::Damaged => "unsupported or damaged encrypted credential file"@,
            CredentialError::Unauthentic =>
                "credential authentication failed: file/name/master key changed"@,
            CredentialError::NotText => "decrypted credential is invalid"@,
            CredentialError::LegacyNotText => "invalid legacy credential file"@,
            CredentialError::InvalidKey => InvalidKey.text(),
            CredentialError::NameNotText => "invalid registered user name"@,
        }
    }

    /// What the error says.
    pub fn message(&self) -> (r: String)
        ensures
            r@ == self.text(),
    {
        match self {
            CredentialError::InvalidUser =>
                "user name must be 1-64 ASCII letters, digits, underscores or hyphens".to_owned(),
            CredentialError::Damaged => "unsupported or damaged encrypted credential file"
                .to_owned(),
            CredentialError::Unauthentic =>
                "credential authentication failed: file/name/master key changed".to_owned(),
            CredentialError::NotText => "decrypted credential is invalid".to_owned(),
            CredentialError::LegacyNotText => "invalid legacy credential file".to_owned(),
            CredentialError::InvalidKey => InvalidKey.message(),
            CredentialError::NameNotText => "invalid registered user name".to_owned(),
        }
    }
}

/// What a key looks like in a file.
pub open spec fn sealed_of(
    name: Seq<char>,
    key: Seq<char>,
    master: Seq<u8>,
    nonce: Seq<u8>,
) -> Seq<u8> {
    magic() + nonce + xchacha_encrypted(
        master,
        nonce,
        encode_utf8(key),
        encode_utf8(bound_name(name)),
    )
}

/// The key that a decrypted message is.
pub open spec fn opened_of(plain: Option<Seq<u8>>) -> Result<Seq<char>, CredentialError> {
    match plain {
        None => Err(CredentialError::Unauthentic),
        Some(bytes) => if !valid_utf8(bytes) {
            Err(CredentialError::NotText)
        } else if !is_api_key(decode_utf8(bytes)) {
            Err(CredentialError::InvalidKey)
        } else {
            Ok(decode_utf8(bytes))
        },
    }
}

/// The key that a file holds.
pub open spec fn unsealed_of(name: Seq<char>, bytes: Seq<u8>, master: Seq<u8>) -> Result<
    Seq<char>,
    CredentialError,
> {
    if !magic().is_prefix_of(bytes) || bytes.len() < 48 {
        Err(CredentialError::Damaged)
    } else {
        opened_of(
            xchacha_decrypted(
                master,
                bytes.subrange(8, 32),
                bytes.skip(32),
                encode_utf8(bound_name(name)),
            ),
        )
    }
}

/// Seals a key for a user under the master key. A nonce is used only once.
/// Opening the file again gives the key back.
pub fn seal(name: &str, key: &str, master: &[u8; 32], nonce: &[u8; 24]) -> (r: Vec<u8>)
    requires
        encode_utf8(key@).len() <= LONGEST_MESSAGE,
    ensures
        r@ == sealed_of(name@, key@, master@, nonce@),
        r@.len() == encode_utf8(key@).len() + 48,
        is_api_key(key@) ==> unsealed_of(name@, r@, master@) == Ok::<Seq<char>, CredentialError>(
            key@,
        ),
{
    let bound_to = aad(name);
    let encrypted = encrypt(master, nonce, key.as_bytes(), bound_to.as_str().as_bytes()).unwrap();
    let head: [u8; 8] = [67, 82, 80, 75, 69, 89, 0, 1];
    let mut bytes = copy_bytes(&head);
    assert(bytes@ =~= magic());
    bytes.extend_from_slice(nonce);
    assert(bytes@ =~= magic() + nonce@);
    bytes.extend_from_slice(encrypted.as_slice());
    proof {
        assert(bytes@ =~= magic() + nonce@ + encrypted@);
        assert(bytes@.subrange(0, 8) =~= magic());
        assert(bytes@.subrange(8, 32) =~= nonce@);
        assert(bytes@.skip(32) =~= encrypted@);
        encode_utf8_valid_utf8(key@);
        encode_utf8_decode_utf8(key@);
    }
    bytes
}

/// Takes the key out of what was decrypted.
pub fn opened(plain: Option<Vec<u8>>) -> (r: Result<String, CredentialError>)
    ensures
        match r {
            Ok(key) => opened_of(option_bytes(plain)) == Ok::<Seq<char>, CredentialError>(key@),
            Err(e) => opened_of(option_bytes(plain)) == Err::<Seq<char>, CredentialError>(e),
        },
{
    let bytes = match plain {
        Some(bytes) => bytes,
        None => return Err(CredentialError::Unauthentic),
    };
    let key = match utf8_text(bytes) {
        Some(key) => key,
        None => return Err(CredentialError::NotText),
    };
    match validate_key(key.as_str()) {
        Ok(()) => Ok(key),
        Err(_) => Err(CredentialError::InvalidKey),
    }
}

/// Opens a sealed key.
pub fn unseal(name: &str, bytes: &[u8], master: &[u8; 32]) -> (r: Result<String, CredentialError>)
    requires
        bytes@.len() <= LONGEST_MESSAGE,
    ensures
        match r {
            Ok(key) => unsealed_of(name@, bytes@, master@) == Ok::<Seq<char>, CredentialError>(
                key@,
            ),
            Err(e) => unsealed_of(name@, bytes@, master@) == Err::<Seq<char>, CredentialError>(e),
        },
{
    let head: [u8; 8] = [67, 82, 80, 75, 69, 89, 0, 1];
    assert(head@ =~= magic());
    if !bytes_start_with(bytes, &head) || bytes.len() < 48 {
        return Err(CredentialError::Damaged);
    }
    let nonce = slice_subrange(bytes, 8, 32);
    let encrypted = slice_subrange(bytes, 32, bytes.len());
    assert(encrypted@ =~= bytes@.skip(32));
    let bound_to = aad(name);
    opened(decrypt(master, nonce, encrypted, bound_to.as_str().as_bytes()))
}

/// Whether a credential file is encrypted, in whatever version.
pub fn is_encrypted(bytes: &[u8]) -> (r: bool)
    ensures
        r == mark().is_prefix_of(bytes@),
{
    let letters: [u8; 6] = [67, 82, 80, 75, 69, 89];
    assert(letters@ =~= mark());
    bytes_start_with(bytes, &letters)
}

/// The key that a file holds which was never encrypted.
pub open spec fn legacy_of(bytes: Seq<u8>) -> Result<Seq<char>, CredentialError> {
    if !valid_utf8(bytes) {
        Err(CredentialError::LegacyNotText)
    } else if !is_api_key(key_line(decode_utf8(bytes))) {
        Err(CredentialError::InvalidKey)
    } else {
        Ok(key_line(decode_utf8(bytes)))
    }
}

/// Takes the key out of a file that was never encrypted.
pub fn legacy_key(bytes: &[u8]) -> (r: Result<String, CredentialError>)
    ensures
        match r {
            Ok(key) => legacy_of(bytes@) == Ok::<Seq<char>, CredentialError>(key@),
            Err(e) => legacy_of(bytes@) == Err::<Seq<char>, CredentialError>(e),
        },
{
    let text = match utf8_text(copy_bytes(bytes)) {
        Some(text) => text,
        None => return Err(CredentialError::LegacyNotText),
    };
    match read_key(text.as_str()) {
        Ok(key) => Ok(key),
        Err(_) => Err(CredentialError::InvalidKey),
    }
}

/// Which master key a credential file needs.
#[derive(Clone, Copy, Debug, PartialEq, Eq, Structural)]
pub enum MasterNeed {
    /// The one that it was sealed with.
    Existing,
    /// Any: a new one may be made.
    Any,
}

/// Which master key a credential file needs. A file that holds no key needs none.
pub open spec fn master_need_of(bytes: Seq<u8>) -> Result<MasterNeed, CredentialError> {
    if mark().is_prefix_of(bytes) {
        Ok(MasterNeed::Existing)
    } else {
        match legacy_of(bytes) {
            Ok(_) => Ok(MasterNeed::Any),
            Err(e) => Err(e),
        }
    }
}

/// Decides which master key a credential file needs.
pub fn master_need(bytes: &[u8]) -> (r: Result<MasterNeed, CredentialError>)
    ensures
        r == master_need_of(bytes@),
{
    if is_encrypted(bytes) {
        return Ok(MasterNeed::Existing);
    }
    match legacy_key(bytes) {
        Ok(_) => Ok(MasterNeed::Any),
        Err(e) => Err(e),
    }
}

/// A file that needs no master key gives no key with any.
pub proof fn law_files_without_a_key_need_no_master(
    name: Seq<char>,
    bytes: Seq<u8>,
    master: Seq<u8>,
    nonce: Seq<u8>,
)
    ensures
        master_need_of(bytes) matches Err(e) ==> stored_of(name, bytes, master, nonce) == Err::<
            (Seq<char>, Option<Seq<u8>>),
            CredentialError,
        >(e),
{
}

/// A key that was read, and what its file is to hold from now on, if that is
/// something else.
#[derive(Debug)]
pub struct Stored {
    /// The key.
    pub key: String,
    /// What is to be written.
    pub rewrite: Option<Vec<u8>>,
}

/// The key that a file holds, and what the file is to hold from now on.
pub open spec fn stored_of(
    name: Seq<char>,
    bytes: Seq<u8>,
    master: Seq<u8>,
    nonce: Seq<u8>,
) -> Result<(Seq<char>, Option<Seq<u8>>), CredentialError> {
    if mark().is_prefix_of(bytes) {
        match unsealed_of(name, bytes, master) {
            Ok(key) => Ok((key, None)),
            Err(e) => Err(e),
        }
    } else {
        match legacy_of(bytes) {
            Ok(key) => Ok((key, Some(sealed_of(name, key, master, nonce)))),
            Err(e) => Err(e),
        }
    }
}

/// Reads the key that a user's file holds. One that was never encrypted is
/// sealed: the file is to be written again, and reading it then gives the same
/// key and leaves it as it is.
pub fn read_or_migrate(name: &str, bytes: &[u8], master: &[u8; 32], nonce: &[u8; 24]) -> (r: Result<
    Stored,
    CredentialError,
>)
    requires
        bytes@.len() <= LONGEST_MESSAGE,
    ensures
        match r {
            Ok(stored) => stored_of(name@, bytes@, master@, nonce@) == Ok::<
                (Seq<char>, Option<Seq<u8>>),
                CredentialError,
            >((stored.key@, option_bytes(stored.rewrite))),
            Err(e) => stored_of(name@, bytes@, master@, nonce@) == Err::<
                (Seq<char>, Option<Seq<u8>>),
                CredentialError,
            >(e),
        },
        r matches Ok(stored) ==> is_api_key(stored.key@),
        r matches Ok(stored) ==> (stored.rewrite matches Some(file) ==> file@.len() <= MAX_FILE
            && forall|next: Seq<u8>| #[trigger]
            stored_of(name@, file@, master@, next) == Ok::<
                (Seq<char>, Option<Seq<u8>>),
                CredentialError,
            >((stored.key@, None))),
{
    if is_encrypted(bytes) {
        let key = unseal(name, bytes, master)?;
        Ok(Stored { key, rewrite: None })
    } else {
        let key = legacy_key(bytes)?;
        proof {
            lemma_ascii_bytes(key@);
        }
        let file = seal(name, key.as_str(), master, nonce);
        proof {
            assert(magic().subrange(0, 6) =~= mark());
            assert(file@.subrange(0, 6) =~= mark());
        }
        Ok(Stored { key, rewrite: Some(file) })
    }
}

/// Whether a character may stand in a user name.
pub open spec fn is_user_char(c: char) -> bool {
    'a' <= c <= 'z' || 'A' <= c <= 'Z' || '0' <= c <= '9' || c == '_' || c == '-'
}

/// Whether a text is a user name: 1 to 64 letters, digits, underscores or
/// hyphens.
pub open spec fn is_user_name(name: Seq<char>) -> bool {
    0 < name.len() <= 64 && forall|i: int| 0 <= i < name.len() ==> is_user_char(#[trigger] name[i])
}

/// Whether a text is a user name.
pub fn valid_user(name: &str) -> (r: bool)
    ensures
        r == is_user_name(name@),
{
    let v = chars_of(name);
    if v.len() == 0 || v.len() > 64 {
        return false;
    }
    let mut i: usize = 0;
    while i < v.len()
        invariant
            v@ == name@,
            i <= v.len(),
            forall|j: int| 0 <= j < i ==> is_user_char(#[trigger] name@[j]),
        decreases v.len() - i,
    {
        let c = v[i];
        if !(('a' <= c && c <= 'z') || ('A' <= c && c <= 'Z') || ('0' <= c && c <= '9') || c == '_'
            || c == '-') {
            assert(!is_user_char(name@[i as int]));
            return false;
        }
        i = i + 1;
    }
    true
}

/// The path of the file that holds a user's key.
pub open spec fn profile_of(home: Seq<u8>, name: Seq<char>) -> Seq<u8> {
    joined_path(Place::Users.path_of(home), encode_utf8(name + ".key"@))
}

/// Why a user has no file.
#[derive(Clone, Copy, Debug, PartialEq, Eq, Structural)]
pub enum ProfileError {
    /// The user name is none.
    InvalidUser,
    /// The home directory is not known.
    NoHome,
}

impl ProfileError {
    /// What the error says.
    pub open spec fn text(self) -> Seq<char> {
        match self {
            ProfileError::InvalidUser => CredentialError::InvalidUser.text(),
            ProfileError::NoHome => crate::paths::NoHome.text(),
        }
    }

    /// What the error says.
    pub fn message(&self) -> (r: String)
        ensures
            r@ == self.text(),
    {
        match self {
            ProfileError::InvalidUser => CredentialError::InvalidUser.message(),
            ProfileError::NoHome => crate::paths::NoHome.message(),
        }
    }
}

/// Names the file that holds a user's key.
pub fn profile_path(home: Option<&[u8]>, name: &str) -> (r: Result<Vec<u8>, ProfileError>)
    ensures
        match r {
            Ok(path) => is_user_name(name@) && (home matches Some(h) && path@ == profile_of(
                h@,
                name@,
            )),
            Err(ProfileError::InvalidUser) => !is_user_name(name@),
            Err(ProfileError::NoHome) => is_user_name(name@) && home is None,
        },
{
    if !valid_user(name) {
        return Err(ProfileError::InvalidUser);
    }
    match Place::Users.path(home) {
        Ok(users) => {
            let mut file = name.to_owned();
            file.append(".key");
            Ok(join(users.as_slice(), file.as_str()))
        },
        Err(_) => Err(ProfileError::NoHome),
    }
}

/// Names the file whose lock guards the registered keys.
pub fn registry_lock(users: &[u8]) -> (r: Vec<u8>)
    ensures
        r@ == joined_path(users@, encode_utf8("register.lock"@)),
{
    join(users, "register.lock")
}

/// Names the file that holds the master key, given its directory.
pub fn master_path(share: &[u8]) -> (r: Vec<u8>)
    ensures
        r@ == joined_path(share@, encode_utf8("master.key"@)),
{
    join(share, "master.key")
}

/// What the name of a registered file ends with: `.key`.
pub open spec fn key_ending() -> Seq<u8> {
    seq![46, 107, 101, 121]
}

/// Whether a file in the directory of the users holds a key, by its name.
pub open spec fn names_key_file(file: Seq<u8>) -> bool {
    file.len() > 4 && key_ending().is_suffix_of(file)
}

/// Whether a file in the directory of the users holds a key, by its name.
pub fn is_key_file(file: &[u8]) -> (r: bool)
    ensures
        r == names_key_file(file@),
{
    let n = file.len();
    if n <= 4 {
        return false;
    }
    assert(file@.subrange(n - 4, n as int) =~= seq![
        file@[n - 4],
        file@[n - 3],
        file@[n - 2],
        file@[n - 1],
    ]);
    let r = file[n - 4] == 46 && file[n - 3] == 107 && file[n - 2] == 101 && file[n - 1] == 121;
    proof {
        let end = file@.subrange(n - 4, n as int);
        if key_ending() == end {
            assert(end[0] == 46 && end[1] == 107 && end[2] == 101 && end[3] == 121);
        }
    }
    r
}

/// The user whose key a file holds, by its name.
pub open spec fn registered_user_of(file: Seq<u8>) -> Result<Option<Seq<char>>, CredentialError> {
    let stem = file.take(file.len() - 4);
    if !names_key_file(file) {
        Ok(None)
    } else if !valid_utf8(stem) {
        Err(CredentialError::NameNotText)
    } else if !is_user_name(decode_utf8(stem)) {
        Err(CredentialError::InvalidUser)
    } else {
        Ok(Some(decode_utf8(stem)))
    }
}

/// Tells the user whose key a file in the directory of the users holds.
pub fn registered_user(file: &[u8]) -> (r: Result<Option<String>, CredentialError>)
    ensures
        match r {
            Ok(Some(name)) => registered_user_of(file@) == Ok::<Option<Seq<char>>, CredentialError>(
                Some(name@),
            ),
            Ok(None) => registered_user_of(file@) == Ok::<Option<Seq<char>>, CredentialError>(None),
            Err(e) => registered_user_of(file@) == Err::<Option<Seq<char>>, CredentialError>(e),
        },
{
    if !is_key_file(file) {
        return Ok(None);
    }
    let stem = slice_subrange(file, 0, file.len() - 4);
    assert(stem@ =~= file@.take(file@.len() - 4));
    match utf8_text(copy_bytes(stem)) {
        None => Err(CredentialError::NameNotText),
        Some(name) => if valid_user(name.as_str()) {
            Ok(Some(name))
        } else {
            Err(CredentialError::InvalidUser)
        },
    }
}

proof fn lemma_profile_is_ascii(name: Seq<char>)
    requires
        is_user_name(name),
    ensures
        is_ascii_text(name),
        is_ascii_text(name + ".key"@),
{
    reveal_strlit(".key");
    let file = name + ".key"@;
    assert forall|i: int| 0 <= i < file.len() implies (#[trigger] file[i]) as u32 <= 127 by {
        if i < name.len() {
            assert(is_user_char(name[i]));
        }
    }
    assert forall|i: int| 0 <= i < name.len() implies (#[trigger] name[i]) as u32 <= 127 by {
        assert(is_user_char(name[i]));
    }
}

proof fn lemma_user_char_is_no_slash(c: char)
    requires
        is_user_char(c),
    ensures
        c as u8 != crate::paths::SLASH,
{
}

proof fn lemma_profile_is_relative(name: Seq<char>)
    requires
        is_user_name(name),
    ensures
        encode_utf8(name + ".key"@).len() > 0,
        encode_utf8(name + ".key"@)[0] != crate::paths::SLASH,
{
    reveal_strlit(".key");
    lemma_profile_is_ascii(name);
    lemma_ascii_bytes(name + ".key"@);
    assert(is_user_char(name[0]));
    lemma_user_char_is_no_slash(name[0]);
}

/// The file that a user's key is kept in is found again under the user's name.
pub proof fn law_registered_users_are_found(name: Seq<char>)
    requires
        is_user_name(name),
    ensures
        registered_user_of(encode_utf8(name + ".key"@)) == Ok::<
            Option<Seq<char>>,
            CredentialError,
        >(Some(name)),
{
    reveal_strlit(".key");
    let file = name + ".key"@;
    lemma_profile_is_ascii(name);
    lemma_ascii_bytes(file);
    lemma_ascii_bytes(name);
    let bytes = encode_utf8(file);
    assert(bytes.subrange(bytes.len() - 4, bytes.len() as int) =~= key_ending());
    assert(bytes.take(bytes.len() - 4) =~= encode_utf8(name));
    encode_utf8_valid_utf8(name);
    encode_utf8_decode_utf8(name);
}

/// Two users never share a file.
pub proof fn law_profiles_differ(home: Seq<u8>, name: Seq<char>, name2: Seq<char>)
    requires
        is_user_name(name),
        is_user_name(name2),
        profile_of(home, name) == profile_of(home, name2),
    ensures
        name == name2,
{
    let users = Place::Users.path_of(home);
    let a = encode_utf8(name + ".key"@);
    let b = encode_utf8(name2 + ".key"@);
    reveal_strlit(".key");
    lemma_profile_is_relative(name);
    lemma_profile_is_relative(name2);
    let before = if users.len() > 0 && users.last() != crate::paths::SLASH {
        users + seq![crate::paths::SLASH]
    } else {
        users
    };
    assert(profile_of(home, name).skip(before.len() as int) =~= a);
    assert(profile_of(home, name2).skip(before.len() as int) =~= b);
    lemma_utf8_tells_texts_apart(name + ".key"@, name2 + ".key"@);
    assert((name + ".key"@).len() == name.len() + 4);
    assert((name2 + ".key"@).len() == name2.len() + 4);
    assert((name + ".key"@).take(name.len() as int) =~= name);
    assert((name2 + ".key"@).take(name.len() as int) =~= name2);
}

/// Why there is no master key.
#[derive(Clone, Copy, Debug, PartialEq, Eq, Structural)]
pub enum MasterError {
    /// The file has not 32 bytes.
    InvalidLength,
    /// There is no file, and none may be made.
    Missing,
    /// There is no file, but keys that were sealed with it.
    Lost,
}

impl MasterError {
    /// What the error says.
    pub open spec fn text(self) -> Seq<char> {
        match self {
            MasterError::InvalidLength =>
                "invalid master key length; restore the original master.key"@,
            MasterError::Missing => "master.key is missing; restore it to decrypt registered keys"@,
            MasterError::Lost =>
                "master.key is missing but encrypted users remain; restore it or unregister those users before registering again"@,
        }
    }

    /// What the error says.
    pub fn message(&self) -> (r: String)
        ensures
            r@ == self.text(),
    {
        match self {
            MasterError::InvalidLength =>
                "invalid master key length; restore the original master.key".to_owned(),
            MasterError::Missing => "master.key is missing; restore it to decrypt registered keys"
                .to_owned(),
            MasterError::Lost =>
                "master.key is missing but encrypted users remain; restore it or unregister those users before registering again".to_owned(),
        }
    }
}

/// Whether one of some credential files is encrypted.
pub open spec fn any_encrypted(files: Seq<Vec<u8>>) -> bool {
    exists|i: int| 0 <= i < files.len() && mark().is_prefix_of((#[trigger] files[i])@)
}

/// The master key and whether it is new and has to be kept. It is what the file
/// holds; without a file it is fresh, but never while keys remain that were
/// sealed with another.
pub open spec fn master_of(
    found: Option<Seq<u8>>,
    create: bool,
    users: Seq<Vec<u8>>,
    fresh: Seq<u8>,
) -> Result<(Seq<u8>, bool), MasterError> {
    match found {
        Some(bytes) => if bytes.len() == 32 {
            Ok((bytes, false))
        } else {
            Err(MasterError::InvalidLength)
        },
        None => if !create {
            Err(MasterError::Missing)
        } else if any_encrypted(users) {
            Err(MasterError::Lost)
        } else {
            Ok((fresh, true))
        },
    }
}

/// Decides on the master key, given what its file holds and what the files of
/// the users hold, and fresh random bytes. The flag says that the key is new.
pub fn master_key(
    found: Option<&[u8]>,
    create: bool,
    users: &[Vec<u8>],
    fresh: [u8; 32],
) -> (r: Result<([u8; 32], bool), MasterError>)
    ensures
        ({
            let there = match found {
                Some(bytes) => Some(bytes@),
                None => None,
            };
            match r {
                Ok((key, new)) => master_of(there, create, users@, fresh@) == Ok::<
                    (Seq<u8>, bool),
                    MasterError,
                >((key@, new)),
                Err(e) => master_of(there, create, users@, fresh@) == Err::<
                    (Seq<u8>, bool),
                    MasterError,
                >(e),
            }
        }),
{
    match found {
        Some(bytes) => {
            if bytes.len() != 32 {
                return Err(MasterError::InvalidLength);
            }
            let mut key: [u8; 32] = [0; 32];
            let mut i: usize = 0;
            while i < 32
                invariant
                    i <= 32,
                    bytes@.len() == 32,
                    forall|j: int| 0 <= j < i ==> key@[j] == bytes@[j],
                decreases 32 - i,
            {
                key[i] = bytes[i];
                i = i + 1;
            }
            assert(key@ =~= bytes@);
            Ok((key, false))
        },
        None => {
            if !create {
                return Err(MasterError::Missing);
            }
            let mut i: usize = 0;
            while i < users.len()
                invariant
                    found is None,
                    create,
                    i <= users.len(),
                    forall|j: int| 0 <= j < i ==> !mark().is_prefix_of((#[trigger] users@[j])@),
                decreases users.len() - i,
            {
                if is_encrypted(users[i].as_slice()) {
                    assert(mark().is_prefix_of(users@[i as int]@));
                    return Err(MasterError::Lost);
                }
                i = i + 1;
            }
            Ok((fresh, true))
        },
    }
}

/// A master key is never replaced: where one is there, or keys are that need
/// it, no new one is made.
pub proof fn law_master_key_is_not_replaced(
    found: Option<Seq<u8>>,
    create: bool,
    users: Seq<Vec<u8>>,
    fresh: Seq<u8>,
)
    ensures
        master_of(found, create, users, fresh) matches Ok((key, new)) ==> (new ==> found is None
            && !any_encrypted(users)) && (!new ==> found == Some(key)),
{
}

/// What is done next to put new contents into a file all at once.
#[derive(Clone, Copy, Debug, PartialEq, Eq, Structural)]
pub enum WriteStep {
    /// Create another file beside it.
    Create,
    /// Let no one else read that file.
    Protect,
    /// Write the contents into it.
    Write,
    /// Get them onto the disk.
    Sync,
    /// Give it the name of the old file.
    Replace,
    /// Get the new name onto the disk.
    SyncDirectory,
    /// Remove the other file.
    Discard,
    /// All is done.
    Written,
    /// It could not be done.
    Failed,
}

/// What is done after a step, given whether it succeeded.
pub open spec fn step_after(step: WriteStep, done: bool) -> WriteStep {
    match step {
        WriteStep::Create => if done {
            WriteStep::Protect
        } else {
            WriteStep::Discard
        },
        WriteStep::Protect => if done {
            WriteStep::Write
        } else {
            WriteStep::Discard
        },
        WriteStep::Write => if done {
            WriteStep::Sync
        } else {
            WriteStep::Discard
        },
        WriteStep::Sync => if done {
            WriteStep::Replace
        } else {
            WriteStep::Discard
        },
        WriteStep::Replace => if done {
            WriteStep::SyncDirectory
        } else {
            WriteStep::Discard
        },
        WriteStep::SyncDirectory => if done {
            WriteStep::Written
        } else {
            WriteStep::Discard
        },
        WriteStep::Discard => WriteStep::Failed,
        WriteStep::Written => WriteStep::Written,
        WriteStep::Failed => WriteStep::Failed,
    }
}

/// Decides what is done next to put new contents into a file all at once.
pub fn atomic_write(step: WriteStep, done: bool) -> (r: WriteStep)
    ensures
        r == step_after(step, done),
{
    match step {
        WriteStep::Discard => WriteStep::Failed,
        WriteStep::Written => WriteStep::Written,
        WriteStep::Failed => WriteStep::Failed,
        _ => {
            if !done {
                return WriteStep::Discard;
            }
            match step {
                WriteStep::Create => WriteStep::Protect,
                WriteStep::Protect => WriteStep::Write,
                WriteStep::Write => WriteStep::Sync,
                WriteStep::Sync => WriteStep::Replace,
                WriteStep::Replace => WriteStep::SyncDirectory,
                _ => WriteStep::Written,
            }
        },
    }
}

/// The step that comes after some steps with these outcomes.
pub open spec fn step_reached(outcomes: Seq<bool>) -> WriteStep
    decreases outcomes.len(),
{
    if outcomes.len() == 0 {
        WriteStep::Create
    } else {
        step_after(step_reached(outcomes.drop_last()), outcomes.last())
    }
}

spec fn stage(step: WriteStep) -> int {
    match step {
        WriteStep::Create => 0,
        WriteStep::Protect => 1,
        WriteStep::Write => 2,
        WriteStep::Sync => 3,
        WriteStep::Replace => 4,
        WriteStep::SyncDirectory => 5,
        WriteStep::Written => 6,
        _ => -1,
    }
}

proof fn lemma_stages(outcomes: Seq<bool>)
    ensures
        ({
            let n = stage(step_reached(outcomes));
            &&& n <= outcomes.len()
            &&& 0 <= n < 6 ==> n == outcomes.len()
            &&& forall|i: int| 0 <= i < n ==> outcomes[i]
        }),
    decreases outcomes.len(),
{
    if outcomes.len() > 0 {
        let before = outcomes.drop_last();
        lemma_stages(before);
        assert forall|i: int| 0 <= i < stage(step_reached(outcomes)) implies outcomes[i] by {
            if i < before.len() {
                assert(before[i] == outcomes[i]);
            }
        }
    }
}

/// A file is replaced only after the whole new contents were written, protected
/// and on the disk: whoever reads it finds the old contents or the new. All is
/// done only when every step succeeded.
pub proof fn law_file_is_replaced_whole(outcomes: Seq<bool>)
    ensures
        step_reached(outcomes) == WriteStep::Replace ==> outcomes == seq![true, true, true, true],
        step_reached(outcomes) == WriteStep::Written ==> outcomes.len() >= 6 && outcomes.take(6)
            == seq![true, true, true, true, true, true],
{
    lemma_stages(outcomes);
    if step_reached(outcomes) == WriteStep::Replace {
        assert(outcomes =~= seq![true, true, true, true]);
    }
    if step_reached(outcomes) == WriteStep::Written {
        assert(outcomes.take(6) =~= seq![true, true, true, true, true, true]);
    }
}

/// Whatever fails, the other file is removed before the failure is told.
pub proof fn law_failures_leave_nothing_behind(outcomes: Seq<bool>, done: bool)
    ensures
        step_reached(outcomes) != WriteStep::Failed && step_after(step_reached(outcomes), done)
            == WriteStep::Failed ==> step_reached(outcomes) == WriteStep::Discard,
{
}

/// Names the file beside another one, in the same directory, that new contents
/// are written to first.
pub fn temporary_path(directory: &[u8], id: &str) -> (r: Vec<u8>)
    ensures
        r@ == joined_path(directory@, encode_utf8("."@ + id@ + ".tmp"@)),
{
    let mut name = ".".to_owned();
    name.append(id);
    name.append(".tmp");
    join(directory, name.as_str())
}

/// Why a file with a secret is not read.
#[derive(Clone, Copy, Debug, PartialEq, Eq, Structural)]
pub enum PrivateFileError {
    /// It is no regular file, or others may read it.
    Exposed,
    /// It is too large.
    TooLarge,
}

impl PrivateFileError {
    /// What the error says.
    pub open spec fn text(self) -> Seq<char> {
        match self {
            PrivateFileError::Exposed =>
                "credential/master key must be a regular file with permissions 600"@,
            PrivateFileError::TooLarge => "credential/master key file is too large"@,
        }
    }

    /// What the error says.
    pub fn message(&self) -> (r: String)
        ensures
            r@ == self.text(),
    {
        match self {
            PrivateFileError::Exposed =>
                "credential/master key must be a regular file with permissions 600".to_owned(),
            PrivateFileError::TooLarge => "credential/master key file is too large".to_owned(),
        }
    }
}

/// Decides whether an open file with a secret is read, given its mode and its
/// length, and how many bytes are read at most: one more than it may have.
pub fn read_private(is_file: bool, mode: u32, length: u64, limit: u64) -> (r: Result<
    u64,
    PrivateFileError,
>)
    requires
        limit < u64::MAX,
    ensures
        match r {
            Ok(most) => is_file && mode & 0o777 == PRIVATE_FILE && length <= limit && most == limit
                + 1,
            Err(PrivateFileError::Exposed) => !is_file || mode & 0o777 != PRIVATE_FILE,
            Err(PrivateFileError::TooLarge) => is_file && mode & 0o777 == PRIVATE_FILE && length
                > limit,
        },
{
    if !is_file || mode & 0o777 != PRIVATE_FILE {
        return Err(PrivateFileError::Exposed);
    }
    if length > limit {
        return Err(PrivateFileError::TooLarge);
    }
    Ok(limit + 1)
}

/// Accepts what was read of a file with a secret, unless the file has grown too
/// large meanwhile.
pub fn private_contents(bytes: Vec<u8>, limit: u64) -> (r: Result<Vec<u8>, PrivateFileError>)
    ensures
        match r {
            Ok(accepted) => accepted@ == bytes@ && bytes@.len() <= limit,
            Err(e) => e == PrivateFileError::TooLarge && bytes@.len() > limit,
        },
{
    if bytes.len() as u64 > limit {
        Err(PrivateFileError::TooLarge)
    } else {
        Ok(bytes)
    }
}

/// A user is registered already.
#[derive(Clone, Copy, Debug, PartialEq, Eq, Structural)]
pub struct AlreadyRegistered;

impl AlreadyRegistered {
    /// What the error says.
    pub open spec fn text(self) -> Seq<char> {
        "user already registered; use --replace to update its key"@
    }

    /// What the error says.
    pub fn message(&self) -> (r: String)
        ensures
            r@ == self.text(),
    {
        "user already registered; use --replace to update its key".to_owned()
    }
}

/// Decides whether a key may be registered: not over another one, unless that is
/// to be replaced.
pub fn register(exists: bool, replace: bool) -> (r: Result<(), AlreadyRegistered>)
    ensures
        r is Err <==> exists && !replace,
{
    if exists && !replace {
        Err(AlreadyRegistered)
    } else {
        Ok(())
    }
}

/// Makes the file of a user out of the text that the user gave for a key.
/// Reading the file gives the key back.
pub fn registration(name: &str, text: &str, master: &[u8; 32], nonce: &[u8; 24]) -> (r: Result<
    Vec<u8>,
    InvalidKey,
>)
    ensures
        match r {
            Ok(file) => is_api_key(key_line(text@)) && file@ == sealed_of(
                name@,
                key_line(text@),
                master@,
                nonce@,
            ),
            Err(_) => !is_api_key(key_line(text@)),
        },
        r matches Ok(file) ==> file@.len() <= MAX_FILE && unsealed_of(name@, file@, master@)
            == Ok::<Seq<char>, CredentialError>(key_line(text@)),
{
    let key = read_key(text)?;
    proof {
        lemma_ascii_bytes(key@);
    }
    Ok(seal(name, key.as_str(), master, nonce))
}

/// The key that a user registered.
pub open spec fn registered_of(
    name: Seq<char>,
    bytes: Seq<u8>,
    master: Seq<u8>,
    nonce: Seq<u8>,
) -> Result<(Seq<char>, Option<Seq<u8>>), CredentialError> {
    if is_user_name(name) {
        stored_of(name, bytes, master, nonce)
    } else {
        Err(CredentialError::InvalidUser)
    }
}

/// Reads the key that a user registered, and says what its file is to hold from
/// now on.
pub fn registered_key(name: &str, bytes: &[u8], master: &[u8; 32], nonce: &[u8; 24]) -> (r: Result<
    Stored,
    CredentialError,
>)
    requires
        bytes@.len() <= LONGEST_MESSAGE,
    ensures
        match r {
            Ok(stored) => registered_of(name@, bytes@, master@, nonce@) == Ok::<
                (Seq<char>, Option<Seq<u8>>),
                CredentialError,
            >((stored.key@, option_bytes(stored.rewrite))),
            Err(e) => registered_of(name@, bytes@, master@, nonce@) == Err::<
                (Seq<char>, Option<Seq<u8>>),
                CredentialError,
            >(e),
        },
        r matches Ok(stored) ==> is_api_key(stored.key@),
{
    if !valid_user(name) {
        return Err(CredentialError::InvalidUser);
    }
    read_or_migrate(name, bytes, master, nonce)
}

/// What the user is told about a registration.
#[derive(Clone, Copy, Debug, PartialEq, Eq, Structural)]
pub enum Notice {
    /// A key was registered.
    Registered,
    /// A registration was removed.
    Unregistered,
    /// There was nothing to remove.
    NotRegistered,
    /// A key that was kept in the clear is sealed now.
    Migrated,
}

impl Notice {
    /// What the user is told.
    pub open spec fn text(self, name: Seq<char>) -> Seq<char> {
        match self {
            Notice::Registered => "registered "@ + name + " (encrypted); launch with --user "@
                + name,
            Notice::Unregistered => "unregistered "@ + name
                + "; existing sessions/proxies are unchanged"@,
            Notice::NotRegistered => "user "@ + name + " is not registered"@,
            Notice::Migrated => "Encrypted legacy registration: "@ + name,
        }
    }

    /// What the user is told.
    pub fn message(&self, name: &str) -> (r: String)
        ensures
            r@ == self.text(name@),
    {
        let mut r = match self {
            Notice::Registered => "registered ".to_owned(),
            Notice::Unregistered => "unregistered ".to_owned(),
            Notice::NotRegistered => "user ".to_owned(),
            Notice::Migrated => "Encrypted legacy registration: ".to_owned(),
        };
        r.append(name);
        match self {
            Notice::Registered => {
                r.append(" (encrypted); launch with --user ");
                r.append(name);
            },
            Notice::Unregistered => r.append("; existing sessions/proxies are unchanged"),
            Notice::NotRegistered => r.append(" is not registered"),
            Notice::Migrated => {},
        }
        r
    }
}

/// What is done next to forget a user's key.
#[derive(Clone, Copy, Debug, PartialEq, Eq, Structural)]
pub enum UnregisterStep {
    /// Remove the file.
    Remove,
    /// Get the removal onto the disk.
    SyncDirectory,
    /// Tell the user.
    Tell(Notice),
    /// It could not be done.
    Failed,
}

/// What comes of a step.
#[derive(Clone, Copy, Debug, PartialEq, Eq, Structural)]
pub enum Removal {
    /// It was done.
    Done,
    /// There is no file.
    Missing,
    /// It could not be done.
    Failed,
}

/// What is done after a step to forget a user's key.
pub open spec fn unregister_step_after(step: UnregisterStep, outcome: Removal) -> UnregisterStep {
    match (step, outcome) {
        (UnregisterStep::Remove, Removal::Done) => UnregisterStep::SyncDirectory,
        (UnregisterStep::Remove, Removal::Missing) => UnregisterStep::Tell(Notice::NotRegistered),
        (UnregisterStep::SyncDirectory, Removal::Done) => UnregisterStep::Tell(
            Notice::Unregistered,
        ),
        (UnregisterStep::Tell(notice), _) => UnregisterStep::Tell(notice),
        _ => UnregisterStep::Failed,
    }
}

/// Decides what is done next to forget a user's key.
pub fn unregister(step: UnregisterStep, outcome: Removal) -> (r: UnregisterStep)
    ensures
        r == unregister_step_after(step, outcome),
{
    match (step, outcome) {
        (UnregisterStep::Remove, Removal::Done) => UnregisterStep::SyncDirectory,
        (UnregisterStep::Remove, Removal::Missing) => UnregisterStep::Tell(Notice::NotRegistered),
        (UnregisterStep::SyncDirectory, Removal::Done) => UnregisterStep::Tell(
            Notice::Unregistered,
        ),
        (UnregisterStep::Tell(notice), _) => UnregisterStep::Tell(notice),
        _ => UnregisterStep::Failed,
    }
}

/// The step that comes after some steps with these outcomes.
pub open spec fn unregister_step_reached(outcomes: Seq<Removal>) -> UnregisterStep
    decreases outcomes.len(),
{
    if outcomes.len() == 0 {
        UnregisterStep::Remove
    } else {
        unregister_step_after(unregister_step_reached(outcomes.drop_last()), outcomes.last())
    }
}

/// A user is told that a registration is gone only after its file was removed and
/// that was on the disk, and that there was none only where no file was.
pub proof fn law_removals_are_told_when_they_last(outcomes: Seq<Removal>)
    ensures
        unregister_step_reached(outcomes) == UnregisterStep::Remove ==> outcomes.len() == 0,
        unregister_step_reached(outcomes) == UnregisterStep::SyncDirectory ==> outcomes == seq![
            Removal::Done,
        ],
        unregister_step_reached(outcomes) == UnregisterStep::Tell(Notice::Unregistered)
            ==> outcomes.len() >= 2 && outcomes[0] == Removal::Done && outcomes[1] == Removal::Done,
        unregister_step_reached(outcomes) == UnregisterStep::Tell(Notice::NotRegistered)
            ==> outcomes.len() >= 1 && outcomes[0] == Removal::Missing,
    decreases outcomes.len(),
{
    if outcomes.len() > 0 {
        let before = outcomes.drop_last();
        law_removals_are_told_when_they_last(before);
        assert(outcomes =~= before.push(outcomes.last()));
        if unregister_step_reached(outcomes) == UnregisterStep::SyncDirectory {
            assert(outcomes =~= seq![Removal::Done]);
        }
        if before.len() > 0 {
            assert(before[0] == outcomes[0]);
        }
        if before.len() > 1 {
            assert(before[1] == outcomes[1]);
        }
    }
}

/// Says how many registrations are encrypted.
pub fn encrypted_count(count: u64) -> (r: String)
    ensures
        r@ == "verified encrypted registrations: "@ + crate::digits::decimal_of(count as nat),
{
    let mut r = "verified encrypted registrations: ".to_owned();
    r.append(crate::digits::decimal(count).as_str());
    r
}

/// What a key is bound to tells the user, and no two users share it.
pub proof fn law_keys_are_bound_to_their_users(name: Seq<char>, other: Seq<char>)
    ensures
        bound_name(name) == "codex-rate-proxy:credentials:v1:"@ + name,
        encode_utf8(bound_name(name)) == encode_utf8(bound_name(other)) ==> name == other,
{
    if encode_utf8(bound_name(name)) == encode_utf8(bound_name(other)) {
        lemma_utf8_tells_texts_apart(bound_name(name), bound_name(other));
        let n = "codex-rate-proxy:credentials:v1:"@.len() as int;
        assert(bound_name(name).skip(n) =~= name);
        assert(bound_name(other).skip(n) =~= other);
    }
}

/// A sealed key is eight bytes that tell its version, the nonce, and what the cipher
/// makes of the whole key under the master key, that nonce and the user's name.
pub proof fn law_sealed_keys_have_three_parts(
    name: Seq<char>,
    key: Seq<char>,
    master: Seq<u8>,
    nonce: Seq<u8>,
)
    requires
        nonce.len() == 24,
    ensures
        ({
            let file = sealed_of(name, key, master, nonce);
            &&& file.len() >= 32
            &&& file.take(8) == seq![67u8, 82, 80, 75, 69, 89, 0, 1]
            &&& file.subrange(8, 32) == nonce
            &&& file.skip(32) == xchacha_encrypted(
                master,
                nonce,
                encode_utf8(key),
                encode_utf8("codex-rate-proxy:credentials:v1:"@ + name),
            )
        }),
{
    let file = sealed_of(name, key, master, nonce);
    let encrypted = xchacha_encrypted(
        master,
        nonce,
        encode_utf8(key),
        encode_utf8(bound_name(name)),
    );
    assert(file.take(8) =~= seq![67u8, 82, 80, 75, 69, 89, 0, 1]);
    assert(file.subrange(8, 32) =~= nonce);
    assert(file.skip(32) =~= encrypted);
}

/// A file is opened by its own nonce: what stands behind that is what is decrypted,
/// all of it, under the user's name. A file with another head, or too short for a
/// nonce and a tag, is damaged.
pub proof fn law_files_are_opened_by_their_parts(
    name: Seq<char>,
    master: Seq<u8>,
    nonce: Seq<u8>,
    encrypted: Seq<u8>,
    bytes: Seq<u8>,
)
    requires
        nonce.len() == 24,
    ensures
        encrypted.len() >= 16 ==> unsealed_of(
            name,
            seq![67u8, 82, 80, 75, 69, 89, 0, 1] + nonce + encrypted,
            master,
        ) == opened_of(
            xchacha_decrypted(
                master,
                nonce,
                encrypted,
                encode_utf8("codex-rate-proxy:credentials:v1:"@ + name),
            ),
        ),
        bytes.len() < 48 ==> unsealed_of(name, bytes, master) == Err::<
            Seq<char>,
            CredentialError,
        >(CredentialError::Damaged),
        bytes.len() >= 48 && bytes.take(8) != seq![67u8, 82, 80, 75, 69, 89, 0, 1]
            ==> unsealed_of(name, bytes, master) == Err::<Seq<char>, CredentialError>(
            CredentialError::Damaged,
        ),
{
    let head = seq![67u8, 82, 80, 75, 69, 89, 0, 1];
    let file = head + nonce + encrypted;
    assert(head =~= magic());
    assert(file.subrange(0, 8) =~= head);
    assert(file.subrange(8, 32) =~= nonce);
    assert(file.skip(32) =~= encrypted);
    if bytes.len() >= 48 {
        assert(bytes.take(8) =~= bytes.subrange(0, 8));
    }
}

/// What was sealed is accepted as it is, if it is a key; what cannot be decrypted,
/// is no text or no key is told apart.
pub proof fn law_opened_keys_are_whole(key: Seq<char>, bytes: Seq<u8>)
    ensures
        is_api_key(key) ==> opened_of(Some(encode_utf8(key))) == Ok::<Seq<char>, CredentialError>(
            key,
        ),
        !is_api_key(key) ==> opened_of(Some(encode_utf8(key))) == Err::<
            Seq<char>,
            CredentialError,
        >(CredentialError::InvalidKey),
        !valid_utf8(bytes) ==> opened_of(Some(bytes)) == Err::<Seq<char>, CredentialError>(
            CredentialError::NotText,
        ),
        opened_of(None) == Err::<Seq<char>, CredentialError>(CredentialError::Unauthentic),
{
    encode_utf8_valid_utf8(key);
    encode_utf8_decode_utf8(key);
}

/// A key that was written in the clear, with or without line ends behind it, is
/// read as it is; a file that holds anything else is refused.
pub proof fn law_keys_in_the_clear_are_read(
    key: Seq<char>,
    ends: Seq<char>,
    text: Seq<char>,
    bytes: Seq<u8>,
)
    requires
        is_api_key(key),
        forall|i: int| 0 <= i < ends.len() ==> ends[i] == '\r' || ends[i] == '\n',
    ensures
        legacy_of(encode_utf8(key + ends)) == Ok::<Seq<char>, CredentialError>(key),
        !is_api_key(key_line(text)) ==> legacy_of(encode_utf8(text)) == Err::<
            Seq<char>,
            CredentialError,
        >(CredentialError::InvalidKey),
        !valid_utf8(bytes) ==> legacy_of(bytes) == Err::<Seq<char>, CredentialError>(
            CredentialError::LegacyNotText,
        ),
{
    crate::keys::law_line_ends_do_not_count(key, ends);
    encode_utf8_valid_utf8(key + ends);
    encode_utf8_decode_utf8(key + ends);
    encode_utf8_valid_utf8(text);
    encode_utf8_decode_utf8(text);
}

/// A file that begins with the letters `CRPKEY` is opened and never written again;
/// any other is read in the clear, and from then on holds the key that was read,
/// sealed for the same user with the nonce that was given.
pub proof fn law_only_keys_in_the_clear_are_rewritten(
    name: Seq<char>,
    bytes: Seq<u8>,
    master: Seq<u8>,
    nonce: Seq<u8>,
)
    ensures
        ({
            let sealed = bytes.len() >= 6 && bytes.take(6) == seq![67u8, 82, 80, 75, 69, 89];
            let stored = stored_of(name, bytes, master, nonce);
            &&& sealed ==> match unsealed_of(name, bytes, master) {
                Ok(key) => stored == Ok::<(Seq<char>, Option<Seq<u8>>), CredentialError>(
                    (key, None),
                ),
                Err(e) => stored == Err::<(Seq<char>, Option<Seq<u8>>), CredentialError>(e),
            }
            &&& !sealed ==> match legacy_of(bytes) {
                Ok(key) => stored == Ok::<(Seq<char>, Option<Seq<u8>>), CredentialError>(
                    (key, Some(sealed_of(name, key, master, nonce))),
                ),
                Err(e) => stored == Err::<(Seq<char>, Option<Seq<u8>>), CredentialError>(e),
            }
            &&& sealed ==> master_need_of(bytes) == Ok::<MasterNeed, CredentialError>(
                MasterNeed::Existing,
            )
            &&& !sealed && legacy_of(bytes) is Ok ==> master_need_of(bytes) == Ok::<
                MasterNeed,
                CredentialError,
            >(MasterNeed::Any)
            &&& is_user_name(name) ==> registered_of(name, bytes, master, nonce) == stored
            &&& !is_user_name(name) ==> registered_of(name, bytes, master, nonce) == Err::<
                (Seq<char>, Option<Seq<u8>>),
                CredentialError,
            >(CredentialError::InvalidUser)
        }),
{
    lemma_letters(bytes);
}

proof fn lemma_letters(bytes: Seq<u8>)
    ensures
        mark().is_prefix_of(bytes) <==> bytes.len() >= 6 && bytes.take(6) == seq![
            67u8,
            82,
            80,
            75,
            69,
            89,
        ],
{
    assert(mark() =~= seq![67u8, 82, 80, 75, 69, 89]);
    if bytes.len() >= 6 {
        assert(bytes.take(6) =~= bytes.subrange(0, 6));
    }
}

/// A user name has 1 to 64 characters: one more letter, digit, underscore or hyphen
/// makes a longer one, any other character makes it none.
pub proof fn law_user_names_are_plain(name: Seq<char>, c: char)
    ensures
        ({
            let plain = ('a' <= c && c <= 'z') || ('A' <= c && c <= 'Z') || ('0' <= c && c <= '9')
                || c == '_' || c == '-';
            &&& !is_user_name(Seq::empty())
            &&& is_user_name(seq![c]) <==> plain
            &&& is_user_name(name) && name.len() < 64 ==> (is_user_name(name.push(c)) <==> plain)
            &&& name.len() >= 64 ==> !is_user_name(name.push(c))
        }),
{
    assert(seq![c][0] == c);
    assert(name.push(c)[name.len() as int] == c);
    if is_user_name(name) {
        assert forall|i: int| 0 <= i < name.len() implies is_user_char(
            #[trigger] name.push(c)[i],
        ) by {
            assert(name.push(c)[i] == name[i]);
        }
    }
}

/// A file is taken for a user's only where its name is that user's name and `.key`
/// behind it. Files whose names do not end so, or consist of that alone, are passed
/// over.
pub proof fn law_only_key_files_have_users(file: Seq<u8>)
    ensures
        registered_user_of(file) matches Ok(Some(name)) ==> is_user_name(name) && file
            == encode_utf8(name) + seq![46u8, 107, 101, 121],
        registered_user_of(file) == Ok::<Option<Seq<char>>, CredentialError>(None) <==> file.len()
            <= 4 || file.subrange(file.len() - 4, file.len() as int) != seq![
            46u8,
            107,
            101,
            121,
        ],
{
    let ending = seq![46u8, 107, 101, 121];
    assert(key_ending() =~= ending);
    if names_key_file(file) {
        let n = file.len() as int;
        let stem = file.take(n - 4);
        assert(file.subrange(n - 4, n) == ending);
        assert(file =~= stem + file.subrange(n - 4, n));
        if valid_utf8(stem) {
            decode_utf8_encode_utf8(stem);
        }
    }
}

/// The file of a user is called by the user's name and `.key`, in the directory of
/// the users.
pub proof fn law_profiles_are_called_by_their_users(home: Seq<u8>, name: Seq<char>)
    requires
        is_user_name(name),
    ensures
        ({
            let users = Place::Users.path_of(home);
            let file = encode_utf8(name + ".key"@);
            let path = profile_of(home, name);
            &&& users.len() > 0 && users.last() != 47 ==> path == users + seq![47u8] + file
            &&& users.len() > 0 && users.last() == 47 ==> path == users + file
        }),
{
    lemma_profile_is_relative(name);
}

/// A master key of 32 bytes that is there is used as it is, whatever else holds,
/// and one of another length is refused. Where none is there, the fresh one is used
/// and kept if one may be made and no sealed key remains.
pub proof fn law_master_keys_are_used_or_made(
    bytes: Seq<u8>,
    create: bool,
    users: Seq<Vec<u8>>,
    fresh: Seq<u8>,
)
    ensures
        bytes.len() == 32 ==> master_of(Some(bytes), create, users, fresh) == Ok::<
            (Seq<u8>, bool),
            MasterError,
        >((bytes, false)),
        bytes.len() != 32 ==> master_of(Some(bytes), create, users, fresh) == Err::<
            (Seq<u8>, bool),
            MasterError,
        >(MasterError::InvalidLength),
        !create ==> master_of(None, create, users, fresh) == Err::<(Seq<u8>, bool), MasterError>(
            MasterError::Missing,
        ),
        ({
            let remain = exists|i: int|
                0 <= i < users.len() && (#[trigger] users[i])@.len() >= 6 && users[i]@.take(6)
                    == seq![67u8, 82, 80, 75, 69, 89];
            &&& create && remain ==> master_of(None, create, users, fresh) == Err::<
                (Seq<u8>, bool),
                MasterError,
            >(MasterError::Lost)
            &&& create && !remain ==> master_of(None, create, users, fresh) == Ok::<
                (Seq<u8>, bool),
                MasterError,
            >((fresh, true))
        }),
{
    assert forall|i: int| 0 <= i < users.len() implies (mark().is_prefix_of(
        (#[trigger] users[i])@,
    ) <==> users[i]@.len() >= 6 && users[i]@.take(6) == seq![67u8, 82, 80, 75, 69, 89]) by {
        lemma_letters(users[i]@);
    }
}

/// A file is written in six steps, one after the other; after a step that fails the
/// other file is removed, and that is the end.
pub proof fn law_files_are_written_in_order(outcomes: Seq<bool>, done: bool)
    ensures
        step_reached(Seq::empty()) == WriteStep::Create,
        step_reached(seq![true]) == WriteStep::Protect,
        step_reached(seq![true, true]) == WriteStep::Write,
        step_reached(seq![true, true, true]) == WriteStep::Sync,
        step_reached(seq![true, true, true, true]) == WriteStep::Replace,
        step_reached(seq![true, true, true, true, true]) == WriteStep::SyncDirectory,
        step_reached(seq![true, true, true, true, true, true]) == WriteStep::Written,
        step_reached(outcomes) == WriteStep::Discard ==> step_reached(outcomes.push(done))
            == WriteStep::Failed,
        step_reached(outcomes) == WriteStep::Written || step_reached(outcomes) == WriteStep::Failed
            ==> step_reached(outcomes.push(done)) == step_reached(outcomes),
        !done && step_reached(outcomes) != WriteStep::Written && step_reached(outcomes)
            != WriteStep::Failed && step_reached(outcomes) != WriteStep::Discard ==> step_reached(
            outcomes.push(done),
        ) == WriteStep::Discard,
{
    reveal_with_fuel(step_reached, 7);
    assert(outcomes.push(done).drop_last() =~= outcomes);
    assert(seq![true].drop_last() =~= Seq::empty());
    assert(seq![true, true].drop_last() =~= seq![true]);
    assert(seq![true, true, true].drop_last() =~= seq![true, true]);
    assert(seq![true, true, true, true].drop_last() =~= seq![true, true, true]);
    assert(seq![true, true, true, true, true].drop_last() =~= seq![true, true, true, true]);
    assert(seq![true, true, true, true, true, true].drop_last() =~= seq![
        true,
        true,
        true,
        true,
        true,
    ]);
}

/// A user's key is forgotten by removing its file and getting that onto the disk;
/// where there is no file the user is told so, and any other failure is told as
/// one. What was told stays.
pub proof fn law_keys_are_forgotten_in_order(outcome: Removal, notice: Notice)
    ensures
        unregister_step_after(UnregisterStep::Remove, Removal::Done)
            == UnregisterStep::SyncDirectory,
        unregister_step_after(UnregisterStep::SyncDirectory, Removal::Done)
            == UnregisterStep::Tell(Notice::Unregistered),
        unregister_step_after(UnregisterStep::Remove, Removal::Missing) == UnregisterStep::Tell(
            Notice::NotRegistered,
        ),
        unregister_step_after(UnregisterStep::Remove, Removal::Failed) == UnregisterStep::Failed,
        outcome != Removal::Done ==> unregister_step_after(UnregisterStep::SyncDirectory, outcome)
            == UnregisterStep::Failed,
        unregister_step_after(UnregisterStep::Failed, outcome) == UnregisterStep::Failed,
        unregister_step_after(UnregisterStep::Tell(notice), outcome) == UnregisterStep::Tell(
            notice,
        ),
{
}

/// The largest file that is read is exactly that of the longest key: eight bytes of
/// head, 24 of nonce and 16 of tag more. A master key has 32 bytes.
pub proof fn law_longest_keys_fit(length: nat)
    ensures
        length <= 16384 <==> 8 + 24 + length + 16 <= MAX_FILE,
        MASTER_LENGTH == 32,
{
}

/// What a user is told of a registration names the user.
pub proof fn law_notices_name_the_user(name: Seq<char>)
    ensures
        Notice::Registered.text(name) == "registered "@ + name
            + " (encrypted); launch with --user "@ + name,
        Notice::Unregistered.text(name) == "unregistered "@ + name
            + "; existing sessions/proxies are unchanged"@,
        Notice::NotRegistered.text(name) == "user "@ + name + " is not registered"@,
        Notice::Migrated.text(name) == "Encrypted legacy registration: "@ + name,
{
}

} // verus!
