//! API keys: which are acceptable, where they come from and how they are read.

use vstd::prelude::*;
use vstd::string::*;

use crate::text::{chars_of, trim_end_matches, without_trailing};

verus! {

/// The most characters that a key may have.
pub const MAX_KEY: usize = 16384;

/// The most bytes that are read of standard input to find a key: the longest key
/// and a line end.
pub const KEY_INPUT_LIMIT: u64 = 16386;

/// A key is one nonempty line of printable ASCII without spaces.
pub open spec fn is_api_key(key: Seq<char>) -> bool {
    &&& 0 < key.len() <= MAX_KEY
    &&& forall|i: int| 0 <= i < key.len() ==> 33 <= (#[trigger] key[i]) as u32 <= 126
}

/// A text that is no API key.
#[derive(Clone, Copy, Debug, PartialEq, Eq, Structural)]
pub struct InvalidKey;

impl InvalidKey {
    /// What the error says.
    pub open spec fn text(self) -> Seq<char> {
        "API key must be a nonempty single line of printable ASCII without spaces"@
    }

    /// What the error says.
    pub fn message(&self) -> (r: String)
        ensures
            r@ == self.text(),
    {
        "API key must be a nonempty single line of printable ASCII without spaces".to_owned()
    }
}

/// Accepts what is an API key and nothing else.
pub fn validate_key(key: &str) -> (r: Result<(), InvalidKey>)
    ensures
        r is Ok <==> is_api_key(key@),
{
    let v = chars_of(key);
    if v.len() == 0 || v.len() > MAX_KEY {
        return Err(InvalidKey);
    }
    let mut i: usize = 0;
    while i < v.len()
        invariant
            v@ == key@,
            i <= v.len(),
            0 < v.len() <= MAX_KEY,
            forall|j: int| 0 <= j < i ==> 33 <= (#[trigger] key@[j]) as u32 <= 126,
        decreases v.len() - i,
    {
        let n: u32 = v[i] as u32;
        if !(33 <= n && n <= 126) {
            assert(key@[i as int] as u32 == n);
            return Err(InvalidKey);
        }
        i = i + 1;
    }
    Ok(())
}

/// What a key is after its line ends are cut off.
pub open spec fn key_line(value: Seq<char>) -> Seq<char> {
    without_trailing(value, seq!['\r', '\n'])
}

/// Takes the key out of a text that may end with line ends.
pub fn read_key(value: &str) -> (r: Result<String, InvalidKey>)
    ensures
        match r {
            Ok(key) => is_api_key(key_line(value@)) && key@ == key_line(value@),
            Err(_) => !is_api_key(key_line(value@)),
        },
{
    let ends: [char; 2] = ['\r', '\n'];
    let key = trim_end_matches(value, &ends);
    assert(ends@ =~= seq!['\r', '\n']);
    match validate_key(key) {
        Ok(()) => Ok(key.to_owned()),
        Err(e) => Err(e),
    }
}

/// Cutting line ends off a key, however many, gives the key back.
pub proof fn law_line_ends_do_not_count(key: Seq<char>, ends: Seq<char>)
    requires
        is_api_key(key),
        forall|i: int| 0 <= i < ends.len() ==> ends[i] == '\r' || ends[i] == '\n',
    ensures
        key_line(key + ends) == key,
    decreases ends.len(),
{
    let set = seq!['\r', '\n'];
    assert(set[0] == '\r' && set[1] == '\n');
    if ends.len() == 0 {
        assert(key + ends =~= key);
        assert(33 <= key[key.len() - 1] as u32);
    } else {
        assert((key + ends).last() == ends.last());
        assert((key + ends).drop_last() =~= key + ends.drop_last());
        law_line_ends_do_not_count(key, ends.drop_last());
    }
}

/// Where the user says that the key is.
#[derive(Debug)]
pub enum KeySource {
    /// In a file.
    File(String),
    /// In an environment variable.
    Variable(String),
    /// On standard input.
    Stdin,
    /// The user types it.
    Ask,
}

/// A key source as characters.
pub enum SourceModel {
    /// In a file.
    File(Seq<char>),
    /// In an environment variable.
    Variable(Seq<char>),
    /// On standard input.
    Stdin,
    /// The user types it.
    Ask,
}

impl View for KeySource {
    type V = SourceModel;

    open spec fn view(&self) -> SourceModel {
        match self {
            KeySource::File(path) => SourceModel::File(path@),
            KeySource::Variable(name) => SourceModel::Variable(name@),
            KeySource::Stdin => SourceModel::Stdin,
            KeySource::Ask => SourceModel::Ask,
        }
    }
}

/// What is done to get at the key.
#[derive(Debug)]
pub enum KeyInput {
    /// Look where the user said.
    From(KeySource),
    /// Take the account-wide key that the environment holds.
    Account(String),
}

/// Decides where a key is read. Without a choice of the user it is the
/// account-wide key of the environment, or what the user types if that is
/// missing or empty.
pub fn key_input(source: Option<KeySource>, account: Option<String>) -> (r: KeyInput)
    ensures
        match (source, account, r) {
            (Some(s), _, KeyInput::From(t)) => t == s,
            (None, Some(key), KeyInput::Account(k)) => k == key && key@.len() > 0,
            (None, Some(key), KeyInput::From(t)) => t == KeySource::Ask && key@.len() == 0,
            (None, None, KeyInput::From(t)) => t == KeySource::Ask,
            _ => false,
        },
{
    match source {
        Some(s) => KeyInput::From(s),
        None => match account {
            Some(key) => if key.as_str().is_empty() {
                KeyInput::From(KeySource::Ask)
            } else {
                KeyInput::Account(key)
            },
            None => KeyInput::From(KeySource::Ask),
        },
    }
}

/// Decides where a key to register is read: never from the account-wide key.
pub fn registration_input(source: Option<KeySource>) -> (r: KeySource)
    ensures
        r == (match source {
            Some(s) => s,
            None => KeySource::Ask,
        }),
{
    match source {
        Some(s) => s,
        None => KeySource::Ask,
    }
}

/// Of a text only the line ends at its end go, all of them; what is left begins
/// the text.
pub proof fn law_only_line_ends_are_cut_off(value: Seq<char>)
    ensures
        ({
            let key = key_line(value);
            &&& key.is_prefix_of(value)
            &&& key.len() > 0 ==> key.last() != '\r' && key.last() != '\n'
            &&& forall|i: int|
                key.len() <= i < value.len() ==> #[trigger] value[i] == '\r' || value[i] == '\n'
        }),
{
    let set = seq!['\r', '\n'];
    crate::text::law_only_trailing_characters_go(value, set);
    assert(set[0] == '\r' && set[1] == '\n');
    let key = key_line(value);
    assert forall|i: int| key.len() <= i < value.len() implies #[trigger] value[i] == '\r'
        || value[i] == '\n' by {
        assert(set.contains(value[i]));
    }
}

/// A key has 1 to 16384 characters, each of them printable ASCII and no space: one
/// more character of that kind makes a longer key, any other makes it none.
pub proof fn law_keys_are_printable(key: Seq<char>, c: char)
    ensures
        is_api_key(key) ==> 1 <= key.len() <= 16384,
        !is_api_key(Seq::empty()),
        is_api_key(key) && key.len() < 16384 ==> (is_api_key(key.push(c)) <==> '!' <= c <= '~'),
        is_api_key(seq![c]) <==> '!' <= c <= '~',
        key.len() >= 16384 ==> !is_api_key(key.push(c)),
{
    assert(seq![c][0] == c);
    assert(key.push(c)[key.len() as int] == c);
    if is_api_key(key) && '!' <= c <= '~' {
        assert forall|i: int| 0 <= i < key.push(c).len() implies 33 <= (#[trigger] key.push(c)[i])
            as u32 <= 126 by {
            if i < key.len() {
                assert(key.push(c)[i] == key[i]);
            }
        }
    }
}

/// As many bytes are read of standard input as the longest key and a line end of
/// two characters have.
pub proof fn law_longest_keys_are_read_whole(length: nat)
    ensures
        length <= 16384 <==> length + 2 <= KEY_INPUT_LIMIT,
{
}

} // verus!
