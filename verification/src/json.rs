//! Texts in JSON.

use vstd::prelude::*;
use vstd::string::*;
use vstd::utf8::encode_utf8;

use crate::digits::hex_digit;
use crate::text::option_view;

verus! {

/// What a character looks like inside a JSON text.
pub open spec fn json_char(c: char) -> Seq<char> {
    let n = c as u32;
    if c == '"' || c == '\\' {
        seq!['\\', c]
    } else if n == 8 {
        seq!['\\', 'b']
    } else if n == 9 {
        seq!['\\', 't']
    } else if n == 10 {
        seq!['\\', 'n']
    } else if n == 12 {
        seq!['\\', 'f']
    } else if n == 13 {
        seq!['\\', 'r']
    } else if n < 32 {
        seq!['\\', 'u', '0', '0', hex_digit((n / 16) as u8), hex_digit((n % 16) as u8)]
    } else {
        seq![c]
    }
}

/// The inside of a JSON text.
pub open spec fn json_inside(text: Seq<char>) -> Seq<char>
    decreases text.len(),
{
    if text.len() == 0 {
        Seq::empty()
    } else {
        json_inside(text.drop_last()) + json_char(text.last())
    }
}

/// A text in JSON, quotes and all.
pub open spec fn json_of(text: Seq<char>) -> Seq<char> {
    seq!['"'] + json_inside(text) + seq!['"']
}

/// Calls `serde_json::to_string` on a text. It does not fail: it puts the text
/// between quotes and escapes quotes, backslashes and control characters.
#[verifier::external_body]
pub(crate) fn json_text(text: &str) -> (r: Option<String>)
    ensures
        option_view(r) == Some(json_of(text@)),
{
    serde_json::to_string(text).ok()
}

/// An object with two texts in JSON.
pub open spec fn json_pair(
    first: Seq<char>,
    first_value: Seq<char>,
    second: Seq<char>,
    second_value: Seq<char>,
) -> Seq<char> {
    "{"@ + json_of(first) + ":"@ + json_of(first_value) + ","@ + json_of(second) + ":"@ + json_of(
        second_value,
    ) + "}"@
}

/// The text that an object in JSON holds under a name.
pub uninterp spec fn json_text_under(data: Seq<u8>, name: Seq<char>) -> Option<Seq<char>>;

/// Calls `serde_json::from_slice` for a `serde_json::Value` and picks the text
/// under a name out of it. What it gives depends on the arguments alone: there
/// is none where the data is no JSON, or no object, or holds no text there. Of
/// an object with a text under `config` and one under `gateway` it gives each
/// under its name.
#[verifier::external_body]
pub(crate) fn json_field(data: &[u8], name: &str) -> (r: Option<String>)
    ensures
        option_view(r) == json_text_under(data@, name@),
        forall|first: Seq<char>, second: Seq<char>| #![auto]
            name@ == "config"@ && data@ == encode_utf8(
                json_pair("config"@, first, "gateway"@, second),
            ) ==> option_view(r) == Some(first),
        forall|first: Seq<char>, second: Seq<char>| #![auto]
            name@ == "gateway"@ && data@ == encode_utf8(
                json_pair("config"@, first, "gateway"@, second),
            ) ==> option_view(r) == Some(second),
{
    let value: serde_json::Value = serde_json::from_slice(data).ok()?;
    Some(value.get(name)?.as_str()?.to_owned())
}

} // verus!
