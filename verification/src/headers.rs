//! Which header fields pass through the proxy.

use axum::http::{HeaderMap, HeaderValue};
use vstd::prelude::*;
use vstd::string::*;

use crate::text::{lower, same_text, to_lower};

verus! {

/// `HeaderMap` of the crate `http`, as `axum` hands it on.
#[verifier::external_type_specification]
#[verifier::external_body]
#[verifier::reject_recursive_types(T)]
pub struct ExHeaderMap<T>(axum::http::HeaderMap<T>);

/// `HeaderValue` of the crate `http`, as `axum` hands it on.
#[verifier::external_type_specification]
#[verifier::external_body]
pub struct ExHeaderValue(axum::http::HeaderValue);

/// The value of a field.
pub struct FieldValue {
    /// What it says.
    pub bytes: Seq<u8>,
    /// Whether it is marked as one that is not to be shown.
    pub sensitive: bool,
}

/// Header fields: the values of each name, in order. Names have small letters.
pub type Fields = Map<Seq<char>, Seq<FieldValue>>;

/// The fields that a header map holds.
pub uninterp spec fn header_fields(map: HeaderMap<HeaderValue>) -> Fields;

/// A map with fewer names than this always has room for one more. From here on a
/// map whose names collide often may have none.
pub const ROOMY: usize = 6554;

/// Whether a character may stand in the name of a field: a small letter, a
/// digit or one of a few signs.
pub open spec fn is_name_char(c: char) -> bool {
    ||| 'a' <= c <= 'z'
    ||| '0' <= c <= '9'
    ||| '#' <= c <= '\''
    ||| '^' <= c <= '`'
    ||| c == '!' || c == '"' || c == '*' || c == '+' || c == '-' || c == '.' || c == '|'
        || c == '~'
}

/// Whether a text can be the name of a field.
pub open spec fn is_field_name(name: Seq<char>) -> bool {
    0 < name.len() <= 65535 && forall|i: int|
        0 <= i < name.len() ==> is_name_char(#[trigger] name[i])
}

/// Whether bytes can be the value of a field: no control character but the tab.
pub open spec fn is_field_value(value: Seq<u8>) -> bool {
    forall|i: int|
        0 <= i < value.len() ==> #[trigger] value[i] == 9 || (value[i] >= 32 && value[i] != 127)
}

/// A list of fields as characters and bytes.
pub open spec fn plain(list: Seq<(String, Vec<u8>, bool)>) -> Seq<(Seq<char>, FieldValue)> {
    Seq::new(
        list.len(),
        |i: int| (list[i].0@, FieldValue { bytes: list[i].1@, sensitive: list[i].2 }),
    )
}

/// No fields at all.
pub open spec fn no_fields() -> Fields {
    Map::empty()
}

/// The values of a name, none where there is no such field.
pub open spec fn values_of(fields: Fields, name: Seq<char>) -> Seq<FieldValue> {
    if fields.contains_key(name) {
        fields[name]
    } else {
        Seq::empty()
    }
}

/// What the values of a name say.
pub open spec fn bytes_of(fields: Fields, name: Seq<char>) -> Seq<Seq<u8>> {
    let values = values_of(fields, name);
    Seq::new(values.len(), |i: int| values[i].bytes)
}

/// Fields with one more value behind the others of its name.
pub open spec fn appended(fields: Fields, name: Seq<char>, value: FieldValue) -> Fields {
    fields.insert(name, values_of(fields, name).push(value))
}

/// The fields that come of appending a list, one by one, to nothing.
pub open spec fn grouped(list: Seq<(Seq<char>, FieldValue)>) -> Fields
    decreases list.len(),
{
    if list.len() == 0 {
        no_fields()
    } else {
        appended(grouped(list.drop_last()), list.last().0, list.last().1)
    }
}

/// Calls `HeaderMap::new`, which makes an empty map.
#[verifier::external_body]
fn new_map() -> (r: HeaderMap<HeaderValue>)
    ensures
        header_fields(r) == no_fields(),
{
    HeaderMap::new()
}

/// Calls `HeaderMap::iter` and copies each name and value out, with the mark of
/// the value. The values of one name come in their order; the order of the names
/// is open. Names and values are of the kind that a header map admits.
#[verifier::external_body]
fn field_list(map: &HeaderMap<HeaderValue>) -> (r: Vec<(String, Vec<u8>, bool)>)
    ensures
        header_fields(*map) == grouped(plain(r@)),
        forall|i: int|
            0 <= i < r@.len() ==> is_field_name((#[trigger] r@[i]).0@) && is_field_value(r@[i].1@),
{
    map.iter()
        .map(|(n, v)| (n.as_str().to_owned(), v.as_bytes().to_vec(), v.is_sensitive()))
        .collect()
}

/// Calls `HeaderMap::try_append`, which puts a value behind those that the
/// name has. It fails only where the map has at least `ROOMY` names, and then
/// changes nothing it holds.
#[verifier::external_body]
fn try_append(map: &mut HeaderMap<HeaderValue>, name: &str, value: &[u8], sensitive: bool) -> (r:
    bool)
    requires
        is_field_name(name@),
        is_field_value(value@),
    ensures
        r ==> header_fields(*final(map)) == appended(
            header_fields(*old(map)),
            name@,
            (FieldValue { bytes: value@, sensitive }),
        ),
        !r ==> header_fields(*final(map)) == header_fields(*old(map)),
        !r ==> header_fields(*old(map)).dom().finite(),
        !r ==> header_fields(*old(map)).dom().len() >= ROOMY,
{
    let name = axum::http::HeaderName::from_lowercase(name.as_bytes()).expect("a field name");
    let mut value = HeaderValue::from_bytes(value).expect("a field value");
    value.set_sensitive(sensitive);
    map.try_append(name, value).is_ok()
}

/// Calls `HeaderMap::get_all` and copies out what the values say: all that the
/// name has, in their order.
#[verifier::external_body]
fn values_named(map: &HeaderMap<HeaderValue>, name: &str) -> (r: Vec<Vec<u8>>)
    requires
        is_field_name(name@),
        !name@.contains('"'),
    ensures
        Seq::new(r@.len(), |i: int| r@[i]@) == bytes_of(header_fields(*map), name@),
{
    map.get_all(name).iter().map(|value| value.as_bytes().to_vec()).collect()
}

/// The fields that concern one connection only, whatever their case.
pub open spec fn hop_by_hop(name: Seq<char>) -> bool {
    let n = lower(name);
    ||| n == "connection"@
    ||| n == "keep-alive"@
    ||| n == "proxy-authenticate"@
    ||| n == "proxy-authorization"@
    ||| n == "te"@
    ||| n == "trailer"@
    ||| n == "transfer-encoding"@
    ||| n == "upgrade"@
}

/// Whether a field concerns one connection only.
pub fn is_hop_by_hop(name: &str) -> (r: bool)
    ensures
        r == hop_by_hop(name@),
{
    let n = to_lower(name);
    let n = n.as_str();
    same_text(n, "connection") || same_text(n, "keep-alive") || same_text(n, "proxy-authenticate")
        || same_text(n, "proxy-authorization") || same_text(n, "te") || same_text(n, "trailer")
        || same_text(n, "transfer-encoding") || same_text(n, "upgrade")
}

/// Which way a message goes.
#[derive(Clone, Copy, Debug, PartialEq, Eq, Structural)]
pub enum Direction {
    /// To the upstream.
    Request,
    /// Back to the client.
    Response,
}

/// The fields that the proxy does not hand on. The next hop has a host and a
/// length of its own.
pub open spec fn is_withheld(direction: Direction, name: Seq<char>) -> bool {
    hop_by_hop(name) || (direction == Direction::Request && (name == "host"@ || name
        == "content-length"@))
}

fn withheld(direction: Direction, name: &str) -> (r: bool)
    ensures
        r == is_withheld(direction, name@),
{
    is_hop_by_hop(name) || match direction {
        Direction::Request => same_text(name, "host") || same_text(name, "content-length"),
        Direction::Response => false,
    }
}

/// The fields that are handed on.
pub open spec fn passed_on(direction: Direction, fields: Fields) -> Fields {
    Map::new(
        |name: Seq<char>| fields.contains_key(name) && !is_withheld(direction, name),
        |name: Seq<char>| fields[name],
    )
}

/// All fields of both; the values of the first come first.
pub open spec fn joined(first: Fields, second: Fields) -> Fields {
    Map::new(
        |name: Seq<char>| first.contains_key(name) || second.contains_key(name),
        |name: Seq<char>| values_of(first, name) + values_of(second, name),
    )
}

/// A header map has no room for one more field.
#[derive(Clone, Copy, Debug, PartialEq, Eq, Structural)]
pub struct HeadersFull;

proof fn lemma_grouped_is_finite(list: Seq<(Seq<char>, FieldValue)>)
    ensures
        grouped(list).dom().finite(),
    decreases list.len(),
{
    if list.len() > 0 {
        lemma_grouped_is_finite(list.drop_last());
    }
}

/// Whether some fields are the beginning of others: each name has the first of
/// the values that it has there.
pub open spec fn is_begun(part: Fields, whole: Fields) -> bool {
    forall|name: Seq<char>| #[trigger]
        values_of(part, name).is_prefix_of(values_of(whole, name))
}

proof fn lemma_list_begins(list: Seq<(Seq<char>, FieldValue)>, count: int)
    requires
        0 <= count <= list.len(),
    ensures
        is_begun(grouped(list.take(count)), grouped(list)),
        grouped(list.take(count)).dom().subset_of(grouped(list).dom()),
    decreases list.len(),
{
    let part = grouped(list.take(count));
    if count < list.len() {
        let shorter = list.drop_last();
        lemma_list_begins(shorter, count);
        assert(shorter.take(count) =~= list.take(count));
        assert forall|name: Seq<char>| #[trigger]
            values_of(part, name).is_prefix_of(values_of(grouped(list), name)) by {
            let few = values_of(part, name);
            let most = values_of(grouped(shorter), name);
            let all = values_of(grouped(list), name);
            assert(few.is_prefix_of(most));
            assert(most.subrange(0, few.len() as int) =~= few);
            assert(all.subrange(0, few.len() as int) =~= few);
        }
    } else {
        assert(list.take(count) =~= list);
        assert forall|name: Seq<char>| #[trigger]
            values_of(part, name).is_prefix_of(values_of(grouped(list), name)) by {
            let few = values_of(part, name);
            assert(few.subrange(0, few.len() as int) =~= few);
        }
    }
}

proof fn lemma_join_begins(direction: Direction, before: Fields, part: Fields, whole: Fields)
    requires
        is_begun(part, whole),
        part.dom().subset_of(whole.dom()),
    ensures
        is_begun(before, joined(before, passed_on(direction, part))),
        is_begun(
            joined(before, passed_on(direction, part)),
            joined(before, passed_on(direction, whole)),
        ),
        joined(before, passed_on(direction, part)).dom().subset_of(
            joined(before, passed_on(direction, whole)).dom(),
        ),
{
    let some = joined(before, passed_on(direction, part));
    let all = joined(before, passed_on(direction, whole));
    assert forall|name: Seq<char>| #[trigger]
        values_of(before, name).is_prefix_of(values_of(some, name)) by {
        let first = values_of(before, name);
        assert(values_of(some, name) =~= first + values_of(passed_on(direction, part), name));
        assert(values_of(some, name).subrange(0, first.len() as int) =~= first);
    }
    assert forall|name: Seq<char>| #[trigger]
        values_of(some, name).is_prefix_of(values_of(all, name)) by {
        let first = values_of(before, name);
        let few = values_of(passed_on(direction, part), name);
        let many = values_of(passed_on(direction, whole), name);
        assert(values_of(part, name).is_prefix_of(values_of(whole, name)));
        assert(few.len() <= many.len() && many.subrange(0, few.len() as int) =~= few);
        assert(values_of(some, name) =~= first + few);
        assert(values_of(all, name) =~= first + many);
        assert forall|i: int| 0 <= i < few.len() implies many[i] == few[i] by {
            assert(many.subrange(0, few.len() as int)[i] == many[i]);
        }
        assert((first + many).subrange(0, (first.len() + few.len()) as int) =~= first + few);
    }
}

fn append_fields(
    direction: Direction,
    source: &HeaderMap<HeaderValue>,
    destination: &mut HeaderMap<HeaderValue>,
) -> (r: Result<(), HeadersFull>)
    ensures
        r is Ok ==> header_fields(*final(destination)) == joined(
            header_fields(*old(destination)),
            passed_on(direction, header_fields(*source)),
        ),
        r is Err ==> {
            let whole = joined(
                header_fields(*old(destination)),
                passed_on(direction, header_fields(*source)),
            );
            &&& whole.dom().len() >= ROOMY
            &&& is_begun(header_fields(*old(destination)), header_fields(*final(destination)))
            &&& is_begun(header_fields(*final(destination)), whole)
        },
{
    let list = field_list(source);
    let ghost all = plain(list@);
    let ghost before = header_fields(*destination);
    let mut i: usize = 0;
    proof {
        let none = grouped(all.take(0));
        assert(none =~= no_fields());
        assert(joined(before, passed_on(direction, none)) =~= before);
    }
    while i < list.len()
        invariant
            i <= list.len(),
            all == plain(list@),
            before == header_fields(*old(destination)),
            header_fields(*source) == grouped(all),
            forall|j: int|
                0 <= j < list@.len() ==> is_field_name((#[trigger] list@[j]).0@) && is_field_value(
                    list@[j].1@,
                ),
            header_fields(*destination) == joined(
                before,
                passed_on(direction, grouped(all.take(i as int))),
            ),
        decreases list.len() - i,
    {
        let name = list[i].0.as_str();
        let value = list[i].1.as_slice();
        let sensitive = list[i].2;
        let ghost so_far = grouped(all.take(i as int));
        let ghost next = grouped(all.take(i + 1));
        proof {
            assert(all.take(i + 1).drop_last() =~= all.take(i as int));
            assert(all.take(i + 1).last() == (name@, FieldValue { bytes: value@, sensitive }));
            assert(next == appended(so_far, name@, FieldValue { bytes: value@, sensitive }));
        }
        if withheld(direction, name) {
            proof {
                assert(passed_on(direction, next) =~= passed_on(direction, so_far));
            }
        } else {
            let ghost here = header_fields(*destination);
            if !try_append(destination, name, value, sensitive) {
                proof {
                    let whole = joined(before, passed_on(direction, grouped(all)));
                    lemma_grouped_is_finite(all);
                    lemma_list_begins(all, i as int);
                    lemma_join_begins(direction, before, so_far, grouped(all));
                    assert(before.dom().subset_of(here.dom()));
                    vstd::set_lib::lemma_set_subset_finite(here.dom(), before.dom());
                    let names = before.dom().union(grouped(all).dom());
                    assert(whole.dom().subset_of(names));
                    vstd::set_lib::lemma_set_subset_finite(names, whole.dom());
                    vstd::set_lib::lemma_len_subset(here.dom(), whole.dom());
                }
                return Err(HeadersFull);
            }
            proof {
                assert(header_fields(*destination) =~= joined(before, passed_on(direction, next)))
                    by {
                    assert forall|n: Seq<char>| #[trigger]
                        joined(before, passed_on(direction, next)).contains_key(n) implies joined(
                        before,
                        passed_on(direction, next),
                    )[n] == header_fields(*destination)[n] by {
                        assert(values_of(before, n) + values_of(passed_on(direction, next), n)
                            =~= values_of(header_fields(*destination), n));
                    }
                }
            }
        }
        i = i + 1;
    }
    assert(all.take(list.len() as int) =~= all);
    Ok(())
}

/// The fields of a request that go to the upstream. Fails only where very many
/// names go there.
pub fn filtered_request_headers(source: &HeaderMap<HeaderValue>) -> (r: Result<
    HeaderMap<HeaderValue>,
    HeadersFull,
>)
    ensures
        r matches Ok(map) ==> header_fields(map) == passed_on(
            Direction::Request,
            header_fields(*source),
        ),
        r is Err ==> passed_on(Direction::Request, header_fields(*source)).dom().len() >= ROOMY,
{
    let mut destination = new_map();
    proof {
        let kept = passed_on(Direction::Request, header_fields(*source));
        assert(joined(no_fields(), kept) =~= kept) by {
            assert forall|n: Seq<char>| #[trigger] kept.contains_key(n) implies joined(
                no_fields(),
                kept,
            )[n] == kept[n] by {
                assert(values_of(no_fields(), n) + values_of(kept, n) =~= kept[n]);
            }
        }
    }
    match append_fields(Direction::Request, source, &mut destination) {
        Ok(()) => Ok(destination),
        Err(e) => Err(e),
    }
}

/// Adds the fields of an upstream response that go to the client to those that
/// `destination` has. Fails only where there are very many names; `destination`
/// then has what it had and the beginning of what was to be added.
pub fn copy_response_headers(
    source: &HeaderMap<HeaderValue>,
    destination: &mut HeaderMap<HeaderValue>,
) -> (r: Result<(), HeadersFull>)
    ensures
        r is Ok ==> header_fields(*final(destination)) == joined(
            header_fields(*old(destination)),
            passed_on(Direction::Response, header_fields(*source)),
        ),
        r is Err ==> {
            let whole = joined(
                header_fields(*old(destination)),
                passed_on(Direction::Response, header_fields(*source)),
            );
            &&& whole.dom().len() >= ROOMY
            &&& is_begun(header_fields(*old(destination)), header_fields(*final(destination)))
            &&& is_begun(header_fields(*final(destination)), whole)
        },
{
    append_fields(Direction::Response, source, destination)
}

/// A message that passes several proxies loses no more than at the first: what is
/// handed on once is handed on again as it is.
pub proof fn law_filtering_twice_changes_nothing(direction: Direction, fields: Fields)
    ensures
        passed_on(direction, passed_on(direction, fields)) == passed_on(direction, fields),
{
    assert(passed_on(direction, passed_on(direction, fields)) =~= passed_on(direction, fields));
}

/// Every field that concerns more than one connection passes with all its
/// values, and no other does.
pub proof fn law_end_to_end_fields_pass(direction: Direction, fields: Fields, name: Seq<char>)
    ensures
        values_of(passed_on(direction, fields), name) == (if is_withheld(direction, name) {
            Seq::<FieldValue>::empty()
        } else {
            values_of(fields, name)
        }),
{
}

/// The text of a field's value, if it holds visible ASCII, spaces and tabs only.
pub open spec fn visible_text(value: Seq<u8>) -> Option<Seq<char>> {
    if forall|i: int|
        0 <= i < value.len() ==> #[trigger] value[i] == 9 || 32 <= value[i] <= 126 {
        Some(Seq::new(value.len(), |i: int| value[i] as char))
    } else {
        None
    }
}

/// Reads a field's value as text.
pub fn visible(value: &[u8]) -> (r: Option<String>)
    ensures
        match r {
            Some(text) => visible_text(value@) == Some(text@),
            None => visible_text(value@) is None,
        },
{
    let mut text = String::new();
    let mut i: usize = 0;
    while i < value.len()
        invariant
            i <= value.len(),
            forall|j: int| 0 <= j < i ==> #[trigger] value@[j] == 9 || 32 <= value@[j] <= 126,
            text@ == Seq::new(i as nat, |j: int| value@[j] as char),
        decreases value.len() - i,
    {
        let b = value[i];
        if !(b == 9 || (32 <= b && b <= 126)) {
            assert(value@[i as int] == b);
            return None;
        }
        text.push(b as char);
        i = i + 1;
        assert(text@ =~= Seq::new(i as nat, |j: int| value@[j] as char));
    }
    Some(text)
}

/// When the server asks to be asked again, if the first field that says so is
/// text.
pub open spec fn retry_after_text(fields: Fields) -> Option<Seq<char>> {
    let values = bytes_of(fields, "retry-after"@);
    if values.len() > 0 {
        visible_text(values[0])
    } else {
        None
    }
}

/// Finds when the server asks to be asked again.
pub fn retry_after_field(headers: &HeaderMap<HeaderValue>) -> (r: Option<String>)
    ensures
        match r {
            Some(text) => retry_after_text(header_fields(*headers)) == Some(text@),
            None => retry_after_text(header_fields(*headers)) is None,
        },
{
    proof {
        reveal_strlit("retry-after");
        assert("retry-after"@ =~= seq!['r', 'e', 't', 'r', 'y', '-', 'a', 'f', 't', 'e', 'r']);
    }
    let values = values_named(headers, "retry-after");
    let ghost all = bytes_of(header_fields(*headers), "retry-after"@);
    assert(all.len() == values@.len());
    if values.len() == 0 {
        None
    } else {
        assert(all[0] == values@[0]@);
        visible(values[0].as_slice())
    }
}

/// The values of the field that says who asks.
pub fn authorization_fields(headers: &HeaderMap<HeaderValue>) -> (r: Vec<Vec<u8>>)
    ensures
        Seq::new(r@.len(), |i: int| r@[i]@) == bytes_of(
            header_fields(*headers),
            "authorization"@,
        ),
{
    proof {
        reveal_strlit("authorization");
        assert("authorization"@ =~= seq![
            'a', 'u', 't', 'h', 'o', 'r', 'i', 'z', 'a', 't', 'i', 'o', 'n',
        ]);
    }
    values_named(headers, "authorization")
}

/// Of a response the eight fields that concern one connection are held back, in
/// whatever case they are written, and of a request the host and the length as
/// well. Every other field passes with all its values in their order, whatever
/// they say.
pub proof fn law_only_these_fields_are_held_back(
    direction: Direction,
    fields: Fields,
    name: Seq<char>,
)
    ensures
        ({
            let n = lower(name);
            let hop = n == "connection"@ || n == "keep-alive"@ || n == "proxy-authenticate"@ || n
                == "proxy-authorization"@ || n == "te"@ || n == "trailer"@ || n
                == "transfer-encoding"@ || n == "upgrade"@;
            let own = name == "host"@ || name == "content-length"@;
            let after = passed_on(direction, fields);
            &&& hop ==> !after.contains_key(name)
            &&& own && direction == Direction::Request ==> !after.contains_key(name)
            &&& !hop && !(own && direction == Direction::Request) && fields.contains_key(name)
                ==> after.contains_key(name) && after[name] == fields[name]
            &&& !fields.contains_key(name) ==> !after.contains_key(name)
        }),
{
}

/// Fields that are put behind others keep all values of both: those that were
/// there come first, and no other appears.
pub proof fn law_joined_fields_keep_their_values(
    first: Fields,
    second: Fields,
    name: Seq<char>,
)
    ensures
        first.contains_key(name) && second.contains_key(name) ==> joined(
            first,
            second,
        ).contains_key(name) && joined(first, second)[name] == first[name] + second[name],
        first.contains_key(name) && !second.contains_key(name) ==> joined(
            first,
            second,
        ).contains_key(name) && joined(first, second)[name] == first[name],
        !first.contains_key(name) && second.contains_key(name) ==> joined(
            first,
            second,
        ).contains_key(name) && joined(first, second)[name] == second[name],
        !first.contains_key(name) && !second.contains_key(name) ==> !joined(
            first,
            second,
        ).contains_key(name),
{
    if first.contains_key(name) && !second.contains_key(name) {
        assert(first[name] + Seq::<FieldValue>::empty() =~= first[name]);
    }
    if !first.contains_key(name) && second.contains_key(name) {
        assert(Seq::<FieldValue>::empty() + second[name] =~= second[name]);
    }
}

/// A value is text exactly where it is visible ASCII, spaces and tabs, and then it
/// is read character by character.
pub proof fn law_visible_values_are_read_whole(value: Seq<u8>, i: int)
    requires
        0 <= i < value.len(),
    ensures
        visible_text(value) matches Some(text) ==> {
            &&& text.len() == value.len()
            &&& text[i] as int == value[i]
            &&& value[i] == 9 || 32 <= value[i] <= 126
        },
        visible_text(value) is None <==> exists|j: int|
            0 <= j < value.len() && (#[trigger] value[j] > 126 || (value[j] < 32 && value[j] != 9)),
        visible_text(Seq::empty()) == Some(Seq::<char>::empty()),
{
    assert(visible_text(Seq::empty())->0 =~= Seq::<char>::empty());
    if visible_text(value) is None {
        let j = choose|j: int|
            0 <= j < value.len() && !(#[trigger] value[j] == 9 || 32 <= value[j] <= 126);
        assert(value[j] > 126 || (value[j] < 32 && value[j] != 9));
    }
}

/// When to ask again is said by the first field of that name; the others and all
/// other fields have no say in it.
pub proof fn law_the_first_retry_after_counts(
    fields: Fields,
    others: Fields,
    value: FieldValue,
    more: Seq<FieldValue>,
)
    ensures
        retry_after_text(fields.insert("retry-after"@, seq![value] + more)) == visible_text(
            value.bytes,
        ),
        retry_after_text(fields.remove("retry-after"@)) is None,
        values_of(fields, "retry-after"@) == values_of(others, "retry-after"@) ==> retry_after_text(
            fields,
        ) == retry_after_text(others),
{
    let there = fields.insert("retry-after"@, seq![value] + more);
    assert(bytes_of(there, "retry-after"@)[0] == value.bytes);
}

} // verus!
