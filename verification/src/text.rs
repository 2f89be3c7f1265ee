//! Text as sequences of characters: trimming, splitting, lines and case.

use vstd::prelude::*;
use vstd::string::*;

verus! {

/// `String::push` puts the character behind the text that the string holds.
pub assume_specification[ String::push ](text: &mut String, c: char)
    ensures
        final(text)@ == old(text)@.push(c),
;

/// The characters with the Unicode property `White_Space`.
pub open spec fn is_white_space(c: char) -> bool {
    let n = c as u32;
    ||| 0x9 <= n <= 0xd
    ||| n == 0x20
    ||| n == 0x85
    ||| n == 0xa0
    ||| n == 0x1680
    ||| 0x2000 <= n <= 0x200a
    ||| n == 0x2028
    ||| n == 0x2029
    ||| n == 0x202f
    ||| n == 0x205f
    ||| n == 0x3000
}

/// Whether the character is white space.
pub fn white_space(c: char) -> (r: bool)
    ensures
        r == is_white_space(c),
{
    let n: u32 = c as u32;
    (0x9 <= n && n <= 0xd) || n == 0x20 || n == 0x85 || n == 0xa0 || n == 0x1680 || (0x2000 <= n
        && n <= 0x200a) || n == 0x2028 || n == 0x2029 || n == 0x202f || n == 0x205f || n == 0x3000
}

/// The text without the white space that it begins with.
pub open spec fn trimmed_start(s: Seq<char>) -> Seq<char>
    decreases s.len(),
{
    if s.len() > 0 && is_white_space(s[0]) {
        trimmed_start(s.drop_first())
    } else {
        s
    }
}

/// The text without the white space that it ends with.
pub open spec fn trimmed_end(s: Seq<char>) -> Seq<char>
    decreases s.len(),
{
    if s.len() > 0 && is_white_space(s.last()) {
        trimmed_end(s.drop_last())
    } else {
        s
    }
}

/// The text without the white space around it.
pub open spec fn trimmed(s: Seq<char>) -> Seq<char> {
    trimmed_end(trimmed_start(s))
}

/// The text without the characters of `set` that it ends with.
pub open spec fn without_trailing(s: Seq<char>, set: Seq<char>) -> Seq<char>
    decreases s.len(),
{
    if s.len() > 0 && set.contains(s.last()) {
        without_trailing(s.drop_last(), set)
    } else {
        s
    }
}

/// The characters of a text, one by one.
pub fn chars_of(s: &str) -> (v: Vec<char>)
    ensures
        v@ == s@,
{
    let mut v: Vec<char> = Vec::new();
    for c in it: s.chars()
        invariant
            v@ == s@.take(it.index() as int),
            it.seq() == s@,
    {
        proof {
            assert(s@.take(it.index() + 1) =~= s@.take(it.index() as int).push(s@[it.index() as int]));
        }
        v.push(c);
    }
    assert(s@.take(s@.len() as int) =~= s@);
    v
}

/// Cuts the white space off both ends.
pub fn trim(s: &str) -> (r: &str)
    ensures
        r@ == trimmed(s@),
{
    let v = chars_of(s);
    let mut from: usize = 0;
    assert(s@.skip(0) =~= s@);
    while from < v.len() && white_space(v[from])
        invariant
            v@ == s@,
            from <= v.len(),
            trimmed_start(s@) == trimmed_start(s@.skip(from as int)),
        decreases v.len() - from,
    {
        assert(s@.skip(from as int).drop_first() =~= s@.skip(from + 1));
        from = from + 1;
    }
    let ghost rest = s@.skip(from as int);
    assert(trimmed_start(s@) == rest);
    let mut to: usize = v.len();
    assert(s@.subrange(from as int, to as int) =~= rest);
    while to > from && white_space(v[to - 1])
        invariant
            v@ == s@,
            from <= to <= v.len(),
            trimmed_end(rest) == trimmed_end(s@.subrange(from as int, to as int)),
        decreases to,
    {
        assert(s@.subrange(from as int, to as int).drop_last() =~= s@.subrange(
            from as int,
            to - 1,
        ));
        to = to - 1;
    }
    s.substring_char(from, to)
}

/// Cuts the characters of `set` off the end.
pub fn trim_end_matches<'a>(s: &'a str, set: &[char]) -> (r: &'a str)
    ensures
        r@ == without_trailing(s@, set@),
{
    let v = chars_of(s);
    let mut to: usize = v.len();
    assert(s@.take(to as int) =~= s@);
    while to > 0 && holds_char(set, v[to - 1])
        invariant
            v@ == s@,
            to <= v.len(),
            without_trailing(s@, set@) == without_trailing(s@.take(to as int), set@),
        decreases to,
    {
        assert(s@.take(to as int).drop_last() =~= s@.take(to - 1));
        to = to - 1;
    }
    assert(s@.subrange(0, to as int) =~= s@.take(to as int));
    s.substring_char(0, to)
}

/// Whether the character is one of `set`.
pub fn holds_char(set: &[char], c: char) -> (r: bool)
    ensures
        r == set@.contains(c),
{
    let mut i: usize = 0;
    while i < set.len()
        invariant
            i <= set.len(),
            forall|j: int| 0 <= j < i ==> set@[j] != c,
        decreases set.len() - i,
    {
        if set[i] == c {
            assert(set@[i as int] == c);
            return true;
        }
        i = i + 1;
    }
    false
}

/// Whether two byte strings hold the same bytes.
pub fn same_bytes(a: &[u8], b: &[u8]) -> (r: bool)
    ensures
        r == (a@ == b@),
{
    if a.len() != b.len() {
        return false;
    }
    let mut i: usize = 0;
    while i < a.len()
        invariant
            a.len() == b.len(),
            i <= a.len(),
            forall|j: int| 0 <= j < i ==> a@[j] == b@[j],
        decreases a.len() - i,
    {
        if a[i] != b[i] {
            return false;
        }
        i = i + 1;
    }
    assert(a@ =~= b@);
    true
}

/// Texts with the same UTF-8 bytes are the same text.
pub proof fn lemma_utf8_tells_texts_apart(a: Seq<char>, b: Seq<char>)
    requires
        vstd::utf8::encode_utf8(a) == vstd::utf8::encode_utf8(b),
    ensures
        a == b,
{
    vstd::utf8::encode_utf8_decode_utf8(a);
    vstd::utf8::encode_utf8_decode_utf8(b);
}

/// Whether a text is ASCII.
pub open spec fn is_ascii_text(s: Seq<char>) -> bool {
    forall|i: int| 0 <= i < s.len() ==> (#[trigger] s[i]) as u32 <= 127
}

proof fn lemma_ascii_byte(c: char)
    requires
        c as u32 <= 127,
    ensures
        vstd::utf8::encode_scalar(c as u32) == seq![c as u8],
{
    let n = c as u32;
    assert((n & 0x7f) as u8 == n as u8) by (bit_vector)
        requires
            n <= 127,
    ;
    assert(vstd::utf8::encode_scalar(n) =~= seq![c as u8]);
}

/// The UTF-8 bytes of ASCII are its characters.
pub proof fn lemma_ascii_bytes(s: Seq<char>)
    requires
        is_ascii_text(s),
    ensures
        vstd::utf8::encode_utf8(s) == Seq::new(s.len(), |i: int| s[i] as u8),
    decreases s.len(),
{
    let bytes = Seq::new(s.len(), |i: int| s[i] as u8);
    if s.len() == 0 {
        assert(vstd::utf8::encode_utf8(s) =~= bytes);
    } else {
        let rest = s.drop_first();
        assert forall|i: int| 0 <= i < rest.len() implies (#[trigger] rest[i]) as u32 <= 127 by {
            assert(rest[i] == s[i + 1]);
        }
        lemma_ascii_bytes(rest);
        lemma_ascii_byte(s[0]);
        assert forall|i: int| 1 <= i < s.len() implies vstd::utf8::encode_utf8(s)[i]
            == bytes[i] by {
            assert(vstd::utf8::encode_utf8(s)[i] == vstd::utf8::encode_utf8(rest)[i - 1]);
            assert(rest[i - 1] == s[i]);
        }
        assert(vstd::utf8::encode_utf8(s) =~= bytes);
    }
}

/// ASCII can be cut anywhere.
pub proof fn lemma_ascii_is_cut_anywhere(s: Seq<char>, index: int)
    requires
        is_ascii_text(s),
        0 <= index <= s.len(),
    ensures
        vstd::utf8::encode_utf8(s).len() == s.len(),
        vstd::utf8::is_char_boundary(vstd::utf8::encode_utf8(s), index),
{
    let bytes = vstd::utf8::encode_utf8(s);
    lemma_ascii_bytes(s);
    vstd::utf8::encode_utf8_valid_utf8(s);
    if index == s.len() {
        vstd::utf8::is_char_boundary_start_end_of_seq(bytes);
    } else {
        lemma_ascii_goes_on_nothing(s[index]);
        vstd::utf8::is_char_boundary_iff_not_is_continuation_byte(bytes, index);
    }
}

proof fn lemma_ascii_goes_on_nothing(c: char)
    requires
        c as u32 <= 127,
    ensures
        !vstd::utf8::is_continuation_byte(c as u8),
{
    let b = c as u8;
    assert(b <= 127);
    assert(b & 0xc0 != 0x80) by (bit_vector)
        requires
            b <= 127,
    ;
}

/// Whether two texts are the same.
pub fn same_text(a: &str, b: &str) -> (r: bool)
    ensures
        r == (a@ == b@),
{
    let r = same_bytes(a.as_bytes(), b.as_bytes());
    proof {
        if r {
            lemma_utf8_tells_texts_apart(a@, b@);
        }
    }
    r
}

/// A capital ASCII letter becomes small; every other character stays.
pub open spec fn lower_char(c: char) -> char {
    if 'A' <= c <= 'Z' {
        ((c as u8) + 32) as char
    } else {
        c
    }
}

/// The text with its capital ASCII letters made small.
pub open spec fn lower(s: Seq<char>) -> Seq<char> {
    s.map_values(|c: char| lower_char(c))
}

/// Makes the capital ASCII letters of a text small.
pub fn to_lower(s: &str) -> (r: String)
    ensures
        r@ == lower(s@),
{
    let v = chars_of(s);
    let mut r = String::new();
    let mut i: usize = 0;
    while i < v.len()
        invariant
            v@ == s@,
            i <= v.len(),
            r@ == lower(s@.take(i as int)),
        decreases v.len() - i,
    {
        let c = v[i];
        let small: char = if 'A' <= c && c <= 'Z' {
            ((c as u8) + 32) as char
        } else {
            c
        };
        r.push(small);
        i = i + 1;
        assert(lower(s@.take(i as int)) =~= lower(s@.take(i - 1)).push(lower_char(c)));
    }
    assert(s@.take(v.len() as int) =~= s@);
    r
}

/// Whether the text begins with `prefix`.
pub fn starts_with(s: &str, prefix: &str) -> (r: bool)
    ensures
        r == prefix@.is_prefix_of(s@),
{
    let v = chars_of(s);
    let p = chars_of(prefix);
    if p.len() > v.len() {
        return false;
    }
    let mut i: usize = 0;
    while i < p.len()
        invariant
            v@ == s@,
            p@ == prefix@,
            i <= p.len() <= v.len(),
            forall|j: int| 0 <= j < i ==> v@[j] == p@[j],
        decreases p.len() - i,
    {
        if v[i] != p[i] {
            assert(s@.subrange(0, prefix@.len() as int)[i as int] != prefix@[i as int]);
            return false;
        }
        i = i + 1;
    }
    assert(prefix@ =~= s@.subrange(0, prefix@.len() as int));
    true
}

/// Whether the text ends with `suffix`.
pub fn ends_with(s: &str, suffix: &str) -> (r: bool)
    ensures
        r == suffix@.is_suffix_of(s@),
{
    let v = chars_of(s);
    let p = chars_of(suffix);
    if p.len() > v.len() {
        return false;
    }
    let from: usize = v.len() - p.len();
    let mut i: usize = 0;
    while i < p.len()
        invariant
            v@ == s@,
            p@ == suffix@,
            i <= p.len() <= v.len(),
            from == v.len() - p.len(),
            forall|j: int| 0 <= j < i ==> v@[from + j] == p@[j],
        decreases p.len() - i,
    {
        if v[from + i] != p[i] {
            assert(s@.subrange(from as int, s@.len() as int)[i as int] != suffix@[i as int]);
            return false;
        }
        i = i + 1;
    }
    assert(suffix@ =~= s@.subrange(from as int, s@.len() as int));
    true
}

/// Whether the text begins with the character.
pub fn starts_with_char(s: &str, c: char) -> (r: bool)
    ensures
        r == (s@.len() > 0 && s@[0] == c),
{
    let v = chars_of(s);
    v.len() > 0 && v[0] == c
}

/// Whether the text ends with the character.
pub fn ends_with_char(s: &str, c: char) -> (r: bool)
    ensures
        r == (s@.len() > 0 && s@.last() == c),
{
    let v = chars_of(s);
    v.len() > 0 && v[v.len() - 1] == c
}

/// Whether the bytes begin with `prefix`.
pub fn bytes_start_with(s: &[u8], prefix: &[u8]) -> (r: bool)
    ensures
        r == prefix@.is_prefix_of(s@),
{
    if prefix.len() > s.len() {
        return false;
    }
    let head = vstd::slice::slice_subrange(s, 0, prefix.len());
    same_bytes(head, prefix)
}

/// Where `c` first stands in the text; the text's length where it does not.
pub open spec fn position(s: Seq<char>, c: char) -> nat
    decreases s.len(),
{
    if s.len() == 0 || s[0] == c {
        0
    } else {
        1 + position(s.drop_first(), c)
    }
}

/// `position` is the first index that holds the character.
pub proof fn lemma_position(s: Seq<char>, c: char, i: int)
    requires
        0 <= i <= s.len(),
        i < s.len() ==> s[i] == c,
        forall|j: int| 0 <= j < i ==> s[j] != c,
    ensures
        position(s, c) == i,
    decreases s.len(),
{
    if i > 0 {
        lemma_position(s.drop_first(), c, i - 1);
    }
}

/// Finds where `c` first stands at or behind `from`; the length where it does not.
pub fn find_from(v: &Vec<char>, from: usize, c: char) -> (i: usize)
    requires
        from <= v.len(),
    ensures
        from <= i <= v.len(),
        i == from + position(v@.skip(from as int), c),
{
    let mut i: usize = from;
    while i < v.len() && v[i] != c
        invariant
            from <= i <= v.len(),
            forall|j: int| from <= j < i ==> v@[j] != c,
        decreases v.len() - i,
    {
        i = i + 1;
    }
    proof {
        lemma_position(v@.skip(from as int), c, i - from);
    }
    i
}

/// The parts before and behind the first `c`, if there is one.
pub open spec fn split_once_at(s: Seq<char>, c: char) -> Option<(Seq<char>, Seq<char>)> {
    let i = position(s, c) as int;
    if i < s.len() {
        Some((s.take(i), s.skip(i + 1)))
    } else {
        None
    }
}

/// Cuts a text in two at the first `c`.
pub fn split_once(s: &str, c: char) -> (r: Option<(&str, &str)>)
    ensures
        match r {
            Some((a, b)) => split_once_at(s@, c) == Some((a@, b@)),
            None => split_once_at(s@, c) is None,
        },
{
    let v = chars_of(s);
    let i = find_from(&v, 0, c);
    assert(v@.skip(0) =~= s@);
    if i < v.len() {
        assert(s@.subrange(0, i as int) =~= s@.take(i as int));
        assert(s@.subrange(i + 1, s@.len() as int) =~= s@.skip(i + 1));
        Some((s.substring_char(0, i), s.substring_char(i + 1, v.len())))
    } else {
        None
    }
}

/// A line without the carriage return that stood before its line feed.
pub open spec fn without_return(s: Seq<char>) -> Seq<char> {
    if s.len() > 0 && s.last() == '\r' {
        s.drop_last()
    } else {
        s
    }
}

/// The lines of a text: a line ends with a line feed, which may have a
/// carriage return before it; the last line needs no end.
pub open spec fn lines_of(s: Seq<char>) -> Seq<Seq<char>>
    decreases s.len(),
{
    if s.len() == 0 {
        Seq::empty()
    } else {
        let i = position(s, '\n') as int;
        if i < s.len() {
            seq![without_return(s.take(i))] + lines_of(s.skip(i + 1))
        } else {
            seq![s]
        }
    }
}

/// The characters of each text in a list of borrowed texts.
pub open spec fn str_views(v: Seq<&str>) -> Seq<Seq<char>> {
    Seq::new(v.len(), |i: int| v[i]@)
}

/// The characters of each text in a list.
pub open spec fn string_views(v: Seq<String>) -> Seq<Seq<char>> {
    Seq::new(v.len(), |i: int| v[i]@)
}

/// Splits a text into its lines.
pub fn lines(s: &str) -> (r: Vec<&str>)
    ensures
        str_views(r@) == lines_of(s@),
{
    let v = chars_of(s);
    let mut r: Vec<&str> = Vec::new();
    let mut from: usize = 0;
    assert(s@.skip(0) =~= s@);
    assert(str_views(r@) + lines_of(s@) =~= lines_of(s@));
    while from < v.len()
        invariant
            v@ == s@,
            from <= v.len(),
            str_views(r@) + lines_of(s@.skip(from as int)) == lines_of(s@),
        decreases v.len() - from,
    {
        let i = find_from(&v, from, '\n');
        let ghost rest = s@.skip(from as int);
        let ghost before = str_views(r@);
        if i < v.len() {
            let end: usize = if i > from && v[i - 1] == '\r' {
                i - 1
            } else {
                i
            };
            let line = s.substring_char(from, end);
            r.push(line);
            proof {
                assert(rest.take(i - from) =~= s@.subrange(from as int, i as int));
                assert(without_return(rest.take(i - from)) =~= s@.subrange(
                    from as int,
                    end as int,
                ));
                assert(rest.skip(i - from + 1) =~= s@.skip(i + 1));
                assert(str_views(r@) =~= before.push(line@));
                assert(before + (seq![line@] + lines_of(s@.skip(i + 1))) =~= before.push(line@)
                    + lines_of(s@.skip(i + 1)));
            }
            from = i + 1;
        } else {
            let line = s.substring_char(from, i);
            r.push(line);
            proof {
                assert(line@ =~= rest);
                assert(str_views(r@) =~= before.push(line@));
                assert(s@.skip(i as int).len() == 0);
                assert(before + seq![line@] =~= before.push(line@) + lines_of(s@.skip(i as int)));
            }
            from = i;
        }
    }
    assert(str_views(r@) + lines_of(s@.skip(from as int)) =~= str_views(r@));
    r
}

/// An optional text as characters.
pub open spec fn option_view(text: Option<String>) -> Option<Seq<char>> {
    match text {
        Some(t) => Some(t@),
        None => None,
    }
}

/// Calls `String::from_utf8`, which makes a text of bytes if they are UTF-8, and
/// only then.
#[verifier::external_body]
pub(crate) fn utf8_text(bytes: Vec<u8>) -> (r: Option<String>)
    ensures
        match r {
            Some(text) => vstd::utf8::valid_utf8(bytes@) && text@ == vstd::utf8::decode_utf8(
                bytes@,
            ),
            None => !vstd::utf8::valid_utf8(bytes@),
        },
{
    String::from_utf8(bytes).ok()
}

/// A copy of bytes.
pub fn copy_bytes(bytes: &[u8]) -> (r: Vec<u8>)
    ensures
        r@ == bytes@,
{
    let mut copy: Vec<u8> = Vec::new();
    copy.extend_from_slice(bytes);
    assert(copy@ =~= bytes@);
    copy
}

/// Of a text that loses characters at its end, only such characters go, all of
/// those at the end go, and what comes before them stays.
pub proof fn law_only_trailing_characters_go(s: Seq<char>, set: Seq<char>)
    ensures
        ({
            let kept = without_trailing(s, set);
            &&& kept.is_prefix_of(s)
            &&& kept.len() > 0 ==> !set.contains(kept.last())
            &&& forall|i: int| kept.len() <= i < s.len() ==> set.contains(#[trigger] s[i])
        }),
    decreases s.len(),
{
    if s.len() > 0 && set.contains(s.last()) {
        let shorter = s.drop_last();
        law_only_trailing_characters_go(shorter, set);
        let kept = without_trailing(s, set);
        assert forall|i: int| kept.len() <= i < s.len() implies set.contains(#[trigger] s[i]) by {
            if i < shorter.len() {
                assert(shorter[i] == s[i]);
            }
        }
        assert(s.subrange(0, kept.len() as int) =~= shorter.subrange(0, kept.len() as int));
    } else {
        assert(s.subrange(0, s.len() as int) =~= s);
    }
}

proof fn lemma_trimmed_start(s: Seq<char>) -> (cut: int)
    ensures
        0 <= cut <= s.len(),
        trimmed_start(s) == s.skip(cut),
        forall|i: int| 0 <= i < cut ==> is_white_space(#[trigger] s[i]),
        cut < s.len() ==> !is_white_space(s[cut]),
    decreases s.len(),
{
    if s.len() > 0 && is_white_space(s[0]) {
        let rest = lemma_trimmed_start(s.drop_first());
        assert(s.drop_first().skip(rest) =~= s.skip(rest + 1));
        assert forall|i: int| 0 <= i < rest + 1 implies is_white_space(#[trigger] s[i]) by {
            if i > 0 {
                assert(s.drop_first()[i - 1] == s[i]);
            }
        }
        rest + 1
    } else {
        assert(s.skip(0) =~= s);
        0
    }
}

proof fn lemma_trimmed_end(s: Seq<char>) -> (kept: int)
    ensures
        0 <= kept <= s.len(),
        trimmed_end(s) == s.take(kept),
        forall|i: int| kept <= i < s.len() ==> is_white_space(#[trigger] s[i]),
        kept > 0 ==> !is_white_space(s[kept - 1]),
    decreases s.len(),
{
    if s.len() > 0 && is_white_space(s.last()) {
        let shorter = s.drop_last();
        let kept = lemma_trimmed_end(shorter);
        assert(shorter.take(kept) =~= s.take(kept));
        assert forall|i: int| kept <= i < s.len() implies is_white_space(#[trigger] s[i]) by {
            if i < shorter.len() {
                assert(shorter[i] == s[i]);
            }
        }
        kept
    } else {
        assert(s.take(s.len() as int) =~= s);
        s.len() as int
    }
}

/// Trimming takes the white space around a text away, all of it and nothing else:
/// what has neither white space at its beginning nor at its end is what is left
/// of it with white space around it.
pub proof fn law_only_white_space_is_trimmed(before: Seq<char>, s: Seq<char>, after: Seq<char>)
    requires
        forall|i: int| 0 <= i < before.len() ==> is_white_space(#[trigger] before[i]),
        forall|i: int| 0 <= i < after.len() ==> is_white_space(#[trigger] after[i]),
        s.len() > 0 ==> !is_white_space(s[0]) && !is_white_space(s.last()),
    ensures
        trimmed(before + s + after) == s,
{
    let whole = before + s + after;
    let n = before.len() as int;
    let m = s.len() as int;
    let cut = lemma_trimmed_start(whole);
    if m == 0 {
        if cut < whole.len() {
            assert(is_white_space(if cut < n {
                before[cut]
            } else {
                after[cut - n]
            }));
        }
        assert(whole.skip(cut) =~= s);
        assert(trimmed_end(s) == s);
    } else {
        assert(whole[n] == s[0]);
        if cut < n {
            assert(whole[cut] == before[cut]);
        }
        assert(cut == n);
        let rest = whole.skip(n);
        assert(rest =~= s + after);
        let kept = lemma_trimmed_end(rest);
        assert(rest[m - 1] == s.last());
        if kept > m {
            assert(rest[kept - 1] == after[kept - 1 - m]);
        }
        assert(kept == m);
        assert(rest.take(m) =~= s);
    }
}

/// Making letters small keeps the length, changes the capital letters of ASCII to
/// the small ones and nothing else.
pub proof fn law_only_capitals_are_made_small(s: Seq<char>, i: int)
    requires
        0 <= i < s.len(),
    ensures
        lower(s).len() == s.len(),
        'A' <= s[i] <= 'Z' ==> lower(s)[i] as u32 == s[i] as u32 + 32,
        !('A' <= s[i] <= 'Z') ==> lower(s)[i] == s[i],
{
}

/// A text is cut in two at the first such character: what stands before it does
/// not hold one, and put together again the parts give the text.
pub proof fn law_texts_are_cut_at_the_first(s: Seq<char>, c: char)
    ensures
        match split_once_at(s, c) {
            Some((before, after)) => s == before + seq![c] + after && !before.contains(c),
            None => !s.contains(c),
        },
{
    lemma_position_is_first(s, c);
    let i = position(s, c) as int;
    if i < s.len() {
        assert(s =~= s.take(i) + seq![c] + s.skip(i + 1));
    }
}

proof fn lemma_position_is_first(s: Seq<char>, c: char)
    ensures
        position(s, c) <= s.len(),
        position(s, c) < s.len() ==> s[position(s, c) as int] == c,
        forall|j: int| 0 <= j < position(s, c) ==> s[j] != c,
    decreases s.len(),
{
    if s.len() > 0 && s[0] != c {
        lemma_position_is_first(s.drop_first(), c);
        assert forall|j: int| 0 <= j < position(s, c) implies s[j] != c by {
            if j > 0 {
                assert(s[j] == s.drop_first()[j - 1]);
            }
        }
    }
}

/// A line is what stands before the first line feed, without a carriage return at
/// its end, and the other lines are those of what comes after it. A last line
/// without a line feed counts as well, and no text has no line.
pub proof fn law_line_feeds_end_lines(line: Seq<char>, rest: Seq<char>)
    requires
        !line.contains('\n'),
    ensures
        lines_of(Seq::empty()) == Seq::<Seq<char>>::empty(),
        line.len() > 0 && line.last() != '\r' ==> lines_of(line + seq!['\n'] + rest) == seq![line]
            + lines_of(rest),
        lines_of(line + seq!['\r', '\n'] + rest) == seq![line] + lines_of(rest),
        line.len() == 0 ==> lines_of(seq!['\n'] + rest) == seq![line] + lines_of(rest),
        line.len() > 0 ==> lines_of(line) == seq![line],
{
    let n = line.len() as int;
    let plain = line + seq!['\n'] + rest;
    lemma_position(plain, '\n', n);
    assert(plain.take(n) =~= line);
    assert(plain.skip(n + 1) =~= rest);
    let returned = line + seq!['\r', '\n'] + rest;
    lemma_position(returned, '\n', n + 1);
    assert(returned.take(n + 1) =~= line.push('\r'));
    assert(line.push('\r').drop_last() =~= line);
    assert(returned.skip(n + 2) =~= rest);
    if n == 0 {
        assert(seq!['\n'] + rest =~= plain);
        assert(line =~= Seq::empty());
        assert(seq!['\n'] + rest == line + seq!['\n'] + rest);
    }
    lemma_position(line, '\n', n);
}

/// Of ASCII only the space and the five control characters from the tab to the
/// carriage return are white space; beyond it, the spaces of Unicode are, and no
/// character from U+3001 on.
pub proof fn law_white_space_is_blank(c: char)
    ensures
        (c as u32) < 128 ==> (is_white_space(c) <==> c == ' ' || c == '\t' || c == '\n' || c
            == '\r' || c as u32 == 11 || c as u32 == 12),
        c as u32 > 0x3000 ==> !is_white_space(c),
        128 <= c as u32 <= 0x3000 ==> (is_white_space(c) <==> {
            let n = c as u32;
            n == 0x85 || n == 0xa0 || n == 0x1680 || (0x2000 <= n && n <= 0x200a) || n == 0x2028
                || n == 0x2029 || n == 0x202f || n == 0x205f || n == 0x3000
        }),
{
}

/// What begins with some character that is not white space still does after it is
/// trimmed.
pub proof fn lemma_trimmed_begins(before: Seq<char>, c: char, rest: Seq<char>)
    requires
        forall|i: int| 0 <= i < before.len() ==> is_white_space(#[trigger] before[i]),
        !is_white_space(c),
    ensures
        trimmed(before + seq![c] + rest).len() > 0,
        trimmed(before + seq![c] + rest)[0] == c,
{
    let whole = before + seq![c] + rest;
    let n = before.len() as int;
    let cut = lemma_trimmed_start(whole);
    assert(whole[n] == c);
    if cut < n {
        assert(whole[cut] == before[cut]);
    }
    let tail = whole.skip(n);
    assert(tail[0] == c);
    let kept = lemma_trimmed_end(tail);
}

/// Where a text with white space around it is trimmed, nothing else goes: every
/// text is what is left of it with white space before and behind it.
pub proof fn law_trimming_keeps_the_middle(s: Seq<char>)
    ensures
        exists|before: Seq<char>, after: Seq<char>|
            s == #[trigger] (before + trimmed(s) + after) && (forall|i: int|
                0 <= i < before.len() ==> is_white_space(#[trigger] before[i])) && (forall|i: int|
                0 <= i < after.len() ==> is_white_space(#[trigger] after[i])),
        trimmed(s).len() > 0 ==> !is_white_space(trimmed(s)[0]) && !is_white_space(
            trimmed(s).last(),
        ),
{
    let cut = lemma_trimmed_start(s);
    let tail = s.skip(cut);
    let kept = lemma_trimmed_end(tail);
    let before = s.take(cut);
    let after = tail.skip(kept);
    assert(s =~= before + trimmed(s) + after);
    assert forall|i: int| 0 <= i < after.len() implies is_white_space(#[trigger] after[i]) by {
        assert(after[i] == tail[kept + i]);
    }
}

} // verus!
