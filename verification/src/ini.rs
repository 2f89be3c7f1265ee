//! The INI format of the configuration file.

use vstd::prelude::*;
use vstd::string::*;

use crate::digits::{decimal, decimal_of};
use crate::text::{
    ends_with_char, is_white_space, law_line_feeds_end_lines, law_only_white_space_is_trimmed,
    law_trimming_keeps_the_middle, lemma_position, lemma_trimmed_begins, lines, lines_of, lower,
    same_text, split_once, split_once_at, starts_with_char, str_views, to_lower, trim, trimmed,
};

verus! {

/// What a configuration says: the value of each key in each section.
pub type Values = Map<(Seq<char>, Seq<char>), Seq<char>>;

#[derive(Debug)]
struct Entry {
    section: String,
    key: String,
    value: String,
}

/// A configuration that was read. Of two entries with one name the later counts.
#[derive(Debug)]
pub struct Ini {
    entries: Vec<Entry>,
}

spec fn values_of(entries: Seq<Entry>) -> Values
    decreases entries.len(),
{
    if entries.len() == 0 {
        Map::empty()
    } else {
        let e = entries.last();
        values_of(entries.drop_last()).insert((e.section@, e.key@), e.value@)
    }
}

impl View for Ini {
    type V = Values;

    closed spec fn view(&self) -> Values {
        values_of(self.entries@)
    }
}

/// Why a configuration cannot be read, with the number of the faulty line.
#[derive(Clone, Copy, Debug, PartialEq, Eq, Structural)]
pub enum IniError {
    /// A section has no name.
    EmptySection(usize),
    /// A setting stands before the first section.
    OutsideSection(usize),
    /// A setting has no equals sign.
    ExpectedKeyValue(usize),
}

impl IniError {
    /// What the error says.
    pub open spec fn text(self) -> Seq<char> {
        match self {
            IniError::EmptySection(n) => "empty section name at line "@ + decimal_of(n as nat),
            IniError::OutsideSection(n) => "setting outside a section at line "@ + decimal_of(
                n as nat,
            ),
            IniError::ExpectedKeyValue(n) => "expected key = value at line "@ + decimal_of(
                n as nat,
            ),
        }
    }

    /// What the error says.
    pub fn message(&self) -> (r: String)
        ensures
            r@ == self.text(),
    {
        let (mut r, n) = match self {
            IniError::EmptySection(n) => ("empty section name at line ".to_owned(), *n),
            IniError::OutsideSection(n) => ("setting outside a section at line ".to_owned(), *n),
            IniError::ExpectedKeyValue(n) => ("expected key = value at line ".to_owned(), *n),
        };
        r.append(decimal(n as u64).as_str());
        r
    }
}

/// How far the reading of a configuration has come.
#[verifier::ext_equal]
pub struct Reading {
    /// The section that the next setting belongs to; empty before the first.
    pub section: Seq<char>,
    /// The settings so far.
    pub values: Values,
}

/// Nothing has been read.
pub open spec fn nothing_read() -> Reading {
    Reading { section: Seq::empty(), values: Map::empty() }
}

/// Whether a trimmed line says nothing.
pub open spec fn is_comment(line: Seq<char>) -> bool {
    line.len() == 0 || line[0] == '#' || line[0] == ';'
}

/// Whether a trimmed line opens a section.
pub open spec fn is_header(line: Seq<char>) -> bool {
    line.len() > 0 && line[0] == '[' && line.last() == ']'
}

/// The name that a section header gives.
pub open spec fn header_name(line: Seq<char>) -> Seq<char> {
    lower(trimmed(line.subrange(1, line.len() - 1)))
}

/// What the reading is after one more line.
pub open spec fn after_line(before: Reading, raw: Seq<char>, number: usize) -> Result<
    Reading,
    IniError,
> {
    let line = trimmed(raw);
    if is_comment(line) {
        Ok(before)
    } else if is_header(line) {
        if header_name(line).len() == 0 {
            Err(IniError::EmptySection(number))
        } else {
            Ok(Reading { section: header_name(line), values: before.values })
        }
    } else if before.section.len() == 0 {
        Err(IniError::OutsideSection(number))
    } else {
        match split_once_at(line, '=') {
            None => Err(IniError::ExpectedKeyValue(number)),
            Some((key, value)) => Ok(
                Reading {
                    section: before.section,
                    values: before.values.insert(
                        (before.section, lower(trimmed(key))),
                        trimmed(value),
                    ),
                },
            ),
        }
    }
}

/// What the reading is after the first `count` lines. The first fault ends it.
pub open spec fn after_lines(all: Seq<Seq<char>>, count: nat) -> Result<Reading, IniError>
    decreases count,
{
    if count == 0 {
        Ok(nothing_read())
    } else {
        match after_lines(all, (count - 1) as nat) {
            Err(e) => Err(e),
            Ok(before) => after_line(before, all[count - 1], count as usize),
        }
    }
}

/// What a configuration file says.
pub open spec fn ini_of(contents: Seq<char>) -> Result<Values, IniError> {
    let all = lines_of(contents);
    match after_lines(all, all.len()) {
        Err(e) => Err(e),
        Ok(reading) => Ok(reading.values),
    }
}

/// A fault among the first lines is the fault of the whole.
proof fn lemma_fault_stays(all: Seq<Seq<char>>, at: nat, count: nat)
    requires
        at <= count,
        after_lines(all, at) is Err,
    ensures
        after_lines(all, count) == after_lines(all, at),
    decreases count,
{
    if at < count {
        lemma_fault_stays(all, at, (count - 1) as nat);
    }
}

/// Reads a configuration file.
pub fn parse_ini(contents: &str) -> (r: Result<Ini, IniError>)
    ensures
        match r {
            Ok(ini) => ini_of(contents@) == Ok::<Values, IniError>(ini@),
            Err(e) => ini_of(contents@) == Err::<Values, IniError>(e),
        },
{
    let all = lines(contents);
    let ghost texts = lines_of(contents@);
    let mut entries: Vec<Entry> = Vec::new();
    let mut section = String::new();
    let mut i: usize = 0;
    assert(nothing_read() =~= (Reading { section: section@, values: values_of(entries@) }));
    while i < all.len()
        invariant
            i <= all.len(),
            texts == lines_of(contents@),
            str_views(all@) == texts,
            after_lines(texts, i as nat) == Ok::<Reading, IniError>(
                (Reading { section: section@, values: values_of(entries@) }),
            ),
        decreases all.len() - i,
    {
        let ghost before = Reading { section: section@, values: values_of(entries@) };
        let line = trim(all[i]);
        assert(texts[i as int] == all@[i as int]@);
        i = i + 1;
        if line.is_empty() || starts_with_char(line, '#') || starts_with_char(line, ';') {
            continue ;
        }
        if starts_with_char(line, '[') && ends_with_char(line, ']') {
            let n = line.unicode_len();
            section = to_lower(trim(line.substring_char(1, n - 1)));
            if section.as_str().is_empty() {
                proof {
                    lemma_fault_stays(texts, i as nat, texts.len());
                }
                return Err(IniError::EmptySection(i));
            }
            continue ;
        }
        if section.as_str().is_empty() {
            proof {
                lemma_fault_stays(texts, i as nat, texts.len());
            }
            return Err(IniError::OutsideSection(i));
        }
        match split_once(line, '=') {
            None => {
                proof {
                    lemma_fault_stays(texts, i as nat, texts.len());
                }
                return Err(IniError::ExpectedKeyValue(i));
            },
            Some((key, value)) => {
                let ghost old_entries = entries@;
                entries.push(
                    Entry {
                        section: section.clone(),
                        key: to_lower(trim(key)),
                        value: trim(value).to_owned(),
                    },
                );
                proof {
                    assert(entries@.drop_last() =~= old_entries);
                }
            },
        }
    }
    Ok(Ini { entries })
}

impl Ini {
    /// The value of a setting, if the configuration has it.
    pub fn lookup(&self, section: &str, key: &str) -> (r: Option<&str>)
        ensures
            match r {
                Some(value) => self@.contains_key((section@, key@)) && value@ == self@[(
                    section@,
                    key@,
                )],
                None => !self@.contains_key((section@, key@)),
            },
    {
        let mut i: usize = self.entries.len();
        assert(self.entries@.take(i as int) =~= self.entries@);
        while i > 0
            invariant
                i <= self.entries.len(),
                self@.contains_key((section@, key@)) == values_of(
                    self.entries@.take(i as int),
                ).contains_key((section@, key@)),
                self@[(section@, key@)] == values_of(self.entries@.take(i as int))[(
                    section@,
                    key@,
                )],
            decreases i,
        {
            let e = &self.entries[i - 1];
            assert(self.entries@.take(i as int).drop_last() =~= self.entries@.take(i - 1));
            if same_text(e.section.as_str(), section) && same_text(e.key.as_str(), key) {
                return Some(e.value.as_str());
            }
            i = i - 1;
        }
        None
    }
}

/// What a configuration says of a setting, or else the default.
pub open spec fn setting_or(
    values: Values,
    section: Seq<char>,
    key: Seq<char>,
    default: Seq<char>,
) -> Seq<char> {
    if values.contains_key((section, key)) {
        values[(section, key)]
    } else {
        default
    }
}

/// The value of a setting, or else the default.
pub fn get(ini: &Ini, section: &str, key: &str, default: &str) -> (r: String)
    ensures
        r@ == setting_or(ini@, section@, key@, default@),
{
    match ini.lookup(section, key) {
        Some(value) => value.to_owned(),
        None => default.to_owned(),
    }
}

/// The value of a setting that says something, if there is one.
pub open spec fn setting_text(values: Values, section: Seq<char>, key: Seq<char>) -> Option<
    Seq<char>,
> {
    if values.contains_key((section, key)) && trimmed(values[(section, key)]).len() > 0 {
        Some(values[(section, key)])
    } else {
        None
    }
}

/// The value of a setting that may be left out or blank.
pub fn optional(ini: &Ini, section: &str, key: &str) -> (r: Option<String>)
    ensures
        match r {
            Some(value) => setting_text(ini@, section@, key@) == Some(value@),
            None => setting_text(ini@, section@, key@) is None,
        },
{
    let value = get(ini, section, key, "");
    proof {
        reveal_strlit("");
        assert(""@ =~= Seq::<char>::empty());
        assert(trimmed(""@) =~= ""@);
    }
    if trim(value.as_str()).is_empty() {
        None
    } else {
        Some(value)
    }
}

/// A setting that must be there and is not.
#[derive(Debug)]
pub struct MissingSetting {
    /// The section where it belongs.
    pub section: String,
    /// Its key.
    pub key: String,
}

impl MissingSetting {
    /// What the error says.
    pub open spec fn text(self) -> Seq<char> {
        "missing required setting ["@ + self.section@ + "] "@ + self.key@
    }

    /// What the error says.
    pub fn message(&self) -> (r: String)
        ensures
            r@ == self.text(),
    {
        let mut r = "missing required setting [".to_owned();
        r.append(self.section.as_str());
        r.append("] ");
        r.append(self.key.as_str());
        r
    }
}

/// The value of a setting that must be there and say something.
pub fn required<'a>(ini: &'a Ini, section: &str, key: &str) -> (r: Result<&'a str, MissingSetting>)
    ensures
        match r {
            Ok(value) => setting_text(ini@, section@, key@) == Some(value@),
            Err(e) => setting_text(ini@, section@, key@) is None && e.section@ == section@
                && e.key@ == key@,
        },
{
    match ini.lookup(section, key) {
        Some(value) => {
            if !trim(value).is_empty() {
                return Ok(value);
            }
        },
        None => {},
    }
    Err(MissingSetting { section: section.to_owned(), key: key.to_owned() })
}

/// Blank lines and lines that begin with `#` or `;` change nothing, wherever
/// they stand.
pub proof fn law_comments_say_nothing(before: Reading, raw: Seq<char>, number: usize)
    requires
        is_comment(trimmed(raw)),
    ensures
        after_line(before, raw, number) == Ok::<Reading, IniError>(before),
{
}

/// Whether a text has no capital ASCII letter.
pub open spec fn is_lower(s: Seq<char>) -> bool {
    forall|i: int| 0 <= i < s.len() ==> !('A' <= #[trigger] s[i] <= 'Z')
}

proof fn lemma_lower_is_lower(s: Seq<char>)
    ensures
        is_lower(lower(s)),
{
    assert forall|i: int| 0 <= i < lower(s).len() implies !('A' <= #[trigger] lower(s)[i]
        <= 'Z') by {
        let c = s[i];
        if 'A' <= c <= 'Z' {
            assert((((c as u8) + 32) as char) as u32 == (c as u32) + 32);
        }
    }
}

/// The names of sections and keys do not depend on case: what was read holds
/// small letters only, and every setting belongs to a section.
pub proof fn law_names_are_lower_case(all: Seq<Seq<char>>, count: nat)
    ensures
        after_lines(all, count) matches Ok(reading) ==> is_lower(reading.section) && forall|
            section: Seq<char>,
            key: Seq<char>,
        | #[trigger]
            reading.values.contains_key((section, key)) ==> is_lower(section) && is_lower(key)
                && section.len() > 0,
    decreases count,
{
    if count > 0 {
        law_names_are_lower_case(all, (count - 1) as nat);
        match after_lines(all, (count - 1) as nat) {
            Err(_) => {},
            Ok(before) => {
                let line = trimmed(all[count - 1]);
                lemma_lower_is_lower(trimmed(line.subrange(1, line.len() - 1)));
                match split_once_at(line, '=') {
                    Some((key, _)) => {
                        lemma_lower_is_lower(trimmed(key));
                    },
                    None => {},
                }
            },
        }
    }
}

/// Where a key is set again in its section, the later value counts.
pub proof fn law_later_setting_counts(
    before: Reading,
    raw: Seq<char>,
    number: usize,
    key: Seq<char>,
    value: Seq<char>,
)
    requires
        before.section.len() > 0,
        !is_comment(trimmed(raw)),
        !is_header(trimmed(raw)),
        split_once_at(trimmed(raw), '=') == Some((key, value)),
    ensures
        after_line(before, raw, number) matches Ok(after) && after.section == before.section
            && setting_or(after.values, before.section, lower(trimmed(key)), Seq::empty())
            == trimmed(value),
{
}

/// Whether a text is white space only.
pub open spec fn is_blank(s: Seq<char>) -> bool {
    forall|i: int| 0 <= i < s.len() ==> is_white_space(#[trigger] s[i])
}

/// Whether a text has neither white space before nor behind it.
pub open spec fn is_bare(s: Seq<char>) -> bool {
    s.len() > 0 ==> !is_white_space(s[0]) && !is_white_space(s.last())
}

/// A line that is blank, or begins with `#` or `;` after blanks, changes nothing,
/// whatever else stands there.
pub proof fn law_remarks_change_nothing(
    before: Reading,
    blanks: Seq<char>,
    mark: char,
    rest: Seq<char>,
    number: usize,
)
    requires
        is_blank(blanks),
        mark == '#' || mark == ';',
    ensures
        after_line(before, blanks, number) == Ok::<Reading, IniError>(before),
        after_line(before, blanks + seq![mark] + rest, number) == Ok::<Reading, IniError>(before),
{
    law_only_white_space_is_trimmed(blanks, Seq::empty(), Seq::empty());
    assert(blanks + Seq::<char>::empty() + Seq::<char>::empty() =~= blanks);
    lemma_trimmed_begins(blanks, mark, rest);
}

/// A line `[name]` opens the section of that name, whatever its case and the
/// blanks in and around it, and keeps what was read. A section needs a name.
pub proof fn law_headers_open_sections(
    before: Reading,
    a: Seq<char>,
    b: Seq<char>,
    name: Seq<char>,
    c: Seq<char>,
    d: Seq<char>,
    number: usize,
)
    requires
        is_blank(a),
        is_blank(b),
        is_blank(c),
        is_blank(d),
        is_bare(name),
    ensures
        name.len() > 0 ==> after_line(
            before,
            a + seq!['['] + b + name + c + seq![']'] + d,
            number,
        ) == Ok::<Reading, IniError>(Reading { section: lower(name), values: before.values }),
        name.len() == 0 ==> after_line(
            before,
            a + seq!['['] + b + name + c + seq![']'] + d,
            number,
        ) == Err::<Reading, IniError>(IniError::EmptySection(number)),
{
    let inner = b + name + c;
    let line = seq!['['] + inner + seq![']'];
    let raw = a + seq!['['] + b + name + c + seq![']'] + d;
    assert(raw =~= a + line + d);
    assert(line[0] == '[' && line.last() == ']');
    law_only_white_space_is_trimmed(a, line, d);
    law_only_white_space_is_trimmed(b, name, c);
    assert(line.subrange(1, line.len() - 1) =~= inner);
}

/// A line `key = value` in a section sets that key of that section to that value,
/// and nothing else: the key in small letters, the value as it stands, both
/// without the blanks around them. The value may hold any character, `=` too, and
/// the key may be empty. Before the first section it is refused.
pub proof fn law_settings_are_read_as_written(
    before: Reading,
    a: Seq<char>,
    key: Seq<char>,
    b: Seq<char>,
    c: Seq<char>,
    value: Seq<char>,
    d: Seq<char>,
    number: usize,
)
    requires
        is_blank(a),
        is_blank(b),
        is_blank(c),
        is_blank(d),
        is_bare(key),
        is_bare(value),
        key.len() > 0 ==> key[0] != '#' && key[0] != ';',
        key.len() > 0 && key[0] == '[' && value.len() > 0 ==> value.last() != ']',
        !key.contains('='),
    ensures
        before.section.len() > 0 ==> after_line(
            before,
            a + key + b + seq!['='] + c + value + d,
            number,
        ) == Ok::<Reading, IniError>(
            Reading {
                section: before.section,
                values: before.values.insert((before.section, lower(key)), value),
            },
        ),
        before.section.len() == 0 ==> after_line(
            before,
            a + key + b + seq!['='] + c + value + d,
            number,
        ) == Err::<Reading, IniError>(IniError::OutsideSection(number)),
{
    let raw = a + key + b + seq!['='] + c + value + d;
    let held = if value.len() > 0 {
        c + value
    } else {
        Seq::empty()
    };
    let (lead, gap) = if key.len() > 0 {
        (a, b)
    } else {
        (a + b, Seq::empty())
    };
    let line = key + gap + seq!['='] + held;
    let tail = if value.len() > 0 {
        d
    } else {
        c + d
    };
    assert(raw =~= lead + line + tail);
    assert(line[0] == if key.len() > 0 {
        key[0]
    } else {
        '='
    });
    assert(is_blank(lead));
    assert(line.last() == if value.len() > 0 {
        value.last()
    } else {
        '='
    });
    assert(is_blank(tail));
    law_only_white_space_is_trimmed(lead, line, tail);
    let at: int = key.len() + gap.len() as int;
    assert forall|j: int| 0 <= j < at implies line[j] != '=' by {
        if j < key.len() {
            assert(line[j] == key[j]);
        } else {
            assert(line[j] == gap[j - key.len()]);
        }
    }
    lemma_position(line, '=', at);
    assert(line.take(at) =~= Seq::empty() + key + gap);
    law_only_white_space_is_trimmed(Seq::empty(), key, gap);
    let rest = line.skip(at + 1);
    if value.len() > 0 {
        assert(rest =~= c + value + Seq::empty());
        law_only_white_space_is_trimmed(c, value, Seq::empty());
    } else {
        assert(rest =~= Seq::empty());
        assert(value =~= Seq::empty());
        assert(trimmed(rest) =~= value);
    }
}

/// A line in a section that is no remark, opens no section and holds no `=` is
/// refused for that; before the first section, for standing there.
pub proof fn law_settings_need_an_equals_sign(
    before: Reading,
    a: Seq<char>,
    line: Seq<char>,
    d: Seq<char>,
    number: usize,
)
    requires
        is_blank(a),
        is_blank(d),
        is_bare(line),
        line.len() > 0,
        line[0] != '#' && line[0] != ';',
        line[0] == '[' ==> line.last() != ']',
        !line.contains('='),
    ensures
        before.section.len() > 0 ==> after_line(before, a + line + d, number) == Err::<
            Reading,
            IniError,
        >(IniError::ExpectedKeyValue(number)),
        before.section.len() == 0 ==> after_line(before, a + line + d, number) == Err::<
            Reading,
            IniError,
        >(IniError::OutsideSection(number)),
{
    law_only_white_space_is_trimmed(a, line, d);
    lemma_position(line, '=', line.len() as int);
}

/// A file is read line by line from the first, each with its number, counted from
/// one; the first fault ends the reading, and a fault names its line.
pub proof fn law_lines_are_read_in_order(all: Seq<Seq<char>>, count: nat)
    requires
        count < all.len() <= usize::MAX,
    ensures
        after_lines(all, 0) == Ok::<Reading, IniError>(
            Reading { section: Seq::empty(), values: Map::empty() },
        ),
        match after_lines(all, count) {
            Ok(before) => after_lines(all, count + 1) == after_line(
                before,
                all[count as int],
                (count + 1) as usize,
            ),
            Err(e) => after_lines(all, count + 1) == Err::<Reading, IniError>(e),
        },
        after_lines(all, count) is Ok ==> match after_lines(all, count + 1) {
            Ok(_) => true,
            Err(IniError::EmptySection(number)) => number == count + 1,
            Err(IniError::OutsideSection(number)) => number == count + 1,
            Err(IniError::ExpectedKeyValue(number)) => number == count + 1,
        },
{
}

/// What is written into a file is read from it: a section with one setting gives
/// that setting and no other.
pub proof fn law_files_say_what_is_written(name: Seq<char>, key: Seq<char>, value: Seq<char>)
    requires
        is_bare(name),
        is_bare(key),
        is_bare(value),
        name.len() > 0,
        key.len() > 0,
        key[0] != '#' && key[0] != ';' && key[0] != '[',
        !key.contains('='),
        !name.contains('\n'),
        !key.contains('\n'),
        !value.contains('\n'),
    ensures
        ini_of(
            seq!['['] + name + seq![']', '\n'] + key + seq![' ', '=', ' '] + value + seq!['\n'],
        ) == Ok::<Values, IniError>(map![(lower(name), lower(key)) => value]),
{
    let contents = seq!['['] + name + seq![']', '\n'] + key + seq![' ', '=', ' '] + value + seq![
        '\n',
    ];
    let none = Seq::<char>::empty();
    let first = seq!['['] + name + seq![']'];
    let second = key + seq![' ', '=', ' '] + value;
    let tail = second + seq!['\n'] + none;
    assert(contents =~= first + seq!['\n'] + tail);
    assert(!first.contains('\n'));
    assert(!second.contains('\n'));
    law_line_feeds_end_lines(first, tail);
    assert(second.last() != '\r') by {
        if value.len() > 0 {
            assert(second.last() == value.last());
        } else {
            assert(second.last() == ' ');
        }
    }
    law_line_feeds_end_lines(second, none);
    let all = lines_of(contents);
    assert(all =~= seq![first, second]);
    law_headers_open_sections(nothing_read(), none, none, name, none, none, 1);
    assert(none + seq!['['] + none + name + none + seq![']'] + none =~= first);
    let opened = Reading { section: lower(name), values: Map::empty() };
    law_settings_are_read_as_written(opened, none, key, seq![' '], seq![' '], value, none, 2);
    assert(none + key + seq![' '] + seq!['='] + seq![' '] + value + none =~= second);
    reveal_with_fuel(after_lines, 3);
    assert(opened.values.insert((lower(name), lower(key)), value) =~= map![
        (lower(name), lower(key)) => value
    ]);
}

/// A setting that is there is found under its section and key, and the default
/// counts only where it is not. One that is blank counts as left out where it
/// must say something.
pub proof fn law_settings_are_found(
    values: Values,
    section: Seq<char>,
    key: Seq<char>,
    value: Seq<char>,
    default: Seq<char>,
)
    ensures
        setting_or(values.insert((section, key), value), section, key, default) == value,
        setting_or(values.remove((section, key)), section, key, default) == default,
        setting_text(values.remove((section, key)), section, key) is None,
        is_blank(value) ==> setting_text(values.insert((section, key), value), section, key)
            is None,
        !is_blank(value) ==> setting_text(values.insert((section, key), value), section, key)
            == Some(value),
{
    if is_blank(value) {
        let none = Seq::<char>::empty();
        law_only_white_space_is_trimmed(value, none, none);
        assert(value + none + none =~= value);
    } else {
        law_trimming_keeps_the_middle(value);
        let (before, after) = choose|before: Seq<char>, after: Seq<char>|
            value == #[trigger] (before + trimmed(value) + after) && (forall|i: int|
                0 <= i < before.len() ==> is_white_space(#[trigger] before[i])) && (forall|i: int|
                0 <= i < after.len() ==> is_white_space(#[trigger] after[i]));
        if trimmed(value).len() == 0 {
            assert forall|i: int| 0 <= i < value.len() implies is_white_space(
                #[trigger] value[i],
            ) by {
                if i < before.len() {
                    assert(value[i] == before[i]);
                } else {
                    assert(value[i] == after[i - before.len()]);
                }
            }
        }
    }
}

/// An error says its line.
pub proof fn law_errors_say_their_line(number: usize)
    ensures
        decimal_of(number as nat).is_suffix_of(IniError::EmptySection(number).text()),
        decimal_of(number as nat).is_suffix_of(IniError::OutsideSection(number).text()),
        decimal_of(number as nat).is_suffix_of(IniError::ExpectedKeyValue(number).text()),
        IniError::EmptySection(number).text() == "empty section name at line "@ + decimal_of(
            number as nat,
        ),
        IniError::OutsideSection(number).text() == "setting outside a section at line "@
            + decimal_of(number as nat),
        IniError::ExpectedKeyValue(number).text() == "expected key = value at line "@ + decimal_of(
            number as nat,
        ),
{
    let n = decimal_of(number as nat);
    let a = IniError::EmptySection(number).text();
    let b = IniError::OutsideSection(number).text();
    let c = IniError::ExpectedKeyValue(number).text();
    assert(a.subrange(a.len() - n.len(), a.len() as int) =~= n);
    assert(b.subrange(b.len() - n.len(), b.len() as int) =~= n);
    assert(c.subrange(c.len() - n.len(), c.len() as int) =~= n);
}

} // verus!
