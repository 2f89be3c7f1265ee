//! Numbers and bytes as text: hexadecimal, octal escapes and decimal.

use vstd::prelude::*;
use vstd::string::*;

use crate::text::chars_of;

verus! {

/// The digit of a number below sixteen; the letters are small.
pub open spec fn hex_digit(n: u8) -> char {
    if n < 10 {
        (n + 48) as char
    } else {
        (n + 87) as char
    }
}

/// Two small hexadecimal digits for each byte, the high half first.
pub open spec fn hex_of(bytes: Seq<u8>) -> Seq<char> {
    Seq::new(
        2 * bytes.len(),
        |i: int|
            if i % 2 == 0 {
                hex_digit(bytes[i / 2] / 16)
            } else {
                hex_digit(bytes[i / 2] % 16)
            },
    )
}

fn push_hex_digit(text: &mut String, n: u8)
    requires
        n < 16,
    ensures
        final(text)@ == old(text)@.push(hex_digit(n)),
{
    let c: char = if n < 10 {
        (n + 48) as char
    } else {
        (n + 87) as char
    };
    text.push(c);
}

/// Writes bytes in hexadecimal.
pub fn hex(bytes: &[u8]) -> (r: String)
    ensures
        r@ == hex_of(bytes@),
{
    let mut r = String::new();
    let mut i: usize = 0;
    while i < bytes.len()
        invariant
            i <= bytes.len(),
            r@ == hex_of(bytes@.take(i as int)),
        decreases bytes.len() - i,
    {
        let b = bytes[i];
        let ghost before = r@;
        push_hex_digit(&mut r, b / 16);
        push_hex_digit(&mut r, b % 16);
        i = i + 1;
        proof {
            assert(hex_of(bytes@.take(i as int)) =~= before.push(hex_digit(b / 16)).push(
                hex_digit(b % 16),
            ));
        }
    }
    assert(bytes@.take(bytes.len() as int) =~= bytes@);
    r
}

/// Hexadecimal text tells the bytes that it was made of.
pub proof fn lemma_hex_is_injective(a: Seq<u8>, b: Seq<u8>)
    requires
        hex_of(a) == hex_of(b),
    ensures
        a == b,
{
    assert(hex_of(a).len() == 2 * a.len() && hex_of(b).len() == 2 * b.len());
    assert forall|i: int| 0 <= i < a.len() implies a[i] == b[i] by {
        let high = 2 * i;
        let low = 2 * i + 1;
        assert(high / 2 == i && high % 2 == 0 && low / 2 == i && low % 2 == 1);
        assert(hex_of(a)[high] == hex_digit(a[i] / 16) && hex_of(a)[low] == hex_digit(a[i] % 16));
        assert(hex_of(b)[high] == hex_digit(b[i] / 16) && hex_of(b)[low] == hex_digit(b[i] % 16));
        lemma_hex_digit_is_injective(a[i] / 16, b[i] / 16);
        lemma_hex_digit_is_injective(a[i] % 16, b[i] % 16);
    }
    assert(a =~= b);
}

proof fn lemma_hex_digit_is_injective(m: u8, n: u8)
    requires
        m < 16,
        n < 16,
        hex_digit(m) == hex_digit(n),
    ensures
        m == n,
{
    assert(hex_digit(m) as u32 == if m < 10 { m + 48 } else { m + 87 });
    assert(hex_digit(n) as u32 == if n < 10 { n + 48 } else { n + 87 });
}

/// Hexadecimal digits are ASCII.
pub proof fn lemma_hex_is_ascii(bytes: Seq<u8>)
    ensures
        crate::text::is_ascii_text(hex_of(bytes)),
{
    assert forall|i: int| 0 <= i < hex_of(bytes).len() implies (#[trigger] hex_of(bytes)[i]) as u32
        <= 127 by {
        let b = bytes[i / 2];
        lemma_hex_digit_is_ascii(b / 16);
        lemma_hex_digit_is_ascii(b % 16);
    }
}

proof fn lemma_hex_digit_is_ascii(n: u8)
    requires
        n < 16,
    ensures
        hex_digit(n) as u32 <= 127,
{
}

/// The digit of a number below ten.
pub open spec fn digit(n: int) -> char {
    (n + 48) as char
}

/// A backslash and three octal digits for each byte.
pub open spec fn octal_of(bytes: Seq<u8>) -> Seq<char> {
    Seq::new(
        4 * bytes.len(),
        |i: int|
            if i % 4 == 0 {
                '\\'
            } else if i % 4 == 1 {
                digit(bytes[i / 4] as int / 64)
            } else if i % 4 == 2 {
                digit((bytes[i / 4] as int / 8) % 8)
            } else {
                digit(bytes[i / 4] as int % 8)
            },
    )
}

/// Writes bytes as octal escapes.
pub fn octal(bytes: &[u8]) -> (r: String)
    ensures
        r@ == octal_of(bytes@),
{
    let mut r = String::new();
    let mut i: usize = 0;
    while i < bytes.len()
        invariant
            i <= bytes.len(),
            r@ == octal_of(bytes@.take(i as int)),
        decreases bytes.len() - i,
    {
        let b = bytes[i];
        let ghost before = r@;
        r.push('\\');
        r.push((b / 64 + 48) as char);
        r.push(((b / 8) % 8 + 48) as char);
        r.push((b % 8 + 48) as char);
        i = i + 1;
        proof {
            let made = before.push('\\').push(digit(b as int / 64)).push(digit((b as int / 8) % 8)).push(
                digit(b as int % 8),
            );
            assert(r@ =~= made);
            assert(octal_of(bytes@.take(i as int)) =~= made);
        }
    }
    assert(bytes@.take(bytes.len() as int) =~= bytes@);
    r
}

/// The decimal digits of a number, without leading zeros.
pub open spec fn decimal_of(n: nat) -> Seq<char>
    decreases n,
{
    if n < 10 {
        seq![digit(n as int)]
    } else {
        decimal_of(n / 10).push(digit((n % 10) as int))
    }
}

/// Writes a number in decimal.
pub fn decimal(n: u64) -> (r: String)
    ensures
        r@ == decimal_of(n as nat),
    decreases n,
{
    let last: char = ((n % 10) as u8 + 48) as char;
    let mut r = if n < 10 {
        String::new()
    } else {
        decimal(n / 10)
    };
    r.push(last);
    assert(n < 10 ==> r@ =~= seq![digit(n as int)]);
    r
}

/// Whether the character is a decimal digit.
pub open spec fn is_digit(c: char) -> bool {
    '0' <= c <= '9'
}

/// How many digits the text begins with.
pub open spec fn digit_run(s: Seq<char>) -> nat
    decreases s.len(),
{
    if s.len() > 0 && is_digit(s[0]) {
        1 + digit_run(s.drop_first())
    } else {
        0
    }
}

/// The number that decimal digits stand for.
pub open spec fn digits_value(s: Seq<char>) -> nat
    decreases s.len(),
{
    if s.len() == 0 {
        0
    } else {
        10 * digits_value(s.drop_last()) + (s.last() as u32 - 48) as nat
    }
}

/// Why a text is no number.
#[derive(Clone, Copy, Debug, PartialEq, Eq, Structural)]
pub enum NumberError {
    /// There is no character.
    Empty,
    /// A character is no digit.
    InvalidDigit,
    /// The digits stand for more than the greatest number allowed.
    TooLarge,
}

impl NumberError {
    /// What the error says.
    pub open spec fn text(self) -> Seq<char> {
        match self {
            NumberError::Empty => "cannot parse integer from empty string"@,
            NumberError::InvalidDigit => "invalid digit found in string"@,
            NumberError::TooLarge => "number too large to fit in target type"@,
        }
    }

    /// What the error says.
    pub fn message(&self) -> (r: String)
        ensures
            r@ == self.text(),
    {
        match self {
            NumberError::Empty => "cannot parse integer from empty string".to_owned(),
            NumberError::InvalidDigit => "invalid digit found in string".to_owned(),
            NumberError::TooLarge => "number too large to fit in target type".to_owned(),
        }
    }
}

/// The number that the whole of `s` writes in decimal, at most `max`. A plus
/// sign may stand before the digits. Of two faults the one further left counts.
pub open spec fn number_of(s: Seq<char>, max: nat) -> Result<nat, NumberError> {
    let body = if s.len() > 0 && s[0] == '+' {
        s.drop_first()
    } else {
        s
    };
    let run = digit_run(body) as int;
    if s.len() == 0 {
        Err(NumberError::Empty)
    } else if body.len() == 0 {
        Err(NumberError::InvalidDigit)
    } else if digits_value(body.take(run)) > max {
        Err(NumberError::TooLarge)
    } else if run < body.len() {
        Err(NumberError::InvalidDigit)
    } else {
        Ok(digits_value(body.take(run)))
    }
}

proof fn lemma_digit_run(s: Seq<char>, i: int)
    requires
        0 <= i <= s.len(),
        forall|j: int| 0 <= j < i ==> is_digit(s[j]),
    ensures
        digit_run(s) >= i,
        digit_run(s) <= s.len(),
        i == s.len() || !is_digit(s[i]) ==> digit_run(s) == i,
        forall|j: int| 0 <= j < digit_run(s) ==> is_digit(s[j]),
    decreases s.len(),
{
    if s.len() > 0 && is_digit(s[0]) {
        lemma_digit_run(s.drop_first(), if i > 0 { i - 1 } else { 0 });
        assert forall|j: int| 0 <= j < digit_run(s) implies is_digit(s[j]) by {
            if j > 0 {
                assert(s[j] == s.drop_first()[j - 1]);
            }
        }
    }
}

/// More digits never make a number smaller.
proof fn lemma_digits_value_grows(s: Seq<char>, i: int)
    requires
        0 <= i <= s.len(),
    ensures
        digits_value(s.take(i)) <= digits_value(s),
    decreases s.len(),
{
    if i < s.len() {
        lemma_digits_value_grows(s.drop_last(), i);
        assert(s.drop_last().take(i) =~= s.take(i));
    } else {
        assert(s.take(i) =~= s);
    }
}

/// Reads a decimal number that is at most `max`.
pub fn number(s: &str, max: u64) -> (r: Result<u64, NumberError>)
    ensures
        match r {
            Ok(n) => number_of(s@, max as nat) == Ok::<nat, NumberError>(n as nat),
            Err(e) => number_of(s@, max as nat) == Err::<nat, NumberError>(e),
        },
{
    let v = chars_of(s);
    if v.len() == 0 {
        return Err(NumberError::Empty);
    }
    let from: usize = if v[0] == '+' {
        1
    } else {
        0
    };
    let ghost body = s@.skip(from as int);
    assert(body =~= if s@[0] == '+' {
        s@.drop_first()
    } else {
        s@
    });
    if from == v.len() {
        return Err(NumberError::InvalidDigit);
    }
    let mut i: usize = from;
    let mut value: u64 = 0;
    while i < v.len()
        invariant
            v@ == s@,
            from <= i <= v.len(),
            from < v.len(),
            from == if s@[0] == '+' {
                1int
            } else {
                0int
            },
            body == s@.skip(from as int),
            s@.len() > 0,
            body == if s@[0] == '+' {
                s@.drop_first()
            } else {
                s@
            },
            forall|j: int| 0 <= j < i - from ==> is_digit(body[j]),
            value == digits_value(body.take(i - from)),
            value <= max,
        decreases v.len() - i,
    {
        let c = v[i];
        if !('0' <= c && c <= '9') {
            proof {
                lemma_digit_run(body, i - from);
            }
            return Err(NumberError::InvalidDigit);
        }
        let d: u8 = c as u8 - 48;
        let next: u128 = value as u128 * 10 + d as u128;
        proof {
            assert(body.take(i - from + 1).drop_last() =~= body.take(i - from));
            assert(body.take(i - from + 1).last() == c);
        }
        if next > max as u128 {
            proof {
                assert forall|j: int| 0 <= j < i - from + 1 implies is_digit(body[j]) by {
                    if j == i - from {
                        assert(body[j] == c);
                    }
                }
                lemma_digit_run(body, i - from + 1);
                let run = digit_run(body) as int;
                lemma_digits_value_grows(body.take(run), i - from + 1);
                assert(body.take(run).take(i - from + 1) =~= body.take(i - from + 1));
            }
            return Err(NumberError::TooLarge);
        }
        value = next as u64;
        i = i + 1;
    }
    proof {
        lemma_digit_run(body, i - from);
        assert(body.take(i - from) =~= body);
    }
    Ok(value)
}

proof fn lemma_digit(n: nat)
    requires
        n < 10,
    ensures
        is_digit(digit(n as int)),
        digit(n as int) as u32 == n + 48,
        digit(n as int) != '+',
{
}

/// The decimal digits of a number are digits, and stand for it.
pub proof fn lemma_decimal(n: nat)
    ensures
        decimal_of(n).len() > 0,
        forall|i: int| 0 <= i < decimal_of(n).len() ==> is_digit(#[trigger] decimal_of(n)[i]),
        decimal_of(n)[0] != '+',
        digits_value(decimal_of(n)) == n,
    decreases n,
{
    reveal_with_fuel(digits_value, 2);
    if n < 10 {
        lemma_digit(n);
        assert(decimal_of(n).drop_last() =~= Seq::empty());
    } else {
        lemma_decimal(n / 10);
        lemma_digit(n % 10);
        assert(decimal_of(n).drop_last() =~= decimal_of(n / 10));
    }
}

/// Every number is read back from its decimal digits, with or without a plus sign
/// before them, if it is not above the greatest one allowed, and otherwise is
/// refused as too large.
pub proof fn law_numbers_are_read_back(n: nat, max: nat)
    ensures
        n <= max ==> number_of(decimal_of(n), max) == Ok::<nat, NumberError>(n),
        n > max ==> number_of(decimal_of(n), max) == Err::<nat, NumberError>(
            NumberError::TooLarge,
        ),
        n <= max ==> number_of(seq!['+'] + decimal_of(n), max) == Ok::<nat, NumberError>(n),
{
    let s = decimal_of(n);
    lemma_decimal(n);
    lemma_digit_run(s, s.len() as int);
    assert(s.take(s.len() as int) =~= s);
    assert((seq!['+'] + s).drop_first() =~= s);
}

/// A number is read only from digits, one or more, with at most a plus sign before
/// them: every character counts.
pub proof fn law_only_digits_are_numbers(s: Seq<char>, max: nat)
    ensures
        number_of(s, max) matches Ok(n) ==> {
            let body = if s[0] == '+' {
                s.skip(1)
            } else {
                s
            };
            &&& s.len() > 0
            &&& body.len() > 0
            &&& forall|i: int| 0 <= i < body.len() ==> '0' <= #[trigger] body[i] <= '9'
            &&& n == digits_value(body)
            &&& n <= max
        },
        s.len() == 0 <==> number_of(s, max) == Err::<nat, NumberError>(NumberError::Empty),
{
    if s.len() > 0 {
        let body = if s[0] == '+' {
            s.drop_first()
        } else {
            s
        };
        assert(s.drop_first() =~= s.skip(1));
        lemma_digit_run(body, 0);
        if digit_run(body) >= body.len() {
            assert(body.take(digit_run(body) as int) =~= body);
        }
    }
}

/// Every text of digits is a number, leading zeros and all, if it is not too large.
/// A character that is no digit is refused, unless the digits before it are too
/// large already.
pub proof fn law_every_run_of_digits_is_a_number(
    digits: Seq<char>,
    c: char,
    rest: Seq<char>,
    max: nat,
)
    requires
        forall|i: int| 0 <= i < digits.len() ==> '0' <= #[trigger] digits[i] <= '9',
        !('0' <= c <= '9'),
    ensures
        digits.len() > 0 ==> number_of(digits, max) == (if digits_value(digits) <= max {
            Ok(digits_value(digits))
        } else {
            Err(NumberError::TooLarge)
        }),
        digits.len() > 0 ==> number_of(digits + seq![c] + rest, max) == Err::<nat, NumberError>(
            if digits_value(digits) <= max {
                NumberError::InvalidDigit
            } else {
                NumberError::TooLarge
            },
        ),
        c != '+' ==> number_of(seq![c] + rest, max) == Err::<nat, NumberError>(
            NumberError::InvalidDigit,
        ),
        number_of(seq!['+'], max) == Err::<nat, NumberError>(NumberError::InvalidDigit),
{
    let n = digits.len() as int;
    assert forall|i: int| 0 <= i < n implies is_digit(#[trigger] digits[i]) by {}
    lemma_digit_run(digits, n);
    assert(digits.take(n) =~= digits);
    let longer = digits + seq![c] + rest;
    assert forall|i: int| 0 <= i < n implies is_digit(longer[i]) by {
        assert(longer[i] == digits[i]);
    }
    assert(longer[n] == c);
    lemma_digit_run(longer, n);
    assert(longer.take(n) =~= digits);
    let other = seq![c] + rest;
    assert(other[0] == c);
    lemma_digit_run(other, 0);
    assert(other.take(0) =~= Seq::empty());
}

/// The decimal digits of a number begin with a zero only where that is the number.
pub proof fn law_decimals_have_no_leading_zeros(n: nat)
    ensures
        n > 0 ==> decimal_of(n)[0] != '0',
        n < 10 ==> decimal_of(n).len() == 1,
    decreases n,
{
    lemma_digit(if n < 10 {
        n
    } else {
        0
    });
    if n >= 10 {
        lemma_decimal(n / 10);
        law_decimals_have_no_leading_zeros(n / 10);
        assert(decimal_of(n)[0] == decimal_of(n / 10)[0]);
    }
}

/// A digit more makes a number ten times as large and adds the digit.
pub proof fn law_digits_have_their_place(s: Seq<char>, d: nat)
    requires
        d < 10,
    ensures
        digits_value(s.push((d + 48) as char)) == 10 * digits_value(s) + d,
        digits_value(Seq::empty()) == 0,
{
    lemma_digit(d);
    assert(s.push((d + 48) as char).drop_last() =~= s);
}

/// Two digits stand for each byte, and read as a number to the base sixteen they
/// give the byte back.
pub proof fn law_hex_digits_stand_for_the_bytes(bytes: Seq<u8>, i: int)
    requires
        0 <= i < bytes.len(),
    ensures
        hex_of(bytes).len() == 2 * bytes.len(),
        16 * hex_value(hex_of(bytes)[2 * i]) + hex_value(hex_of(bytes)[2 * i + 1]) == bytes[i],
{
    let high = 2 * i;
    let low = 2 * i + 1;
    assert(high / 2 == i && high % 2 == 0 && low / 2 == i && low % 2 == 1);
    lemma_hex_value(bytes[i] / 16);
    lemma_hex_value(bytes[i] % 16);
}

/// What a small hexadecimal digit counts; less than nothing for any other
/// character.
pub open spec fn hex_value(c: char) -> int {
    if '0' <= c <= '9' {
        c as int - 48
    } else if 'a' <= c <= 'f' {
        c as int - 87
    } else {
        -1000
    }
}

proof fn lemma_hex_value(n: u8)
    requires
        n < 16,
    ensures
        hex_value(hex_digit(n)) == n,
{
}

} // verus!
