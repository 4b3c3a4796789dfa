use crate::sequences::{position_of, position_of_is_first};
use vstd::prelude::*;
use vstd::string::{StrSliceExecFns, StringExecFns};

verus! {

/// Collects the characters of `s` into a vector, in order.
pub fn chars_of(s: &str) -> (chars: Vec<char>)
    ensures
        chars@ == s@,
{
    let mut chars: Vec<char> = Vec::new();
    for c in it: s.chars()
        invariant
            chars@ == it.seq().take(it.index() as int),
            it.seq() == s@,
    {
        chars.push(c);
    }
    chars
}

/// Whether two character vectors hold the same characters.
pub fn same_chars(a: &Vec<char>, b: &Vec<char>) -> (same: bool)
    ensures
        same == (a@ == b@),
{
    if a.len() != b.len() {
        return false;
    }
    let mut i: usize = 0;
    while i < a.len()
        invariant
            a.len() == b.len(),
            i <= a.len(),
            a@.take(i as int) == b@.take(i as int),
        decreases a.len() - i,
    {
        if a[i] != b[i] {
            return false;
        }
        assert(a@.take(i + 1) == a@.take(i as int).push(a@[i as int]));
        assert(b@.take(i + 1) == b@.take(i as int).push(b@[i as int]));
        i += 1;
    }
    assert(a@.take(a.len() as int) == a@);
    assert(b@.take(b.len() as int) == b@);
    true
}

/// Whether two strings hold the same characters.
pub fn str_eq(a: &str, b: &str) -> (same: bool)
    ensures
        same == (a@ == b@),
{
    let a_chars = chars_of(a);
    let b_chars = chars_of(b);
    same_chars(&a_chars, &b_chars)
}

/// The position of the first `wanted` in `chars`, if there is one.
pub fn find_char(chars: &Vec<char>, wanted: char) -> (position: Option<usize>)
    ensures
        match position {
            Some(i) => position_of(chars@, wanted) == Some(i as int),
            None => position_of(chars@, wanted) is None,
        },
{
    let mut i: usize = 0;
    while i < chars.len()
        invariant
            i <= chars@.len(),
            forall|j: int| 0 <= j < i ==> chars@[j] != wanted,
        decreases chars@.len() - i,
    {
        if chars[i] == wanted {
            proof {
                position_of_is_first(chars@, wanted);
            }
            return Some(i);
        }
        i += 1;
    }
    proof {
        position_of_is_first(chars@, wanted);
    }
    None
}

/// The first `count` characters of `text`, as a string of their own.
pub fn leading_chars(text: &str, count: usize) -> (leading: String)
    requires
        count <= text@.len(),
    ensures
        leading@ == text@.take(count as int),
{
    text.substring_char(0, count).to_owned()
}

/// Whether `text` begins with `prefix`.
pub fn starts_with(text: &Vec<char>, prefix: &Vec<char>) -> (yes: bool)
    ensures
        yes == prefix@.is_prefix_of(text@),
{
    if prefix.len() > text.len() {
        return false;
    }
    let mut i: usize = 0;
    while i < prefix.len()
        invariant
            prefix@.len() <= text@.len(),
            i <= prefix@.len(),
            forall|j: int| 0 <= j < i ==> prefix@[j] == text@[j],
        decreases prefix@.len() - i,
    {
        if prefix[i] != text[i] {
            assert(prefix@ != text@.subrange(0, prefix@.len() as int)) by {
                assert(text@.subrange(0, prefix@.len() as int)[i as int] == text@[i as int]);
            }
            return false;
        }
        i += 1;
    }
    assert(prefix@ =~= text@.subrange(0, prefix@.len() as int));
    true
}

pub open spec fn is_digit(c: char) -> bool {
    '0' <= c <= '9'
}

/// The number that a decimal digit stands for.
pub open spec fn digit_value(c: char) -> nat {
    (c as nat - '0' as nat) as nat
}

/// The decimal digit that stands for `d`, which is below ten.
pub open spec fn digit_char(d: nat) -> char {
    (d + '0' as nat) as char
}

pub open spec fn all_digits(s: Seq<char>) -> bool {
    forall|i: int| 0 <= i < s.len() ==> is_digit(#[trigger] s[i])
}

/// The number that a sequence of decimal digits denotes, most significant digit first.
pub open spec fn decimal_value(digits: Seq<char>) -> nat
    decreases digits.len(),
{
    if digits.len() == 0 {
        0
    } else {
        decimal_value(digits.drop_last()) * 10 + digit_value(digits.last())
    }
}

/// The decimal digits of `n`, without leading zeros; those of zero are `"0"`.
pub open spec fn decimal_digits(n: nat) -> Seq<char>
    decreases n,
{
    if n < 10 {
        seq![digit_char(n)]
    } else {
        decimal_digits(n / 10).push(digit_char(n % 10))
    }
}

/// The digits of a numeral: the text itself, without a leading plus sign.
pub open spec fn numeral_digits(s: Seq<char>) -> Seq<char> {
    if s.len() > 0 && s[0] == '+' {
        s.drop_first()
    } else {
        s
    }
}

/// A numeral is one or more decimal digits, with or without a plus sign before them.
pub open spec fn is_numeral(s: Seq<char>) -> bool {
    numeral_digits(s).len() > 0 && all_digits(numeral_digits(s))
}

/// The number that a numeral denotes.
pub open spec fn numeral_value(s: Seq<char>) -> nat {
    decimal_value(numeral_digits(s))
}

/// Why a text is no numeral.
#[derive(Debug, Clone, Copy, PartialEq, Eq, Structural)]
pub enum ParseIntError {
    /// The text is empty.
    Empty,
    /// The text holds something other than decimal digits after an optional plus sign,
    /// or nothing but that sign.
    InvalidDigit,
}

/// What reading a numeral against an upper limit gives.
#[derive(Debug, Clone, Copy, PartialEq, Eq, Structural)]
pub enum Numeral {
    /// The numeral denotes this number, which does not exceed the limit.
    Within(u32),
    /// The numeral denotes a number above the limit.
    Above,
}

/// What `parse_numeral` gives for the text `s` and the limit `limit`.
pub open spec fn parsed_numeral(s: Seq<char>, limit: u32) -> Result<Numeral, ParseIntError> {
    if s.len() == 0 {
        Err(ParseIntError::Empty)
    } else if !is_numeral(s) {
        Err(ParseIntError::InvalidDigit)
    } else if numeral_value(s) > limit {
        Ok(Numeral::Above)
    } else {
        Ok(Numeral::Within(numeral_value(s) as u32))
    }
}

/// Reads `chars` as a numeral.  However many digits there are, the number is compared
/// with `limit` exactly.
pub fn parse_numeral(chars: &Vec<char>, limit: u32) -> (outcome: Result<Numeral, ParseIntError>)
    ensures
        outcome == parsed_numeral(chars@, limit),
{
    if chars.len() == 0 {
        return Err(ParseIntError::Empty);
    }
    let start: usize = if chars[0] == '+' { 1 } else { 0 };
    let ghost digits = numeral_digits(chars@);
    assert(digits == chars@.subrange(start as int, chars@.len() as int));
    if start == chars.len() {
        return Err(ParseIntError::InvalidDigit);
    }
    let mut value: u64 = 0;
    let mut above = false;
    let mut i: usize = start;
    while i < chars.len()
        invariant
            start <= i <= chars@.len(),
            chars@.len() > 0,
            digits == numeral_digits(chars@),
            digits == chars@.subrange(start as int, chars@.len() as int),
            all_digits(digits.take(i - start)),
            above ==> decimal_value(digits.take(i - start)) > limit,
            !above ==> value == decimal_value(digits.take(i - start)) && value <= limit,
        decreases chars@.len() - i,
    {
        let c = chars[i];
        let ghost read = digits.take(i - start);
        let ghost longer = digits.take(i - start + 1);
        assert(digits[i - start] == c);
        assert(longer.drop_last() == read);
        assert(longer.last() == c);
        if !(c >= '0' && c <= '9') {
            assert(!is_digit(digits[i - start]));
            return Err(ParseIntError::InvalidDigit);
        }
        assert forall|j: int| 0 <= j < longer.len() implies is_digit(#[trigger] longer[j]) by {
            if j < read.len() {
                assert(longer[j] == read[j]);
            }
        }
        if !above {
            let digit: u64 = (c as u32 - '0' as u32) as u64;
            assert(digit == digit_value(c));
            value = value * 10 + digit;
            if value > limit as u64 {
                above = true;
            }
        }
        i += 1;
    }
    assert(digits.take(i - start) == digits);
    if above {
        Ok(Numeral::Above)
    } else {
        Ok(Numeral::Within(value as u32))
    }
}

/// The one-character text of a decimal digit.
fn digit_str(digit: u32) -> (text: &'static str)
    requires
        digit < 10,
    ensures
        text@ == seq![digit_char(digit as nat)],
{
    proof {
        reveal_strlit("0");
        reveal_strlit("1");
        reveal_strlit("2");
        reveal_strlit("3");
        reveal_strlit("4");
        reveal_strlit("5");
        reveal_strlit("6");
        reveal_strlit("7");
        reveal_strlit("8");
        reveal_strlit("9");
    }
    let text = match digit {
        0 => "0",
        1 => "1",
        2 => "2",
        3 => "3",
        4 => "4",
        5 => "5",
        6 => "6",
        7 => "7",
        8 => "8",
        _ => "9",
    };
    assert(text@ =~= seq![digit_char(digit as nat)]);
    text
}

/// Appends the decimal digits of `number` to `out`.
pub fn push_decimal(out: &mut String, number: u32)
    ensures
        final(out)@ == old(out)@ + decimal_digits(number as nat),
    decreases number,
{
    if number >= 10 {
        push_decimal(out, number / 10);
    }
    out.append(digit_str(number % 10));
    assert(final(out)@ =~= old(out)@ + decimal_digits(number as nat));
}

/// The decimal digits of `number` as a string.
pub fn decimal_string(number: u32) -> (text: String)
    ensures
        text@ == decimal_digits(number as nat),
{
    let mut text = String::new();
    push_decimal(&mut text, number);
    assert(Seq::<char>::empty() + decimal_digits(number as nat) =~= decimal_digits(number as nat));
    text
}

/// The digits of a number are a numeral, and reading them gives the number back.
pub proof fn decimal_digits_denote(n: nat)
    ensures
        decimal_digits(n).len() > 0,
        all_digits(decimal_digits(n)),
        decimal_value(decimal_digits(n)) == n,
        is_numeral(decimal_digits(n)),
        numeral_value(decimal_digits(n)) == n,
    decreases n,
{
    let digits = decimal_digits(n);
    if n < 10 {
        assert(digits.drop_last() =~= Seq::<char>::empty());
        assert(decimal_value(digits.drop_last()) == 0);
        assert(digits.last() == digit_char(n));
    } else {
        decimal_digits_denote(n / 10);
        assert(digits.drop_last() =~= decimal_digits(n / 10));
        assert(digits.last() == digit_char(n % 10));
        assert forall|i: int| 0 <= i < digits.len() implies is_digit(#[trigger] digits[i]) by {
            if i < digits.len() - 1 {
                assert(digits[i] == decimal_digits(n / 10)[i]);
            }
        }
    }
    assert(digits[0] != '+');
}

} // verus!
