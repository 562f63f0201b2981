//! Text helpers: what the standard library does to strings and characters,
//! stated over sequences of characters.

use vstd::prelude::*;
use vstd::utf8::{decode_utf8, valid_utf8};

verus! {

/// The ASCII upper-case form of a character: `a`-`z` move to `A`-`Z`,
/// every other character stays.
pub open spec fn ascii_upper(c: char) -> char {
    if 'a' <= c && c <= 'z' {
        ((c as u32) - 32) as char
    } else {
        c
    }
}

/// The ASCII lower-case form of a character: `A`-`Z` move to `a`-`z`,
/// every other character stays.
pub open spec fn ascii_lower(c: char) -> char {
    if 'A' <= c && c <= 'Z' {
        ((c as u32) + 32) as char
    } else {
        c
    }
}

/// `char::to_ascii_uppercase`: maps the ASCII letters `a`-`z` to `A`-`Z`
/// and leaves every other character alone.
pub assume_specification[ char::to_ascii_uppercase ](c: &char) -> (r: char)
    ensures
        r == ascii_upper(*c),
;

/// `char::to_ascii_lowercase`: maps the ASCII letters `A`-`Z` to `a`-`z`
/// and leaves every other character alone.
pub assume_specification[ char::to_ascii_lowercase ](c: &char) -> (r: char)
    ensures
        r == ascii_lower(*c),
;

/// `String::push`: appends one character at the end.
pub assume_specification[ String::push ](s: &mut String, c: char)
    ensures
        final(s)@ == old(s)@.push(c),
;

/// Whether a character is one of the decimal digits `0` to `9`.
pub open spec fn is_decimal_digit(c: char) -> bool {
    '0' <= c && c <= '9'
}

/// The number that a decimal digit stands for.
pub open spec fn digit_value(c: char) -> int {
    (c as u32) as int - 48
}

/// The number that a text of decimal digits spells.
pub open spec fn decimal_value(digits: Seq<char>) -> int
    decreases digits.len(),
{
    if digits.len() == 0 {
        0
    } else {
        10 * decimal_value(digits.drop_last()) + digit_value(digits.last())
    }
}

/// Whether a text holds decimal digits only.
pub open spec fn all_decimal_digits(digits: Seq<char>) -> bool {
    forall|i: int| 0 <= i < digits.len() ==> is_decimal_digit(#[trigger] digits[i])
}

/// The number that a text without a sign spells: decimal digits, at least
/// one, and nothing else.
pub open spec fn spelled_natural(digits: Seq<char>) -> Option<int> {
    if digits.len() == 0 || !all_decimal_digits(digits) {
        None
    } else {
        Some(decimal_value(digits))
    }
}

/// The integer that a text spells: an optional `+` or `-`, then decimal
/// digits, at least one, and nothing else.
pub open spec fn spelled_integer(s: Seq<char>) -> Option<int> {
    if s.len() > 0 && s[0] == '-' {
        match spelled_natural(s.skip(1)) {
            Some(v) => Some(-v),
            None => None,
        }
    } else if s.len() > 0 && s[0] == '+' {
        spelled_natural(s.skip(1))
    } else {
        spelled_natural(s)
    }
}

/// What `str::parse::<i32>` makes of a text: the integer it spells, if it
/// spells one that fits 32 bits.
pub open spec fn parsed_i32(s: Seq<char>) -> Option<i32> {
    match spelled_integer(s) {
        Some(v) => if i32::MIN <= v <= i32::MAX {
            Some(v as i32)
        } else {
            None
        },
        None => None,
    }
}

/// A digit alone spells its value, and behind a `-` the negative of it.
pub proof fn lemma_parsed_digit(c: char)
    requires
        is_decimal_digit(c),
    ensures
        parsed_i32(seq![c]) == Some(digit_value(c) as i32),
        parsed_i32(seq!['+', c]) == Some(digit_value(c) as i32),
        parsed_i32(seq!['-', c]) == Some((-digit_value(c)) as i32),
        0 <= digit_value(c) <= 9,
{
    let one = seq![c];
    assert(one.drop_last() =~= Seq::<char>::empty());
    assert(decimal_value(one.drop_last()) == 0);
    assert(decimal_value(one) == digit_value(c));
    assert(seq!['+', c].skip(1) =~= one);
    assert(seq!['-', c].skip(1) =~= one);
}

/// The empty text and a sign alone spell no integer.
pub proof fn lemma_parsed_nothing()
    ensures
        parsed_i32(Seq::empty()) is None,
        parsed_i32(seq!['-']) is None,
        parsed_i32(seq!['+']) is None,
{
    assert(seq!['-'].skip(1) =~= Seq::<char>::empty());
    assert(seq!['+'].skip(1) =~= Seq::<char>::empty());
}

/// A text that holds anything but digits behind its sign spells no
/// integer.
pub proof fn lemma_parsed_other_character(s: Seq<char>, i: int)
    requires
        0 <= i < s.len(),
        !is_decimal_digit(s[i]),
        i > 0 || (s[0] != '-' && s[0] != '+'),
    ensures
        parsed_i32(s) is None,
{
    if s[0] == '-' || s[0] == '+' {
        let digits = s.skip(1);
        assert(!is_decimal_digit(digits[i - 1]));
    } else {
        assert(!is_decimal_digit(s[i]));
    }
}

/// The reason `i32::from_str` gives for a failure. Nothing is read of it.
#[verifier::external_type_specification]
#[verifier::external_body]
pub struct ExParseIntError(core::num::ParseIntError);

/// `i32::from_str`, which is what `str::parse::<i32>` calls. The text is
/// to be an optional `+` or `-` and decimal digits only; an empty text, a
/// sign alone, any other character and a number that does not fit are
/// failures.
pub assume_specification[ <i32 as core::str::FromStr>::from_str ](s: &str) -> (r: Result<
    i32,
    core::num::ParseIntError,
>)
    ensures
        match r {
            Ok(v) => parsed_i32(s@) == Some(v),
            Err(_) => parsed_i32(s@) is None,
        },
;

/// The number that a text spells, if it spells one that fits 32 bits.
pub fn parse_i32(s: &str) -> (r: Option<i32>)
    ensures
        r == parsed_i32(s@),
{
    match <i32 as core::str::FromStr>::from_str(s) {
        Ok(v) => Some(v),
        Err(_) => None,
    }
}

/// The decimal digit for a number from 0 to 9.
pub open spec fn digit_char(d: int) -> char {
    ((48 + d) as u8) as char
}

/// A natural number in decimal notation, without leading zeros.
pub open spec fn natural_text(n: nat) -> Seq<char>
    decreases n,
{
    if n < 10 {
        seq![digit_char(n as int)]
    } else {
        natural_text(n / 10).push(digit_char((n % 10) as int))
    }
}

/// How `i128::to_string` writes a number: in decimal notation, with `-`
/// before a negative number and no sign before any other.
pub open spec fn decimal_text(n: int) -> Seq<char> {
    if n < 0 {
        seq!['-'] + natural_text((-n) as nat)
    } else {
        natural_text(n as nat)
    }
}

/// What is written in decimal notation is digits only, and spells the
/// number.
pub proof fn lemma_natural_text(n: nat)
    ensures
        natural_text(n).len() > 0,
        all_decimal_digits(natural_text(n)),
        decimal_value(natural_text(n)) == n,
    decreases n,
{
    if n < 10 {
        let one = natural_text(n);
        assert(one.drop_last() =~= Seq::<char>::empty());
        assert(decimal_value(one.drop_last()) == 0);
    } else {
        lemma_natural_text(n / 10);
        let front = natural_text(n / 10);
        let all = natural_text(n);
        assert(all.drop_last() =~= front);
        assert(all.last() == digit_char((n % 10) as int));
        assert forall|i: int| 0 <= i < all.len() implies is_decimal_digit(#[trigger] all[i]) by {
            if i < front.len() {
                assert(all[i] == front[i]);
            }
        }
    }
}

/// A 32-bit integer that is written and read again is the same integer.
pub proof fn lemma_written_and_read(n: i32)
    ensures
        parsed_i32(decimal_text(n as int)) == Some(n),
{
    if n < 0 {
        let digits = natural_text((-n) as nat);
        lemma_natural_text((-n) as nat);
        assert((seq!['-'] + digits).skip(1) =~= digits);
    } else {
        lemma_natural_text(n as nat);
        let digits = natural_text(n as nat);
        assert(is_decimal_digit(digits[0]));
    }
}

/// `i128::to_string`: the number in decimal notation, as `decimal_text`
/// states it: the digits without leading zeros, and `-` before them for a
/// negative number.
#[verifier::external_body]
pub(crate) fn i128_to_string(n: i128) -> (r: String)
    ensures
        r@ == decimal_text(n as int),
{
    n.to_string()
}

/// The reason `String::from_utf8` gives for a failure. Nothing is read of
/// it.
#[verifier::external_type_specification]
#[verifier::external_body]
pub struct ExFromUtf8Error(std::string::FromUtf8Error);

/// `String::from_utf8`: the text that the bytes encode when they are
/// well-formed UTF-8, and a failure otherwise.
pub assume_specification[ String::from_utf8 ](bytes: Vec<u8>) -> (r: Result<
    String,
    std::string::FromUtf8Error,
>)
    ensures
        r is Ok <==> valid_utf8(bytes@),
        r matches Ok(s) ==> s@ == decode_utf8(bytes@),
;

/// The text that the bytes encode, if they are well-formed UTF-8.
pub fn utf8_to_string(bytes: Vec<u8>) -> (r: Option<String>)
    ensures
        r is Some <==> valid_utf8(bytes@),
        r matches Some(s) ==> s@ == decode_utf8(bytes@),
{
    match String::from_utf8(bytes) {
        Ok(s) => Some(s),
        Err(_) => None,
    }
}

/// `str::eq`: two texts are equal when they hold the same characters.
pub assume_specification[ <str as PartialEq>::eq ](a: &str, b: &str) -> (r: bool)
    ensures
        r == (a@ == b@),
;

/// Whether two texts hold the same characters.
pub fn same_text(a: &str, b: &str) -> (r: bool)
    ensures
        r == (a@ == b@),
{
    *a == *b
}

/// The text `a` followed by the text `b`.
pub fn joined(a: &str, b: &str) -> (r: String)
    ensures
        r@ == a@ + b@,
{
    let mut out = String::from_str(a);
    out.append(b);
    out
}

} // verus!
