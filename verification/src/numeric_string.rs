//! 256-bit integers as they appear in JSON: written as a decimal string, read from a string or a
//! number.

use vstd::prelude::*;
use serde_json::Value;
use crate::json;
use crate::text;
use crate::text::{decimal, parse_unsigned};
use crate::u256;
use crate::u256::U256;

verus! {

/// Why a value does not read as a 256-bit integer.
#[derive(Debug)]
pub enum NumericError {
    /// It is of a kind that holds none.
    Invalid,
    /// It is a string that spells none; the text says how.
    Malformed(String),
}

/// The digit that a character stands for: a decimal one, or a letter of either case from ten on.
pub open spec fn digit_value(c: char) -> Option<nat> {
    if '0' <= c <= '9' {
        Some((c as nat - '0' as nat) as nat)
    } else if 'a' <= c <= 'z' {
        Some((c as nat - 'a' as nat + 10) as nat)
    } else if 'A' <= c <= 'Z' {
        Some((c as nat - 'A' as nat + 10) as nat)
    } else {
        None
    }
}

/// The number that digits stand for in base `radix`, underscores left out; `None` where there is
/// anything but digits of that base. No digits stand for zero.
pub open spec fn digits_value(digits: Seq<char>, radix: nat) -> Option<nat>
    decreases digits.len(),
{
    if digits.len() == 0 {
        Some(0)
    } else if digits.last() == '_' {
        digits_value(digits.drop_last(), radix)
    } else {
        match (digits_value(digits.drop_last(), radix), digit_value(digits.last())) {
            (Some(upper), Some(digit)) => if digit < radix {
                Some(upper * radix + digit)
            } else {
                None
            },
            _ => None,
        }
    }
}

/// The base that the first two characters of a string announce: sixteen, eight or two. `None` where
/// they announce none, and the string is decimal.
pub open spec fn announced_radix(s: Seq<char>) -> Option<nat> {
    if s.len() < 2 || s[0] != '0' {
        None
    } else if s[1] == 'x' || s[1] == 'X' {
        Some(16)
    } else if s[1] == 'o' || s[1] == 'O' {
        Some(8)
    } else if s[1] == 'b' || s[1] == 'B' {
        Some(2)
    } else {
        None
    }
}

/// The 256-bit integer that a string spells: decimal, or hexadecimal, octal or binary after `0x`,
/// `0o` or `0b`.
pub open spec fn spelled_u256(s: Seq<char>) -> Option<nat> {
    let value = match announced_radix(s) {
        Some(radix) => digits_value(s.skip(2), radix),
        None => digits_value(s, 10),
    };
    match value {
        Some(n) if n < u256::modulus() => Some(n),
        _ => None,
    }
}

/// The words in which the 256-bit reader says why a string spells no integer.
pub uninterp spec fn u256_complaint(s: Seq<char>) -> Seq<char>;

/// `alloy_primitives::U256`'s `FromStr`: the integer that the string spells, or why it spells none.
/// The words of an error are fixed by the string alone.
#[verifier::external_body]
pub(crate) fn u256_from_str(s: &str) -> (r: Result<U256, String>)
    ensures
        r is Ok <==> spelled_u256(s@) is Some,
        r is Ok ==> r->Ok_0@ == spelled_u256(s@)->0,
        r is Err ==> r->Err_0@ == u256_complaint(s@),
{
    s.parse::<alloy_primitives::U256>().map(|value| U256 { limbs: value.into_limbs() }).map_err(
        |error| error.to_string(),
    )
}

/// What a value reads as.
pub enum Reading {
    /// This number.
    Value(nat),
    /// No number, because of the kind of the value.
    Invalid,
    /// No number, for the reason in these words.
    Malformed(Seq<char>),
}

/// What a string reads as: a decimal number of up to 128 bits, with or without a plus sign before it,
/// or else whatever the 256-bit reader makes of it.
pub open spec fn text_reading(s: Seq<char>) -> Reading {
    match text::unsigned_number(s, u128::MAX as nat) {
        Some(n) => Reading::Value(n),
        None => match spelled_u256(s) {
            Some(n) => Reading::Value(n),
            None => Reading::Malformed(u256_complaint(s)),
        },
    }
}

/// What a JSON value reads as. Of numbers, only unsigned 64-bit integers read as any.
pub open spec fn reading(tree: json::JsonTree) -> Reading {
    match json::text_in(tree) {
        Some(s) => text_reading(s),
        None => match json::number_in(tree) {
            Some(n) => Reading::Value(n),
            None => Reading::Invalid,
        },
    }
}

/// Reads a 256-bit integer from a JSON value.
pub fn deserialize(value: &Value) -> (r: Result<U256, NumericError>)
    ensures
        match r {
            Ok(n) => reading(json::json_tree(*value)) == Reading::Value(n@),
            Err(NumericError::Invalid) => reading(json::json_tree(*value)) == Reading::Invalid,
            Err(NumericError::Malformed(words)) => reading(json::json_tree(*value))
                == Reading::Malformed(words@),
        },
{
    if let Some(s) = value.as_str() {
        return deserialize_text(s);
    }
    match value.as_u64() {
        Some(n) => Ok(U256::from_u64(n)),
        None => Err(NumericError::Invalid),
    }
}

/// Reads a 256-bit integer from a string.
pub fn deserialize_text(s: &str) -> (r: Result<U256, NumericError>)
    ensures
        match r {
            Ok(n) => text_reading(s@) == Reading::Value(n@),
            Err(NumericError::Invalid) => false,
            Err(NumericError::Malformed(words)) => text_reading(s@) == Reading::Malformed(words@),
        },
{
    if let Some(n) = parse_unsigned(s, u128::MAX) {
        return Ok(U256::from_u128(n));
    }
    match u256_from_str(s) {
        Ok(n) => Ok(n),
        Err(words) => Err(NumericError::Malformed(words)),
    }
}

/// Writes a 256-bit integer as a decimal string; `None` where it takes more than 128 bits.
pub fn serialize(value: &U256) -> (r: Option<String>)
    ensures
        value@ <= u128::MAX ==> r is Some && r->0@ == text::numeral(value@, 10),
        value@ > u128::MAX ==> r is None,
{
    match value.to_u128() {
        Some(n) => Some(decimal(n)),
        None => None,
    }
}

/// Every number that can be written reads back as itself.
pub proof fn written_reads_back(n: nat)
    requires
        n <= u128::MAX,
    ensures
        text_reading(text::numeral(n, 10)) == Reading::Value(n),
        reading(json::JsonTree::Text(text::numeral(n, 10))) == Reading::Value(n),
{
    text::decimal_reads_back(n, u128::MAX as nat);
}

/// Every 256-bit integer reads back from its hexadecimal form after `0x`.
pub proof fn hexadecimal_reads_back(n: nat)
    requires
        n < u256::modulus(),
    ensures
        text_reading(seq!['0', 'x'] + text::numeral(n, 16)) == Reading::Value(n),
{
    let s = seq!['0', 'x'] + text::numeral(n, 16);
    assert(s.skip(2) =~= text::numeral(n, 16));
    lemma_numeral_value(n, 16);
    assert(s[0] == '0' && s[1] == 'x');
    assert(text::unsigned_digits(s) == s);
    assert(!text::is_decimal_digit(s[1]));
    assert(text::unsigned_number(s, u128::MAX as nat) is None);
}

/// A numeral in a base of up to sixteen stands for its number.
proof fn lemma_numeral_value(n: nat, radix: nat)
    requires
        2 <= radix <= 16,
    ensures
        digits_value(text::numeral(n, radix), radix) == Some(n),
    decreases n,
{
    let numeral = text::numeral(n, radix);
    if n < radix {
        assert(numeral.drop_last() =~= Seq::<char>::empty());
        assert(digits_value(numeral.drop_last(), radix) == Some(0nat));
        assert(numeral.last() == text::digit_char(n));
        assert(digit_value(text::digit_char(n)) == Some(n));
        assert(0 * radix + n == n);
    } else {
        text::lemma_quotient_shrinks(n, radix);
        lemma_numeral_value(n / radix, radix);
        assert(numeral.drop_last() =~= text::numeral(n / radix, radix));
        let d = n % radix;
        assert(d < radix) by (nonlinear_arith)
            requires
                d == n % radix,
                radix >= 2,
        ;
        assert(digit_value(text::digit_char(d)) == Some(d));
        assert(n / radix * radix + d == n) by (nonlinear_arith)
            requires
                d == n % radix,
                radix >= 2,
        ;
    }
}

/// A string reads as the decimal number it is, or else as what the 256-bit reader makes of it; a number
/// reads as itself where 64 bits hold it; no other value reads as any.
pub proof fn values_read_by_their_kind(tree: json::JsonTree)
    ensures
        tree is Text ==> ({
            let s = tree->Text_0;
            let plain = text::unsigned_number(s, u128::MAX as nat);
            let spelled = spelled_u256(s);
            &&& plain is Some ==> reading(tree) == Reading::Value(plain->0)
            &&& plain is None && spelled is Some ==> reading(tree) == Reading::Value(spelled->0)
            &&& plain is None && spelled is None ==> reading(tree) == Reading::Malformed(
                u256_complaint(s),
            )
            &&& text_reading(s) == reading(tree)
        }),
        tree is Number ==> ({
            let n = text::unsigned_number(tree->Number_0, u64::MAX as nat);
            &&& n is Some ==> reading(tree) == Reading::Value(n->0)
            &&& n is None ==> reading(tree) == Reading::Invalid
        }),
        !(tree is Text) && !(tree is Number) ==> reading(tree) == Reading::Invalid,
{
}

/// What is written reads back: a number that is written at all is read from its text as itself, and it
/// is written exactly where 128 bits hold it.
pub proof fn a_written_number_is_read_back(
    value: U256,
    written: Option<String>,
    text: &str,
    read: Result<U256, NumericError>,
)
    requires
        call_ensures(serialize, (&value,), written),
        written is Some ==> text@ == written->0@,
        call_ensures(deserialize_text, (text,), read),
    ensures
        written is Some <==> value@ <= u128::MAX,
        written is Some ==> read is Ok && read->Ok_0@ == value@,
{
    if written is Some {
        written_reads_back(value@);
    }
}

} // verus!
