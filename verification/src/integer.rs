//! Integers of arbitrary size: the numbers to factor and the bounds of a
//! factorization, which `rug` keeps. What is known of such an integer here is
//! the number it holds.

use crate::number::{digits_value, is_digit};
use core::str::FromStr;
use vstd::prelude::*;

verus! {

/// `rug::Integer`, an integer of arbitrary size.
#[verifier::external_type_specification]
#[verifier::external_body]
pub struct ExInteger(rug::Integer);

/// `rug::integer::ParseIntegerError`, with which `rug` refuses a text that
/// writes no integer.
#[verifier::external_type_specification]
#[verifier::external_body]
pub struct ExParseIntegerError(rug::integer::ParseIntegerError);

/// The number that an integer holds.
pub uninterp spec fn integer_value(n: rug::Integer) -> int;

/// ASCII whitespace, which may stand anywhere in the text of an integer.
pub open spec fn is_space(c: char) -> bool {
    c == ' ' || c == '\t' || c == '\n' || c == '\x0b' || c == '\x0c' || c == '\r'
}

/// The text of an integer without its whitespace.
pub open spec fn spaceless(s: Seq<char>) -> Seq<char> {
    s.filter(|c: char| !is_space(c))
}

/// Whether the text of an integer begins with a minus sign.
pub open spec fn has_minus(s: Seq<char>) -> bool {
    spaceless(s).len() > 0 && spaceless(s)[0] == '-'
}

/// The text of an integer without its whitespace and its sign.
pub open spec fn unsigned_part(s: Seq<char>) -> Seq<char> {
    let t = spaceless(s);
    if t.len() > 0 && (t[0] == '+' || t[0] == '-') {
        t.skip(1)
    } else {
        t
    }
}

/// Whether `s` writes an integer in decimal: an optional sign, a digit, and
/// then digits and underscores, with whitespace anywhere between them.
pub open spec fn is_integer_text(s: Seq<char>) -> bool {
    let body = unsigned_part(s);
    &&& body.len() > 0
    &&& is_digit(body[0])
    &&& forall|i: int| 0 <= i < body.len() ==> is_digit(#[trigger] body[i]) || body[i] == '_'
}

/// The number that `s` writes: its digits read in base ten, taken negative
/// behind a minus sign.
pub open spec fn integer_text_value(s: Seq<char>) -> int {
    let n = digits_value(unsigned_part(s).filter(|c: char| c != '_'));
    if has_minus(s) {
        -n
    } else {
        n as int
    }
}

/// `<rug::Integer as FromStr>::from_str`, which reads a decimal integer. It
/// takes an optional sign in front, passes over ASCII whitespace everywhere
/// and over underscores behind the first digit, and refuses a text with any
/// other character or without a digit. The integer it gives holds the number
/// that the digits write.
#[verifier::external_body]
fn integer_from_str(s: &str) -> (r: Result<rug::Integer, rug::integer::ParseIntegerError>)
    ensures
        r is Ok <==> is_integer_text(s@),
        r is Ok ==> integer_value(r->Ok_0) == integer_text_value(s@),
{
    rug::Integer::from_str(s)
}

/// `<rug::Integer as Clone>::clone`, which makes a new integer that holds
/// the number that `n` holds.
#[verifier::external_body]
pub(crate) fn clone_integer(n: &rug::Integer) -> (r: rug::Integer)
    ensures
        integer_value(r) == integer_value(*n),
{
    n.clone()
}

/// The text given writes no integer.
#[derive(Clone, Copy, Debug, PartialEq, Eq, Structural)]
pub enum IntegerError {
    /// The text holds no digit, or a character that no integer is written
    /// with, or a sign or an underscore where none may stand.
    Invalid,
}

impl IntegerError {
    /// What the error says to the user.
    pub fn message(&self) -> (r: &'static str)
        ensures
            r@ == "Invalid integer"@,
    {
        "Invalid integer"
    }
}

/// What a reading of an integer comes to: the integer read, or the error
/// that stands for every refusal.
pub fn integer_or_invalid(parsed: Result<rug::Integer, rug::integer::ParseIntegerError>) -> (r:
    Result<rug::Integer, IntegerError>)
    ensures
        match parsed {
            Ok(n) => r == Ok::<_, IntegerError>(n),
            Err(_) => r == Err::<rug::Integer, _>(IntegerError::Invalid),
        },
{
    match parsed {
        Ok(n) => Ok(n),
        Err(_) => Err(IntegerError::Invalid),
    }
}

/// Reads an integer written in decimal.
pub fn parse_integer(s: &str) -> (r: Result<rug::Integer, IntegerError>)
    ensures
        match r {
            Ok(n) => is_integer_text(s@) && integer_value(n) == integer_text_value(s@),
            Err(e) => !is_integer_text(s@) && e == IntegerError::Invalid,
        },
{
    integer_or_invalid(integer_from_str(s))
}

} // verus!
