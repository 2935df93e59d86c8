use vstd::prelude::*;
use crate::text::{i32_of, parse_i32, quoted_with};

verus! {

/// The message for a text that is not a number: `'<s>'는 숫자가 아닙니다`.
pub open spec fn not_a_number_msg(s: Seq<char>) -> Seq<char> {
    seq!['\''] + s + seq!['\''] + "는 숫자가 아닙니다"@
}

/// Reads `s` as an `i32`; otherwise an error that quotes `s`.
pub fn parse_number(s: &str) -> (r: Result<i32, String>)
    ensures
        match i32_of(s@) {
            Some(v) => r == Ok::<i32, String>(v),
            None => r is Err && r->Err_0@ == not_a_number_msg(s@),
        },
{
    match parse_i32(s) {
        Some(v) => Ok(v),
        None => Err(quoted_with(s, "는 숫자가 아닙니다")),
    }
}

/// Reads `s` as an `i32`; otherwise `'<s>' is not a valid number`.
pub fn parse_number_safe(s: &str) -> (r: Result<i32, String>)
    ensures
        match i32_of(s@) {
            Some(v) => r == Ok::<i32, String>(v),
            None => r is Err && r->Err_0@ == seq!['\''] + s@ + seq!['\''] + " is not a valid number"@,
        },
{
    match parse_i32(s) {
        Some(v) => Ok(v),
        None => Err(quoted_with(s, " is not a valid number")),
    }
}

/// Reads both texts as `i32` and adds them. The first text that does not
/// read gives `'<text>' is not a number`. Where both read, the caller keeps
/// their sum within `i32`.
pub fn add_two_numbers(a: &str, b: &str) -> (r: Result<i32, String>)
    requires
        i32_of(a@) is Some && i32_of(b@) is Some ==> i32::MIN <= i32_of(a@)->0 + i32_of(b@)->0
            <= i32::MAX,
    ensures
        match (i32_of(a@), i32_of(b@)) {
            (Some(x), Some(y)) => r == Ok::<i32, String>((x + y) as i32),
            (None, _) => r is Err && r->Err_0@ == seq!['\''] + a@ + seq!['\''] + " is not a number"@,
            (Some(_), None) => r is Err && r->Err_0@ == seq!['\''] + b@ + seq!['\'']
                + " is not a number"@,
        },
{
    let x = match parse_i32(a) {
        Some(v) => v,
        None => {
            return Err(quoted_with(a, " is not a number"));
        },
    };
    let y = match parse_i32(b) {
        Some(v) => v,
        None => {
            return Err(quoted_with(b, " is not a number"));
        },
    };
    Ok(x + y)
}

/// Why a text is not a non-negative number.
#[derive(Debug, Clone, PartialEq, Eq)]
pub enum ParseError {
    /// The text is not a number; it is kept.
    InvalidNumber(String),
    /// The text is empty.
    EmptyInput,
    /// The number is negative.
    OutOfRange,
}

/// The text that describes an error.
pub open spec fn parse_error_text(e: ParseError) -> Seq<char> {
    match e {
        ParseError::InvalidNumber(s) => "잘못된 숫자: "@ + s@,
        ParseError::EmptyInput => "입력이 비어있습니다"@,
        ParseError::OutOfRange => "범위를 벗어났습니다"@,
    }
}

impl ParseError {
    /// Describes the error in words.
    pub fn message(&self) -> (r: String)
        ensures
            r@ == parse_error_text(*self),
    {
        match self {
            ParseError::InvalidNumber(s) => {
                let mut r = String::from_str("잘못된 숫자: ");
                r.append(s.as_str());
                r
            },
            ParseError::EmptyInput => String::from_str("입력이 비어있습니다"),
            ParseError::OutOfRange => String::from_str("범위를 벗어났습니다"),
        }
    }
}

/// Reads `s` as a non-negative `i32`: an empty text, a text that is not a
/// number, and a negative number are each told apart.
pub fn parse_positive_number(s: &str) -> (r: Result<i32, ParseError>)
    ensures
        s@.len() == 0 ==> r == Err::<i32, ParseError>(ParseError::EmptyInput),
        s@.len() > 0 ==> match i32_of(s@) {
            None => r is Err && r->Err_0 is InvalidNumber && r->Err_0->InvalidNumber_0@ == s@,
            Some(v) => if v < 0 {
                r == Err::<i32, ParseError>(ParseError::OutOfRange)
            } else {
                r == Ok::<i32, ParseError>(v)
            },
        },
{
    if s.is_empty() {
        return Err(ParseError::EmptyInput);
    }
    let num = match parse_i32(s) {
        Some(v) => v,
        None => {
            return Err(ParseError::InvalidNumber(String::from_str(s)));
        },
    };
    if num < 0 {
        return Err(ParseError::OutOfRange);
    }
    Ok(num)
}

/// The position of the first element of `arr` equal to `target`, if any.
pub fn find_index(arr: &[i32], target: i32) -> (r: Option<usize>)
    ensures
        match r {
            Some(i) => i < arr@.len() && arr@[i as int] == target && forall|j: int|
                0 <= j < i ==> arr@[j] != target,
            None => forall|j: int| 0 <= j < arr@.len() ==> arr@[j] != target,
        },
{
    let mut i: usize = 0;
    while i < arr.len()
        invariant
            i <= arr@.len(),
            forall|j: int| 0 <= j < i ==> arr@[j] != target,
        decreases arr@.len() - i,
    {
        if arr[i] == target {
            return Some(i);
        }
        i = i + 1;
    }
    None
}

} // verus!
