//! A sample function-like implementation: the fizz-buzz rule over a
//! decimal payload.

use vstd::prelude::*;
use crate::strutil::{spec_trim, trim};
use crate::numtext::{spec_parse_i32, spec_format_i32, parse_i32, format_i32};

verus! {

/// The payload read as a number: trimmed, parsed as an `i32`, zero when it
/// does not parse.
pub open spec fn parsed_or_zero(s: Seq<char>) -> int {
    match spec_parse_i32(spec_trim(s)) {
        Some(v) => v,
        None => 0,
    }
}

/// The fizz-buzz rule: a string literal for multiples of fifteen, three or
/// five, the number's own decimal text otherwise.
pub open spec fn spec_fizzbuzz(s: Seq<char>) -> Seq<char> {
    let n = parsed_or_zero(s);
    let m = if n < 0 {
        -n
    } else {
        n
    };
    if m % 15 == 0 {
        "\"FizzBuzz\""@
    } else if m % 3 == 0 {
        "\"Fizz\""@
    } else if m % 5 == 0 {
        "\"Buzz\""@
    } else {
        spec_format_i32(n)
    }
}

/// Maps a decimal payload through the fizz-buzz rule.
pub fn fizzbuzz(input: &str) -> (r: String)
    ensures
        r@ == spec_fizzbuzz(input@),
{
    let t = trim(input);
    let n: i32 = match parse_i32(t.as_str()) {
        Some(v) => v,
        None => 0,
    };
    let m: u64 = if n < 0 {
        (-(n as i64)) as u64
    } else {
        n as u64
    };
    if m % 15 == 0 {
        String::from_str("\"FizzBuzz\"")
    } else if m % 3 == 0 {
        String::from_str("\"Fizz\"")
    } else if m % 5 == 0 {
        String::from_str("\"Buzz\"")
    } else {
        format_i32(n)
    }
}

} // verus!
