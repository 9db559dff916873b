//! A sample function-like implementation: greets whatever its payload
//! names, quotes stripped.

use vstd::prelude::*;
use crate::strutil::{spec_trim_char, trim_matches_char};

verus! {

/// A string literal greeting the payload with surrounding quotes removed.
pub open spec fn spec_hello(s: Seq<char>) -> Seq<char> {
    "\"Hello, "@ + spec_trim_char(s, '"') + "\""@
}

/// Builds the greeting literal for the payload.
pub fn hello(input: &str) -> (r: String)
    ensures
        r@ == spec_hello(input@),
{
    let mut out = String::from_str("\"Hello, ");
    let name = trim_matches_char(input, '"');
    out.append(name.as_str());
    out.append("\"");
    out
}

} // verus!
