//! A sample function-like implementation: replaces its input with the
//! source of a small constant function.

use vstd::prelude::*;

verus! {

/// The source text `bar` always produces.
pub open spec fn bar_output() -> Seq<char> {
    "\n    pub fn bar() -> &'static str {\n        \"baz\"\n    }\n    "@
}

/// The source text `baz` always produces.
pub open spec fn baz_output() -> Seq<char> {
    "\n    pub fn bar() -> &'static str {\n        \"ofo\"\n    }\n    "@
}

/// Ignores its payload and hands back the constant replacement source.
#[allow(unused_variables)]
pub fn bar(input: &str) -> (r: String)
    ensures
        r@ == bar_output(),
{
    String::from_str("\n    pub fn bar() -> &'static str {\n        \"baz\"\n    }\n    ")
}

/// Ignores its payload and hands back the constant replacement source.
#[allow(unused_variables)]
pub fn baz(input: &str) -> (r: String)
    ensures
        r@ == baz_output(),
{
    String::from_str("\n    pub fn bar() -> &'static str {\n        \"ofo\"\n    }\n    ")
}

} // verus!
