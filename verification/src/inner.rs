//! A sample attribute implementation: puts a `derive(Debug)` attribute in
//! front of the decorated item.

use vstd::prelude::*;

verus! {

/// The decorated item behind the derive attribute; the attribute's own
/// arguments play no part.
pub open spec fn spec_attr_derive_debug(item: Seq<char>) -> Seq<char> {
    "#[derive(Debug)] "@ + item
}

/// Prefixes `item` with a `derive(Debug)` attribute.
#[allow(unused_variables)]
pub fn attr_derive_debug(attr: &str, item: &str) -> (r: String)
    ensures
        r@ == spec_attr_derive_debug(item@),
{
    let mut out = String::from_str("#[derive(Debug)] ");
    out.append(item);
    out
}

} // verus!
