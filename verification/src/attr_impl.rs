//! A sample attribute implementation: prefixes the decorated item with a
//! doc comment made from the attribute's arguments.

use vstd::prelude::*;

verus! {

/// The decorated item behind a doc comment built from the arguments.
pub open spec fn spec_gen_doc(attr: Seq<char>, item: Seq<char>) -> Seq<char> {
    "/// "@ + attr + "\n"@ + item
}

/// Prefixes `item` with a doc comment holding `attr`.
pub fn gen_doc(attr: &str, item: &str) -> (r: String)
    ensures
        r@ == spec_gen_doc(attr@, item@),
{
    let mut out = String::from_str("/// ");
    out.append(attr);
    out.append("\n");
    out.append(item);
    out
}

} // verus!
