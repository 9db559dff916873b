//! A sample derive implementation with a helper attribute: reads a
//! `node_category` annotation off the decorated item and emits a trait
//! impl reporting the category.

use vstd::prelude::*;
use crate::strutil::{
    spec_find, spec_trim, spec_trim_char, spec_trim_start_char, spec_trim_end_char,
    trim, trim_matches_char, trim_start_matches_char, trim_end_matches_char, find_sub,
    lemma_find_from_some,
};
use crate::derive_impl;

verus! {

/// Whether the item carries a `node_category` annotation.
pub open spec fn spec_has_category(s: Seq<char>) -> bool {
    spec_find(s, "#[node_category"@) is Some
}

/// The annotation's value: the text after the first `#[node_category`,
/// cut at the next such marker if any, cut at the first `]`, with
/// parentheses, whitespace and quotes stripped.
pub open spec fn spec_category(s: Seq<char>) -> Seq<char> {
    let pat = "#[node_category"@;
    match spec_find(s, pat) {
        Some(i) => {
            let rest = s.skip(i + pat.len());
            let seg = match spec_find(rest, pat) {
                Some(j) => rest.take(j),
                None => rest,
            };
            let upto = match spec_find(seg, "]"@) {
                Some(e) => seg.take(e),
                None => seg,
            };
            spec_trim_char(
                spec_trim(spec_trim_end_char(spec_trim_start_char(upto, '('), ')')),
                '"',
            )
        },
        None => "unknown"@,
    }
}

/// Reads the declared type's name out of the item text, word by word.
pub fn extract_type_name(input: &str) -> (r: String)
    ensures
        r@ == derive_impl::spec_extract_type_name(input@),
{
    derive_impl::extract_type_name(input)
}

/// The emitted impl: the type's name, its category (a placeholder when
/// the annotation is absent), and whether the annotation was present.
pub open spec fn spec_impl_with_attributes(s: Seq<char>) -> Seq<char> {
    let t = derive_impl::spec_extract_type_name(s);
    let cat = spec_category(s);
    let has = if spec_has_category(s) {
        "true"@
    } else {
        "false"@
    };
    "\n        // Generated code for "@ + t + " with node_category attributes\n        impl NodeType for "@
        + t + " {\n            fn node_category() -> &'static str {\n                \""@ + cat
        + "\"\n            }\n            \n            fn has_category() -> bool {\n                "@
        + has + "\n            }\n        }\n        "@
}

/// Emits the `NodeType` impl for the decorated item, reading its
/// `node_category` annotation when one is present.
pub fn impl_with_attributes(input: &str) -> (r: String)
    ensures
        r@ == spec_impl_with_attributes(input@),
{
    proof {
        reveal_strlit("#[node_category");
    }
    let t = derive_impl::extract_type_name(input);
    let n = input.unicode_len();
    let found = find_sub(input, "#[node_category");
    let cat: String = match found {
        Some(i) => {
            proof {
                lemma_find_from_some(input@, "#[node_category"@, 0, i as int);
            }
            let rest = input.substring_char(i + 15, n);
            let m = rest.unicode_len();
            let seg_end = match find_sub(rest, "#[node_category") {
                Some(j) => {
                    proof {
                        lemma_find_from_some(rest@, "#[node_category"@, 0, j as int);
                    }
                    j
                },
                None => m,
            };
            let seg = rest.substring_char(0, seg_end);
            let k = seg.unicode_len();
            let upto_end = match find_sub(seg, "]") {
                Some(e) => {
                    proof {
                        reveal_strlit("]");
                        lemma_find_from_some(seg@, "]"@, 0, e as int);
                    }
                    e
                },
                None => k,
            };
            let upto = seg.substring_char(0, upto_end);
            proof {
                assert(rest@ =~= input@.skip(i + 15));
                assert(seg@ =~= rest@.take(seg_end as int));
                if spec_find(rest@, "#[node_category"@) is None {
                    assert(seg@ =~= rest@);
                }
                assert(upto@ =~= seg@.take(upto_end as int));
                if spec_find(seg@, "]"@) is None {
                    assert(upto@ =~= seg@);
                }
            }
            let a = trim_start_matches_char(upto, '(');
            let b = trim_end_matches_char(a.as_str(), ')');
            let c = trim(b.as_str());
            trim_matches_char(c.as_str(), '"')
        },
        None => String::from_str("unknown"),
    };
    let has_attr = found.is_some();

    let mut out = String::from_str("\n        // Generated code for ");
    out.append(t.as_str());
    out.append(" with node_category attributes\n        impl NodeType for ");
    out.append(t.as_str());
    out.append(" {\n            fn node_category() -> &'static str {\n                \"");
    out.append(cat.as_str());
    out.append(
        "\"\n            }\n            \n            fn has_category() -> bool {\n                ",
    );
    if has_attr {
        out.append("true");
    } else {
        out.append("false");
    }
    out.append("\n            }\n        }\n        ");
    out
}

} // verus!
