//! A sample derive implementation: emits a `Display` impl that announces
//! the decorated type by name.

use vstd::prelude::*;
use crate::strutil::{spec_find, spec_trim, trim, find_sub, lemma_find_from_some};

verus! {

/// The type name read from a decorated item: the text between `struct`
/// and the first `{` or `;` (for an enum, between `enum` and the first
/// `{`), trimmed; a placeholder when neither keyword occurs.
pub open spec fn spec_extract_type_name(s: Seq<char>) -> Seq<char> {
    match spec_find(s, "struct"@) {
        Some(i) => {
            let rest = s.skip(i + 6);
            let end = match spec_find(rest, "{"@) {
                Some(e) => e,
                None => match spec_find(rest, ";"@) {
                    Some(e) => e,
                    None => rest.len() as int,
                },
            };
            spec_trim(rest.take(end))
        },
        None => match spec_find(s, "enum"@) {
            Some(i) => {
                let rest = s.skip(i + 4);
                let end = match spec_find(rest, "{"@) {
                    Some(e) => e,
                    None => rest.len() as int,
                };
                spec_trim(rest.take(end))
            },
            None => "UnknownType"@,
        },
    }
}

/// Reads the declared type's name out of the item text.
pub fn extract_type_name(input: &str) -> (r: String)
    ensures
        r@ == spec_extract_type_name(input@),
{
    proof {
        reveal_strlit("struct");
        reveal_strlit("enum");
    }
    let n = input.unicode_len();
    match find_sub(input, "struct") {
        Some(i) => {
            proof {
                lemma_find_from_some(input@, "struct"@, 0, i as int);
            }
            let rest = input.substring_char(i + 6, n);
            let m = rest.unicode_len();
            let end = match find_sub(rest, "{") {
                Some(e) => e,
                None => match find_sub(rest, ";") {
                    Some(e) => e,
                    None => m,
                },
            };
            proof {
                if spec_find(rest@, "{"@) is Some {
                    lemma_find_from_some(rest@, "{"@, 0, end as int);
                    reveal_strlit("{");
                } else if spec_find(rest@, ";"@) is Some {
                    lemma_find_from_some(rest@, ";"@, 0, end as int);
                    reveal_strlit(";");
                }
                assert(end <= m);
            }
            let name = rest.substring_char(0, end);
            proof {
                assert(rest@ =~= input@.skip(i + 6));
                assert(name@ =~= input@.skip(i + 6).take(end as int));
            }
            trim(name)
        },
        None => {
            match find_sub(input, "enum") {
                Some(i) => {
                    proof {
                        lemma_find_from_some(input@, "enum"@, 0, i as int);
                    }
                    let rest = input.substring_char(i + 4, n);
                    let m = rest.unicode_len();
                    let end = match find_sub(rest, "{") {
                        Some(e) => e,
                        None => m,
                    };
                    proof {
                        if spec_find(rest@, "{"@) is Some {
                            lemma_find_from_some(rest@, "{"@, 0, end as int);
                            reveal_strlit("{");
                        }
                        assert(end <= m);
                    }
                    let name = rest.substring_char(0, end);
                    proof {
                        assert(rest@ =~= input@.skip(i + 4));
                        assert(name@ =~= input@.skip(i + 4).take(end as int));
                    }
                    trim(name)
                },
                None => String::from_str("UnknownType"),
            }
        },
    }
}

/// A `Display` impl announcing the named type.
pub open spec fn spec_generate_display_impl(s: Seq<char>) -> Seq<char> {
    let t = spec_extract_type_name(s);
    "\n            impl ::std::fmt::Display for "@ + t
        + " {\n                fn fmt(&self, f: &mut ::std::fmt::Formatter<'_>) -> ::std::fmt::Result {\n                    write!(f, \"This is a "@
        + t + "\")\n                }\n            }\n        "@
}

/// Emits the `Display` impl for the decorated item's type.
pub fn generate_display_impl(input: &str) -> (r: String)
    ensures
        r@ == spec_generate_display_impl(input@),
{
    let t = extract_type_name(input);
    let mut out = String::from_str("\n            impl ::std::fmt::Display for ");
    out.append(t.as_str());
    out.append(
        " {\n                fn fmt(&self, f: &mut ::std::fmt::Formatter<'_>) -> ::std::fmt::Result {\n                    write!(f, \"This is a ",
    );
    out.append(t.as_str());
    out.append("\")\n                }\n            }\n        ");
    out
}

} // verus!
