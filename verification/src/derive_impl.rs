//! A sample derive implementation: emits a `Default` impl for the struct
//! named in the decorated item.

use vstd::prelude::*;
use crate::strutil::{spec_words, spec_trim_end_char, words, trim_end_matches_char};
use crate::reference::is_kw;

verus! {

/// The word following the first `kw` in a word list, when there is one.
pub open spec fn spec_word_after(ws: Seq<Seq<char>>, kw: Seq<char>) -> Option<Seq<char>>
    decreases ws.len(),
{
    if ws.len() == 0 {
        None
    } else if ws[0] == kw {
        if ws.len() >= 2 {
            Some(ws[1])
        } else {
            None
        }
    } else {
        spec_word_after(ws.skip(1), kw)
    }
}

/// The type name read from a decorated item: the word after `struct`, a
/// placeholder when there is none, trailing brace stripped.
pub open spec fn spec_extract_type_name(s: Seq<char>) -> Seq<char> {
    spec_trim_end_char(
        match spec_word_after(spec_words(s), "struct"@) {
            Some(w) => w,
            None => "UnknownStruct"@,
        },
        '{',
    )
}

/// Reads the declared type's name out of the item text, word by word.
pub fn extract_type_name(input: &str) -> (r: String)
    ensures
        r@ == spec_extract_type_name(input@),
{
    let ws = words(input);
    let ghost wsv = ws.deep_view();
    let n = ws.len();
    proof {
        assert(wsv.skip(0) =~= wsv);
    }
    let mut i: usize = 0;
    let mut name: Option<String> = None;
    while i < n
        invariant_except_break
            name is None,
            spec_word_after(wsv, "struct"@) == spec_word_after(wsv.skip(i as int), "struct"@),
        invariant
            0 <= i <= n,
            n == ws@.len(),
            wsv == ws.deep_view(),
        ensures
            0 <= i <= n,
            n == ws@.len(),
            wsv == ws.deep_view(),
            match name {
                Some(w) => spec_word_after(wsv, "struct"@) == Some(w@),
                None => spec_word_after(wsv, "struct"@) == None::<Seq<char>>,
            },
        decreases n - i,
    {
        if is_kw(&ws[i], "struct") {
            proof {
                assert(wsv.skip(i as int)[0] == "struct"@);
            }
            if i + 1 < n {
                name = Some(ws[i + 1].clone());
                proof {
                    assert(wsv.skip(i as int)[1] == wsv[i + 1]);
                }
            }
            break;
        }
        proof {
            assert(wsv.skip(i as int)[0] == wsv[i as int]);
            assert(wsv.skip(i as int).skip(1) =~= wsv.skip(i + 1 as int));
        }
        i = i + 1;
    }
    match name {
        Some(w) => trim_end_matches_char(w.as_str(), '{'),
        None => trim_end_matches_char("UnknownStruct", '{'),
    }
}

/// A `Default` impl for the named type, filling its one field with the
/// field type's own default.
pub open spec fn spec_impl_default(s: Seq<char>) -> Seq<char> {
    let t = spec_extract_type_name(s);
    "\n        impl ::std::default::Default for "@ + t
        + " {\n            fn default() -> Self {\n                "@ + t
        + " { \n                    field: ::std::default::Default::default()\n                }\n            }\n        }\n    "@
}

/// Emits the `Default` impl for the decorated item's type.
pub fn impl_default(input: &str) -> (r: String)
    ensures
        r@ == spec_impl_default(input@),
{
    let t = extract_type_name(input);
    let mut out = String::from_str("\n        impl ::std::default::Default for ");
    out.append(t.as_str());
    out.append(" {\n            fn default() -> Self {\n                ");
    out.append(t.as_str());
    out.append(
        " { \n                    field: ::std::default::Default::default()\n                }\n            }\n        }\n    ",
    );
    out
}

} // verus!
