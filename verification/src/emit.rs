//! The code emitter.
//!
//! Each binding descriptor becomes one source fragment: an optional module
//! declaration, an optional private synthetic module holding the verbatim
//! contents of an anchored file, and exactly one exported entry function
//! whose body forwards its input payloads unchanged to the resolved symbol.
//!
//! Reading a file is the caller's job: the emitter is handed the contents
//! of each binding's anchored file (or `None` when it could not be located,
//! which is the one emission-time failure).

use vstd::prelude::*;
use crate::tokens::SpecToken;
use crate::errors::{CompileError, SpecCompileError, dv_result};
use crate::reference::{Anchor, SpecAnchor};
use crate::directive::{BindingDescriptor, SpecBinding, binding_wf, bindings_wf};
use crate::sequence::{spec_process, compile_directives, lemma_process_wf};

verus! {

/// Whether the binding's reference is anchored at a file.
pub open spec fn needs_file(a: SpecAnchor) -> bool {
    !(a is InScope)
}

/// The literal path carried by a file anchor.
pub open spec fn anchor_path(a: SpecAnchor) -> Seq<char> {
    match a {
        SpecAnchor::InScope => Seq::empty(),
        SpecAnchor::CurrentFileRelative(p) => p,
        SpecAnchor::ProjectRootRelative(p) => p,
    }
}

/// The private synthetic module that scopes an anchored file's contents.
/// Exposed names are unique within a list, so deriving the module name from
/// the exposed name keeps it from aliasing any other directive's module.
pub open spec fn synthetic_module(name: Seq<char>) -> Seq<char> {
    "__impl_"@ + name
}

/// `parts` joined by `sep`.
pub open spec fn spec_join(parts: Seq<Seq<char>>, sep: Seq<char>) -> Seq<char>
    decreases parts.len(),
{
    if parts.len() == 0 {
        Seq::empty()
    } else if parts.len() == 1 {
        parts[0]
    } else {
        parts[0] + sep + spec_join(parts.skip(1), sep)
    }
}

/// Appending one part extends the join by one separator and the part.
pub proof fn lemma_join_push(parts: Seq<Seq<char>>, x: Seq<char>, sep: Seq<char>)
    ensures
        spec_join(parts.push(x), sep) == if parts.len() == 0 {
            x
        } else {
            spec_join(parts, sep) + sep + x
        },
    decreases parts.len(),
{
    let whole = parts.push(x);
    if parts.len() == 0 {
        assert(whole.len() == 1);
        assert(whole[0] == x);
    } else {
        lemma_join_push(parts.skip(1), x, sep);
        assert(whole.skip(1) =~= parts.skip(1).push(x));
        if parts.len() == 1 {
            assert(spec_join(whole, sep) == whole[0] + sep + spec_join(whole.skip(1), sep));
            assert(spec_join(whole.skip(1), sep) == x);
            assert(spec_join(parts, sep) == parts[0]);
        } else {
            assert(spec_join(whole, sep) == whole[0] + sep + spec_join(whole.skip(1), sep));
            assert(spec_join(whole.skip(1), sep) == spec_join(parts.skip(1), sep) + sep + x);
            assert(whole[0] + sep + (spec_join(parts.skip(1), sep) + sep + x) =~= (parts[0] + sep
                + spec_join(parts.skip(1), sep)) + sep + x);
        }
    }
}

/// The module-declaration statement of a binding, possibly empty.
pub open spec fn spec_decl_part(b: SpecBinding) -> Seq<char> {
    if b.module_declaration_needed {
        "mod "@ + b.call_path[0] + ";\n"@
    } else {
        Seq::empty()
    }
}

/// The private synthetic module wrapping an anchored file's contents.
pub open spec fn spec_file_part(b: SpecBinding, text: Seq<char>) -> Seq<char> {
    "mod "@ + synthetic_module(b.exposed_name) + " {\n"@ + text + "\n}\n"@
}

/// The path through which the entry function calls the implementation.
pub open spec fn spec_call_target(b: SpecBinding) -> Seq<char> {
    if needs_file(b.anchor) {
        synthetic_module(b.exposed_name) + "::"@ + b.call_path.last()
    } else {
        spec_join(b.call_path, "::"@)
    }
}

/// The `, attributes(...)` clause of a derive entry, empty without helpers.
pub open spec fn spec_helpers_clause(hs: Seq<Seq<char>>) -> Seq<char> {
    if hs.len() == 0 {
        Seq::empty()
    } else {
        ", attributes("@ + spec_join(hs, ", "@) + ")"@
    }
}

/// The exported entry function of a binding. Each kind forwards its input
/// payloads unchanged, in order, to the call target.
pub open spec fn spec_entry_part(b: SpecBinding) -> Seq<char> {
    match b.kind {
        crate::directive::MacroKind::Function => "#[proc_macro]\npub fn "@ + b.exposed_name
            + "(input: proc_macro::TokenStream) -> proc_macro::TokenStream {\n    "@
            + spec_call_target(b) + "(input)\n}\n"@,
        crate::directive::MacroKind::Attribute => "#[proc_macro_attribute]\npub fn "@
            + b.exposed_name
            + "(attr: proc_macro::TokenStream, item: proc_macro::TokenStream) -> proc_macro::TokenStream {\n    "@
            + spec_call_target(b) + "(attr, item)\n}\n"@,
        crate::directive::MacroKind::Derive => "#[allow(non_snake_case)]\n#[proc_macro_derive("@
            + b.exposed_name + spec_helpers_clause(b.helper_attributes) + ")]\npub fn "@
            + b.exposed_name + "(input: proc_macro::TokenStream) -> proc_macro::TokenStream {\n    "@
            + spec_call_target(b) + "(input)\n}\n"@,
    }
}

/// One binding's whole fragment, or the one emission-time failure: a file
/// anchor whose file could not be located.
pub open spec fn spec_emit_binding(b: SpecBinding, text: Option<Seq<char>>) -> Result<
    Seq<char>,
    SpecCompileError,
> {
    if needs_file(b.anchor) {
        match text {
            None => Err(SpecCompileError::UnresolvedPath {
                path: anchor_path(b.anchor),
                anchor: b.anchor,
            }),
            Some(txt) => Ok(spec_file_part(b, txt) + spec_entry_part(b)),
        }
    } else {
        Ok(spec_decl_part(b) + spec_entry_part(b))
    }
}

/// The file contents supplied for binding `i`; absent entries count as
/// files that were not located.
pub open spec fn texts_at(texts: Seq<Option<Seq<char>>>, i: int) -> Option<Seq<char>> {
    if 0 <= i < texts.len() {
        texts[i]
    } else {
        None
    }
}

/// The fragments of the bindings from `i` on, concatenated in order.
pub open spec fn spec_emit_from(
    bs: Seq<SpecBinding>,
    texts: Seq<Option<Seq<char>>>,
    i: int,
) -> Result<Seq<char>, SpecCompileError>
    decreases bs.len() - i,
{
    if i < 0 || i >= bs.len() {
        Ok(Seq::empty())
    } else {
        match spec_emit_binding(bs[i], texts_at(texts, i)) {
            Err(e) => Err(e),
            Ok(first) => match spec_emit_from(bs, texts, i + 1) {
                Err(e) => Err(e),
                Ok(rest) => Ok(first + rest),
            },
        }
    }
}

/// The generated source of a whole binding list.
pub open spec fn spec_emit_list(bs: Seq<SpecBinding>, texts: Seq<Option<Seq<char>>>) -> Result<
    Seq<char>,
    SpecCompileError,
> {
    spec_emit_from(bs, texts, 0)
}

/// The whole compiler: compile the directive list, then emit every
/// fragment; the output is a function of the tokens and the file contents
/// alone.
pub open spec fn spec_generate(t: Seq<SpecToken>, texts: Seq<Option<Seq<char>>>) -> Result<
    Seq<char>,
    SpecCompileError,
> {
    match spec_process(t) {
        Err(e) => Err(e),
        Ok(bs) => spec_emit_list(bs, texts),
    }
}

/// Where a binding's anchored file lives: current-file-relative paths
/// resolve against the directory holding the directive, project-root
///-relative paths against the process-wide project root.
pub open spec fn spec_resolved_path(
    a: SpecAnchor,
    current_dir: Seq<char>,
    project_root: Seq<char>,
) -> Option<Seq<char>> {
    match a {
        SpecAnchor::InScope => None,
        SpecAnchor::CurrentFileRelative(p) => Some(current_dir + "/"@ + p),
        SpecAnchor::ProjectRootRelative(p) => Some(project_root + "/"@ + p),
    }
}

/// Joins the strings of `parts` with `sep` between each two.
pub fn join_strings(parts: &Vec<String>, sep: &str) -> (r: String)
    ensures
        r@ == spec_join(parts.deep_view(), sep@),
{
    let ghost ps = parts.deep_view();
    let mut out = String::new();
    let n = parts.len();
    let mut i: usize = 0;
    while i < n
        invariant
            0 <= i <= n,
            n == parts@.len(),
            ps == parts.deep_view(),
            out@ == spec_join(ps.take(i as int), sep@),
        decreases n - i,
    {
        if i > 0 {
            out.append(sep);
        }
        out.append(parts[i].as_str());
        proof {
            lemma_join_push(ps.take(i as int), ps[i as int], sep@);
            assert(ps.take(i + 1 as int) =~= ps.take(i as int).push(ps[i as int]));
        }
        i = i + 1;
    }
    proof {
        assert(ps.take(n as int) =~= ps);
    }
    out
}

/// The synthetic module name of one exposed name.
fn synthetic_module_name(name: &String) -> (r: String)
    ensures
        r@ == synthetic_module(name@),
{
    let mut out = String::from_str("__impl_");
    out.append(name.as_str());
    out
}

/// The call target of a binding's entry function.
fn call_target(b: &BindingDescriptor) -> (r: String)
    requires
        binding_wf(b.deep_view()),
    ensures
        r@ == spec_call_target(b.deep_view()),
{
    if !matches!(&b.anchor, Anchor::InScope) {
        let mut out = synthetic_module_name(&b.exposed_name);
        out.append("::");
        out.append(b.call_path[b.call_path.len() - 1].as_str());
        proof {
            assert(b.deep_view().call_path.last() == b.call_path@[b.call_path@.len() - 1]@);
        }
        out
    } else {
        join_strings(&b.call_path, "::")
    }
}

/// The exported entry function of a binding.
fn entry_part(b: &BindingDescriptor) -> (r: String)
    requires
        binding_wf(b.deep_view()),
    ensures
        r@ == spec_entry_part(b.deep_view()),
{
    let target = call_target(b);
    let mut out: String;
    match b.kind {
        crate::directive::MacroKind::Function => {
            out = String::from_str("#[proc_macro]\npub fn ");
            out.append(b.exposed_name.as_str());
            out.append("(input: proc_macro::TokenStream) -> proc_macro::TokenStream {\n    ");
            out.append(target.as_str());
            out.append("(input)\n}\n");
        },
        crate::directive::MacroKind::Attribute => {
            out = String::from_str("#[proc_macro_attribute]\npub fn ");
            out.append(b.exposed_name.as_str());
            out.append(
                "(attr: proc_macro::TokenStream, item: proc_macro::TokenStream) -> proc_macro::TokenStream {\n    ",
            );
            out.append(target.as_str());
            out.append("(attr, item)\n}\n");
        },
        crate::directive::MacroKind::Derive => {
            out = String::from_str("#[allow(non_snake_case)]\n#[proc_macro_derive(");
            out.append(b.exposed_name.as_str());
            if b.helper_attributes.len() > 0 {
                out.append(", attributes(");
                let joined = join_strings(&b.helper_attributes, ", ");
                out.append(joined.as_str());
                out.append(")");
                proof {
                    assert(out@ =~= "#[allow(non_snake_case)]\n#[proc_macro_derive("@
                        + b.deep_view().exposed_name + spec_helpers_clause(
                        b.deep_view().helper_attributes,
                    ));
                }
            } else {
                proof {
                    assert(spec_helpers_clause(b.deep_view().helper_attributes)
                        =~= Seq::<char>::empty());
                    assert(out@ =~= "#[allow(non_snake_case)]\n#[proc_macro_derive("@
                        + b.deep_view().exposed_name + spec_helpers_clause(
                        b.deep_view().helper_attributes,
                    ));
                }
            }
            out.append(")]\npub fn ");
            out.append(b.exposed_name.as_str());
            out.append("(input: proc_macro::TokenStream) -> proc_macro::TokenStream {\n    ");
            out.append(target.as_str());
            out.append("(input)\n}\n");
        },
    }
    out
}

/// Emits one binding's source fragment, given the contents of its anchored
/// file when it has one; a file anchor without contents is the unresolved
/// -path failure.
pub fn emit_binding(b: &BindingDescriptor, text: &Option<String>) -> (r: Result<
    String,
    CompileError,
>)
    requires
        binding_wf(b.deep_view()),
    ensures
        dv_result(r) == spec_emit_binding(b.deep_view(), text.deep_view()),
{
    if !matches!(&b.anchor, Anchor::InScope) {
        match text {
            None => {
                let path = match &b.anchor {
                    Anchor::CurrentFileRelative(p) => p.clone(),
                    Anchor::ProjectRootRelative(p) => p.clone(),
                    Anchor::InScope => String::new(),
                };
                Err(CompileError::UnresolvedPath { path, anchor: b.anchor.clone() })
            },
            Some(txt) => {
                let mut out = String::from_str("mod ");
                let smod = synthetic_module_name(&b.exposed_name);
                out.append(smod.as_str());
                out.append(" {\n");
                out.append(txt.as_str());
                out.append("\n}\n");
                let entry = entry_part(b);
                out.append(entry.as_str());
                Ok(out)
            },
        }
    } else {
        let mut out = String::new();
        if b.module_declaration_needed {
            out.append("mod ");
            out.append(b.call_path[0].as_str());
            out.append(";\n");
        } else {
            proof {
                assert(out@ =~= spec_decl_part(b.deep_view()));
            }
        }
        let entry = entry_part(b);
        out.append(entry.as_str());
        Ok(out)
    }
}

/// Emits the fragments of a whole binding list, in order, concatenated;
/// `texts[i]` holds the contents of binding `i`'s anchored file, if any.
pub fn emit_bindings(bs: &Vec<BindingDescriptor>, texts: &Vec<Option<String>>) -> (r: Result<
    String,
    CompileError,
>)
    requires
        bindings_wf(bs.deep_view()),
    ensures
        dv_result(r) == spec_emit_list(bs.deep_view(), texts.deep_view()),
{
    let ghost bsv = bs.deep_view();
    let ghost txv = texts.deep_view();
    let none_text: Option<String> = None;
    let mut out = String::new();
    let n = bs.len();
    let mut i: usize = 0;
    while i < n
        invariant
            0 <= i <= n,
            n == bs@.len(),
            bsv == bs.deep_view(),
            txv == texts.deep_view(),
            bindings_wf(bsv),
            none_text.deep_view() == None::<Seq<char>>,
            match spec_emit_from(bsv, txv, i as int) {
                Ok(rest) => spec_emit_list(bsv, txv) == Ok::<Seq<char>, SpecCompileError>(
                    out@ + rest,
                ),
                Err(e) => spec_emit_list(bsv, txv) == Err::<Seq<char>, SpecCompileError>(e),
            },
        decreases n - i,
    {
        let text: &Option<String> = if i < texts.len() {
            &texts[i]
        } else {
            &none_text
        };
        proof {
            assert(text.deep_view() == texts_at(txv, i as int));
            assert(binding_wf(bsv[i as int]));
        }
        match emit_binding(&bs[i], text) {
            Err(e) => {
                proof {
                    assert(spec_emit_from(bsv, txv, i as int) == Err::<Seq<char>, _>(
                        e.deep_view(),
                    ));
                }
                return Err(e);
            },
            Ok(first) => {
                let ghost prev_out = out@;
                out.append(first.as_str());
                proof {
                    match spec_emit_from(bsv, txv, i + 1 as int) {
                        Ok(rest2) => {
                            assert(spec_emit_from(bsv, txv, i as int) == Ok::<_, SpecCompileError>(
                                first@ + rest2,
                            ));
                            assert(prev_out + (first@ + rest2) =~= out@ + rest2);
                        },
                        Err(_) => {},
                    }
                }
            },
        }
        i = i + 1;
    }
    proof {
        assert(out@ + Seq::<char>::empty() =~= out@);
    }
    Ok(out)
}

/// The whole compiler in one call: compiles the directive list and emits
/// the generated source; `texts[i]` holds the contents of the `i`th
/// binding's anchored file, if it has one and it was located.
pub fn generate(toks: &Vec<crate::tokens::Token>, texts: &Vec<Option<String>>) -> (r: Result<
    String,
    CompileError,
>)
    ensures
        dv_result(r) == spec_generate(toks.deep_view(), texts.deep_view()),
{
    match compile_directives(toks) {
        Err(e) => Err(e),
        Ok(bs) => {
            proof {
                lemma_process_wf(toks.deep_view());
            }
            emit_bindings(&bs, texts)
        },
    }
}

/// Resolves a binding's anchor to the path of the file to read:
/// current-file-relative against the directory holding the directive list,
/// project-root-relative against the process-wide project root, and no
/// path at all for an in-scope reference.
pub fn resolved_path(anchor: &Anchor, current_dir: &String, project_root: &String) -> (r: Option<
    String,
>)
    ensures
        r.deep_view() == spec_resolved_path(anchor.deep_view(), current_dir@, project_root@),
{
    match anchor {
        Anchor::InScope => None,
        Anchor::CurrentFileRelative(p) => {
            let mut out = current_dir.clone();
            out.append("/");
            out.append(p.as_str());
            Some(out)
        },
        Anchor::ProjectRootRelative(p) => {
            let mut out = project_root.clone();
            out.append("/");
            out.append(p.as_str());
            Some(out)
        },
    }
}

} // verus!
