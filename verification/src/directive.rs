//! The directive compiler.
//!
//! A directive is `head -> reference`. The head names the macro kind and,
//! optionally, the exposed name and (for derive entries) helper attributes:
//!
//! - `function` / `attribute` — default the exposed name to the leaf symbol,
//! - `function(name)` / `attribute(name)` — expose under `name`,
//! - `derive(Name)` — derive entries must name themselves,
//! - `derive(Name, attributes(a, b, …))` — also register helper attributes.
//!
//! Compiling a directive combines the head with the resolved reference into
//! an emission-ready [`BindingDescriptor`].

use vstd::prelude::*;
use crate::tokens::{SpecToken, Token, clone_token_range};
use crate::errors::{CompileError, SpecCompileError, dv_result};
use crate::reference::{
    Anchor, SpecAnchor, DeclMode, Reference, SpecReference, spec_resolve, resolve_reference,
    is_kw,
};
use crate::seqs::{dv_seq, lemma_vec_dv, lemma_dv_insert, lemma_dv_push};

verus! {

/// The three kinds of macro entry points.
#[derive(Clone, Copy, Debug, PartialEq, Eq, Structural)]
pub enum MacroKind {
    /// A function-like macro: one input payload.
    Function,
    /// An attribute macro: the attribute's arguments and the decorated item.
    Attribute,
    /// A derive macro: the decorated item, plus helper attributes.
    Derive,
}

/// The parsed head of a directive, before the `->`.
#[derive(Debug)]
pub struct Head {
    pub kind: MacroKind,
    /// The explicit `(name)`, when one was written.
    pub custom_name: Option<String>,
    /// The identifiers of an `attributes(...)` clause; derive heads only.
    pub helpers: Vec<String>,
}

/// The mathematical model of a [`Head`].
pub struct SpecHead {
    pub kind: MacroKind,
    pub custom_name: Option<Seq<char>>,
    pub helpers: Seq<Seq<char>>,
}

impl DeepView for Head {
    type V = SpecHead;

    open spec fn deep_view(&self) -> SpecHead {
        SpecHead {
            kind: self.kind,
            custom_name: self.custom_name.deep_view(),
            helpers: self.helpers.deep_view(),
        }
    }
}

/// An emission-ready unit: one macro entry point wired to one symbol.
#[derive(Debug, PartialEq, Eq)]
pub struct BindingDescriptor {
    /// The name under which the entry point is exported.
    pub exposed_name: String,
    pub kind: MacroKind,
    /// Helper attribute names registered alongside a derive entry.
    pub helper_attributes: Vec<String>,
    /// Whether the emitter must declare the first call-path segment as a
    /// module.
    pub module_declaration_needed: bool,
    /// Module segments followed by the leaf symbol.
    pub call_path: Vec<String>,
    pub anchor: Anchor,
}

/// The mathematical model of a [`BindingDescriptor`].
pub struct SpecBinding {
    pub exposed_name: Seq<char>,
    pub kind: MacroKind,
    pub helper_attributes: Seq<Seq<char>>,
    pub module_declaration_needed: bool,
    pub call_path: Seq<Seq<char>>,
    pub anchor: SpecAnchor,
}

impl DeepView for BindingDescriptor {
    type V = SpecBinding;

    open spec fn deep_view(&self) -> SpecBinding {
        SpecBinding {
            exposed_name: self.exposed_name@,
            kind: self.kind,
            helper_attributes: self.helper_attributes.deep_view(),
            module_declaration_needed: self.module_declaration_needed,
            call_path: self.call_path.deep_view(),
            anchor: self.anchor.deep_view(),
        }
    }
}

/// `ident (, ident)*`: identifiers at even positions, commas at odd ones.
pub open spec fn is_ident_list(t: Seq<SpecToken>) -> bool
    decreases t.len(),
{
    if t.len() == 1 {
        t[0] is Ident
    } else if t.len() >= 3 {
        t[0] is Ident && t[1] is Comma && is_ident_list(t.skip(2))
    } else {
        false
    }
}

/// The identifiers of a comma-separated list, in order.
pub open spec fn list_idents(t: Seq<SpecToken>) -> Seq<Seq<char>>
    decreases t.len(),
{
    if t.len() <= 2 {
        if t.len() >= 1 && t[0] is Ident {
            seq![t[0]->Ident_0]
        } else {
            Seq::empty()
        }
    } else {
        seq![t[0]->Ident_0] + list_idents(t.skip(2))
    }
}

/// `function` / `attribute` / `derive` alone.
pub open spec fn is_plain_head(t: Seq<SpecToken>, kw: Seq<char>) -> bool {
    t.len() == 1 && t[0] == SpecToken::Ident(kw)
}

/// `function(name)` / `attribute(name)` / `derive(Name)`.
pub open spec fn is_named_head(t: Seq<SpecToken>, kw: Seq<char>) -> bool {
    &&& t.len() == 4
    &&& t[0] == SpecToken::Ident(kw)
    &&& t[1] is OpenParen
    &&& t[2] is Ident
    &&& t[3] is CloseParen
}

/// `derive(Name, attributes(a, b, …))` with at least one helper; an empty
/// `attributes()` clause matches no shape and is a grammar error.
pub open spec fn is_attrs_head(t: Seq<SpecToken>) -> bool {
    &&& t.len() >= 9
    &&& t[0] == SpecToken::Ident("derive"@)
    &&& t[1] is OpenParen
    &&& t[2] is Ident
    &&& t[3] is Comma
    &&& t[4] == SpecToken::Ident("attributes"@)
    &&& t[5] is OpenParen
    &&& t[t.len() - 2] is CloseParen
    &&& t[t.len() - 1] is CloseParen
    &&& is_ident_list(t.subrange(6, t.len() - 2))
}

pub open spec fn plain_spec_head(kind: MacroKind) -> SpecHead {
    SpecHead { kind: kind, custom_name: None, helpers: Seq::empty() }
}

pub open spec fn named_spec_head(kind: MacroKind, name: Seq<char>) -> SpecHead {
    SpecHead { kind: kind, custom_name: Some(name), helpers: Seq::empty() }
}

/// Parses the head of a directive; the `if` chain is the precedence order.
pub open spec fn spec_parse_head(t: Seq<SpecToken>) -> Result<SpecHead, SpecCompileError> {
    if is_plain_head(t, "function"@) {
        Ok(plain_spec_head(MacroKind::Function))
    } else if is_named_head(t, "function"@) {
        Ok(named_spec_head(MacroKind::Function, t[2]->Ident_0))
    } else if is_plain_head(t, "attribute"@) {
        Ok(plain_spec_head(MacroKind::Attribute))
    } else if is_named_head(t, "attribute"@) {
        Ok(named_spec_head(MacroKind::Attribute, t[2]->Ident_0))
    } else if is_plain_head(t, "derive"@) {
        // recognized, but kept nameless: compiling it reports the missing name
        Ok(plain_spec_head(MacroKind::Derive))
    } else if is_named_head(t, "derive"@) {
        Ok(named_spec_head(MacroKind::Derive, t[2]->Ident_0))
    } else if is_attrs_head(t) {
        Ok(SpecHead {
            kind: MacroKind::Derive,
            custom_name: Some(t[2]->Ident_0),
            helpers: list_idents(t.subrange(6, t.len() - 2)),
        })
    } else {
        Err(SpecCompileError::Grammar { fragment: t })
    }
}

/// Combines a parsed head and a resolved reference into a binding.
///
/// The naming rule: an explicit `(name)` is used verbatim; otherwise the
/// exposed name defaults to the reference's leaf symbol; a derive entry
/// without an explicit name is a missing-name error.
pub open spec fn spec_compile(
    frag: Seq<SpecToken>,
    h: SpecHead,
    r: SpecReference,
) -> Result<SpecBinding, SpecCompileError> {
    if h.kind is Derive && h.custom_name is None {
        Err(SpecCompileError::MissingName { fragment: frag })
    } else {
        Ok(SpecBinding {
            exposed_name: if h.custom_name is Some {
                h.custom_name->0
            } else {
                r.leaf_symbol
            },
            kind: h.kind,
            helper_attributes: h.helpers,
            module_declaration_needed: r.decl_mode != DeclMode::AlreadyDeclared
                && r.path_segments.len() > 0 && r.anchor is InScope,
            call_path: r.path_segments.push(r.leaf_symbol),
            anchor: r.anchor,
        })
    }
}

/// The position of the first `->` in a token sequence.
pub open spec fn find_arrow(t: Seq<SpecToken>) -> Option<int>
    decreases t.len(),
{
    if t.len() == 0 {
        None
    } else if t[0] is Arrow {
        Some(0)
    } else {
        match find_arrow(t.skip(1)) {
            None => None,
            Some(i) => Some(i + 1),
        }
    }
}

/// One full directive: the tokens before the first `->` are the head, the
/// tokens after it are the reference; a directive without `->` matches no
/// shape.
pub open spec fn spec_directive(t: Seq<SpecToken>) -> Result<SpecBinding, SpecCompileError> {
    match find_arrow(t) {
        None => Err(SpecCompileError::Grammar { fragment: t }),
        Some(i) => match spec_parse_head(t.take(i)) {
            Err(e) => Err(e),
            Ok(h) => match spec_resolve(t.skip(i + 1)) {
                Err(e) => Err(e),
                Ok(r) => spec_compile(t, h, r),
            },
        },
    }
}

/// The well-formedness of a binding descriptor, established by the
/// directive compiler: the call path always ends with the leaf symbol, and
/// starts with the module to declare when a declaration is needed.
pub open spec fn binding_wf(b: SpecBinding) -> bool {
    &&& b.call_path.len() >= 1
    &&& b.module_declaration_needed ==> b.call_path.len() >= 2
}

/// Well-formedness of a whole binding list.
pub open spec fn bindings_wf(bs: Seq<SpecBinding>) -> bool {
    forall|i: int| 0 <= i < bs.len() ==> #[trigger] binding_wf(bs[i])
}

/// Every binding a directive compiles to is well-formed.
pub proof fn lemma_binding_wf(t: Seq<SpecToken>)
    ensures
        spec_directive(t) is Ok ==> binding_wf(spec_directive(t)->Ok_0),
{
}

pub proof fn lemma_find_arrow_none(t: Seq<SpecToken>)
    requires
        forall|j: int| 0 <= j < t.len() ==> !(#[trigger] t[j] is Arrow),
    ensures
        find_arrow(t) == None::<int>,
    decreases t.len(),
{
    if t.len() > 0 {
        lemma_find_arrow_none(t.skip(1));
    }
}

pub proof fn lemma_find_arrow_at(t: Seq<SpecToken>, i: int)
    requires
        0 <= i < t.len(),
        t[i] is Arrow,
        forall|j: int| 0 <= j < i ==> !(#[trigger] t[j] is Arrow),
    ensures
        find_arrow(t) == Some(i),
    decreases t.len(),
{
    if i > 0 {
        lemma_find_arrow_at(t.skip(1), i - 1);
    }
}

/// Parses `ident (, ident)*` over the token range `[start, end)`.
fn parse_list_range(toks: &Vec<Token>, start: usize, end: usize) -> (r: Option<Vec<String>>)
    requires
        start <= end <= toks@.len(),
    ensures
        match r {
            Some(v) => {
                &&& is_ident_list(toks.deep_view().subrange(start as int, end as int))
                &&& v.deep_view() == list_idents(
                    toks.deep_view().subrange(start as int, end as int),
                )
            },
            None => !is_ident_list(toks.deep_view().subrange(start as int, end as int)),
        },
    decreases end - start,
{
    let ghost t = toks.deep_view().subrange(start as int, end as int);
    proof {
        assert(t.len() == end - start);
    }
    if start == end {
        return None;
    }
    match &toks[start] {
        Token::Ident(s) => {
            if start + 1 == end {
                let mut v: Vec<String> = Vec::new();
                v.push(s.clone());
                proof {
                    assert(t.len() == 1);
                    assert(v.deep_view() =~= list_idents(t));
                }
                Some(v)
            } else if end - start >= 3 {
                let sep = matches!(&toks[start + 1], Token::Comma);
                if !sep {
                    proof {
                        assert(!(t[1] is Comma));
                    }
                    return None;
                }
                match parse_list_range(toks, start + 2, end) {
                    Some(v) => {
                        let ghost prev = v@;
                        let ghost dvprev = v.deep_view();
                        let mut v = v;
                        v.insert(0, s.clone());
                        proof {
                            let rest = toks.deep_view().subrange(start + 2 as int, end as int);
                            assert(t.skip(2) =~= rest);
                            assert(dvprev == list_idents(rest));
                            assert(dvprev =~= dv_seq(prev));
                            lemma_dv_insert(prev, 0, v@[0]);
                            lemma_vec_dv(v);
                            assert(v.deep_view() =~= dv_seq(prev).insert(0, s@));
                            assert(v.deep_view() =~= seq![s@] + list_idents(rest));
                            assert(v.deep_view() =~= list_idents(t));
                        }
                        Some(v)
                    },
                    None => {
                        proof {
                            assert(t.skip(2) =~= toks.deep_view().subrange(
                                start + 2 as int,
                                end as int,
                            ));
                        }
                        None
                    },
                }
            } else {
                // exactly two tokens remain: not a list
                None
            }
        },
        _ => {
            None
        },
    }
}

/// Parses the head of a directive into a [`Head`], trying the shapes
/// most-specific-first.
pub fn parse_head(toks: &Vec<Token>) -> (r: Result<Head, CompileError>)
    ensures
        dv_result(r) == spec_parse_head(toks.deep_view()),
{
    proof {
        reveal_strlit("function");
        reveal_strlit("attribute");
        reveal_strlit("derive");
        reveal_strlit("attributes");
    }
    let ghost t = toks.deep_view();
    let n = toks.len();

    if n == 1 {
        match &toks[0] {
            Token::Ident(k) => {
                let head = if is_kw(k, "function") {
                    Some(MacroKind::Function)
                } else if is_kw(k, "attribute") {
                    Some(MacroKind::Attribute)
                } else if is_kw(k, "derive") {
                    Some(MacroKind::Derive)
                } else {
                    None
                };
                match head {
                    Some(kind) => {
                        let h = Head { kind, custom_name: None, helpers: Vec::new() };
                        proof {
                            assert(h.deep_view().helpers =~= Seq::<Seq<char>>::empty());
                            assert(h.deep_view() == plain_spec_head(kind));
                        }
                        return Ok(h);
                    },
                    None => {},
                }
            },
            _ => {},
        }
    }

    if n == 4 {
        match (&toks[0], &toks[1], &toks[2], &toks[3]) {
            (Token::Ident(k), Token::OpenParen, Token::Ident(name), Token::CloseParen) => {
                let head = if is_kw(k, "function") {
                    Some(MacroKind::Function)
                } else if is_kw(k, "attribute") {
                    Some(MacroKind::Attribute)
                } else if is_kw(k, "derive") {
                    Some(MacroKind::Derive)
                } else {
                    None
                };
                match head {
                    Some(kind) => {
                        let h = Head {
                            kind,
                            custom_name: Some(name.clone()),
                            helpers: Vec::new(),
                        };
                        proof {
                            assert(h.deep_view().helpers =~= Seq::<Seq<char>>::empty());
                            assert(h.deep_view() == named_spec_head(kind, t[2]->Ident_0));
                        }
                        return Ok(h);
                    },
                    None => {},
                }
            },
            _ => {},
        }
    }

    if n >= 9 {
        let shape = matches!(&toks[1], Token::OpenParen) && matches!(&toks[3], Token::Comma)
            && matches!(&toks[5], Token::OpenParen) && matches!(&toks[n - 2], Token::CloseParen)
            && matches!(&toks[n - 1], Token::CloseParen);
        let kw_derive = match &toks[0] {
            Token::Ident(k) => is_kw(k, "derive"),
            _ => false,
        };
        let kw_attrs = match &toks[4] {
            Token::Ident(k) => is_kw(k, "attributes"),
            _ => false,
        };
        if shape && kw_derive && kw_attrs {
            match &toks[2] {
                Token::Ident(name) => {
                    match parse_list_range(toks, 6, n - 2) {
                        Some(helpers) => {
                            let h = Head {
                                kind: MacroKind::Derive,
                                custom_name: Some(name.clone()),
                                helpers,
                            };
                            proof {
                                assert(is_attrs_head(t));
                                assert(h.deep_view() == SpecHead {
                                    kind: MacroKind::Derive,
                                    custom_name: Some(t[2]->Ident_0),
                                    helpers: list_idents(t.subrange(6, t.len() - 2)),
                                });
                            }
                            return Ok(h);
                        },
                        None => {},
                    }
                },
                _ => {},
            }
        }
    }

    let e = CompileError::Grammar { fragment: clone_token_range(toks, 0, n) };
    proof {
        assert(e.deep_view()->Grammar_fragment =~= t);
    }
    Err(e)
}

/// Combines a head and a resolved reference into a [`BindingDescriptor`];
/// `frag` is the directive's raw tokens, carried into error reports.
pub fn compile_directive(frag: &Vec<Token>, head: Head, reference: Reference) -> (r: Result<
    BindingDescriptor,
    CompileError,
>)
    ensures
        dv_result(r) == spec_compile(frag.deep_view(), head.deep_view(), reference.deep_view()),
{
    let ghost spec_h = head.deep_view();
    let ghost spec_r = reference.deep_view();
    let nameless = head.custom_name.is_none();
    if matches!(head.kind, MacroKind::Derive) && nameless {
        let e = CompileError::MissingName { fragment: clone_token_range(frag, 0, frag.len()) };
        proof {
            assert(spec_h.kind is Derive && spec_h.custom_name is None);
            assert(e.deep_view()->MissingName_fragment =~= frag.deep_view());
            assert(e.deep_view() == SpecCompileError::MissingName { fragment: frag.deep_view() });
        }
        return Err(e);
    }
    let module_declaration_needed = !matches!(reference.decl_mode, DeclMode::AlreadyDeclared)
        && reference.path_segments.len() > 0 && matches!(reference.anchor, Anchor::InScope);
    let exposed_name = match head.custom_name {
        Some(n) => n,
        None => reference.leaf_symbol.clone(),
    };
    let ghost segs = reference.path_segments@;
    let mut call_path = reference.path_segments;
    call_path.push(reference.leaf_symbol);
    proof {
        lemma_dv_push(segs, call_path@[call_path@.len() - 1]);
        lemma_vec_dv(call_path);
        assert(call_path.deep_view() =~= spec_r.path_segments.push(spec_r.leaf_symbol));
    }
    let b = BindingDescriptor {
        exposed_name,
        kind: head.kind,
        helper_attributes: head.helpers,
        module_declaration_needed,
        call_path,
        anchor: reference.anchor,
    };
    proof {
        assert(b.deep_view() == spec_compile(frag.deep_view(), spec_h, spec_r)->Ok_0);
    }
    Ok(b)
}

/// The position of the first `->` of a token list, if any.
fn find_arrow_index(toks: &Vec<Token>) -> (r: Option<usize>)
    ensures
        match r {
            Some(i) => i < toks@.len() && find_arrow(toks.deep_view()) == Some(i as int),
            None => find_arrow(toks.deep_view()) == None::<int>,
        },
{
    let ghost t = toks.deep_view();
    let n = toks.len();
    let mut i: usize = 0;
    while i < n
        invariant
            0 <= i <= n,
            n == t.len(),
            t == toks.deep_view(),
            forall|j: int| 0 <= j < i ==> !(#[trigger] t[j] is Arrow),
        decreases n - i,
    {
        if matches!(&toks[i], Token::Arrow) {
            proof {
                lemma_find_arrow_at(t, i as int);
            }
            return Some(i);
        }
        i = i + 1;
    }
    proof {
        lemma_find_arrow_none(t);
    }
    None
}

/// Compiles one full directive: splits it at its first `->`, parses the
/// head, resolves the reference, and combines the two.
pub fn compile_directive_tokens(unit: &Vec<Token>) -> (r: Result<BindingDescriptor, CompileError>)
    ensures
        dv_result(r) == spec_directive(unit.deep_view()),
{
    let ghost t = unit.deep_view();
    let n = unit.len();

    match find_arrow_index(unit) {
        None => {
            let e = CompileError::Grammar { fragment: clone_token_range(unit, 0, n) };
            proof {
                assert(e.deep_view()->Grammar_fragment =~= t);
            }
            Err(e)
        },
        Some(k) => {
            let head_toks = clone_token_range(unit, 0, k);
            let ref_toks = clone_token_range(unit, k + 1, n);
            proof {
                assert(head_toks.deep_view() =~= t.take(k as int));
                assert(ref_toks.deep_view() =~= t.skip(k + 1 as int));
            }
            let head = match parse_head(&head_toks) {
                Ok(h) => h,
                Err(e) => {
                    return Err(e);
                },
            };
            let reference = match resolve_reference(&ref_toks) {
                Ok(r) => r,
                Err(e) => {
                    return Err(e);
                },
            };
            compile_directive(unit, head, reference)
        },
    }
}

} // verus!
