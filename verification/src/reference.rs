//! The reference resolver.
//!
//! The right-hand side of a directive (everything after its `->`) names the
//! implementation symbol. Six shapes are recognized, tried in a fixed order
//! from most specific to most general; the order is the visible `if` chain
//! of [`spec_resolve`], and the executable resolver is proved equal to it.
//!
//! 1. `use a::…::f` — the modules are already in scope.
//! 2. `mod a::…::f` — declare the first module explicitly.
//! 3. `@"path"::f` — a file anchored at the project root.
//! 4. `"path"::f` — a file anchored at the directive's own file.
//! 5. `a::…::f` — like `mod`, the default convenience form.
//! 6. `f` — a bare symbol already reachable in the generated scope.

use vstd::prelude::*;
use crate::tokens::{SpecToken, Token, clone_token_range};
use crate::errors::{CompileError, SpecCompileError, dv_result};
use crate::seqs::{dv_seq, lemma_vec_dv, lemma_dv_insert, lemma_dv_drop_last};

verus! {

/// How a file-path reference is resolved.
#[derive(Debug, PartialEq, Eq)]
pub enum Anchor {
    /// No file path: the symbol is already reachable.
    InScope,
    /// A literal path resolved relative to the directive's own source file.
    CurrentFileRelative(String),
    /// A literal path resolved relative to the process-wide project root.
    ProjectRootRelative(String),
}

/// The mathematical model of an [`Anchor`].
pub enum SpecAnchor {
    InScope,
    CurrentFileRelative(Seq<char>),
    ProjectRootRelative(Seq<char>),
}

impl DeepView for Anchor {
    type V = SpecAnchor;

    open spec fn deep_view(&self) -> SpecAnchor {
        match self {
            Anchor::InScope => SpecAnchor::InScope,
            Anchor::CurrentFileRelative(p) => SpecAnchor::CurrentFileRelative(p@),
            Anchor::ProjectRootRelative(p) => SpecAnchor::ProjectRootRelative(p@),
        }
    }
}

impl Clone for Anchor {
    fn clone(&self) -> (r: Self)
        ensures
            r.deep_view() == self.deep_view(),
    {
        match self {
            Anchor::InScope => Anchor::InScope,
            Anchor::CurrentFileRelative(p) => Anchor::CurrentFileRelative(p.clone()),
            Anchor::ProjectRootRelative(p) => Anchor::ProjectRootRelative(p.clone()),
        }
    }
}

/// Whether and how the referenced module must be introduced before use.
#[derive(Clone, Copy, Debug, PartialEq, Eq, Structural)]
pub enum DeclMode {
    /// The caller guarantees the module is already in scope.
    AlreadyDeclared,
    /// Emit an explicit module declaration for the first path segment.
    DeclareHere,
    /// Neither keyword was written; declares the module like `DeclareHere`.
    ImplicitDeclare,
}

/// A normalized description of where the implementation symbol lives.
#[derive(Debug, PartialEq, Eq)]
pub struct Reference {
    /// Module names on the way to the symbol; empty for a bare symbol or a
    /// file-anchored reference.
    pub path_segments: Vec<String>,
    /// The identifier of the callable itself.
    pub leaf_symbol: String,
    /// How a literal file path, if any, is resolved.
    pub anchor: Anchor,
    /// Whether the emitter must declare the first path segment.
    pub decl_mode: DeclMode,
}

/// The mathematical model of a [`Reference`].
pub struct SpecReference {
    pub path_segments: Seq<Seq<char>>,
    pub leaf_symbol: Seq<char>,
    pub anchor: SpecAnchor,
    pub decl_mode: DeclMode,
}

impl DeepView for Reference {
    type V = SpecReference;

    open spec fn deep_view(&self) -> SpecReference {
        SpecReference {
            path_segments: self.path_segments.deep_view(),
            leaf_symbol: self.leaf_symbol@,
            anchor: self.anchor.deep_view(),
            decl_mode: self.decl_mode,
        }
    }
}

/// `ident (:: ident)*`: identifiers at even positions, `::` at odd ones.
pub open spec fn is_path_shape(t: Seq<SpecToken>) -> bool
    decreases t.len(),
{
    if t.len() == 1 {
        t[0] is Ident
    } else if t.len() >= 3 {
        t[0] is Ident && t[1] is PathSep && is_path_shape(t.skip(2))
    } else {
        false
    }
}

/// The identifiers of a `::`-separated path, in order.
pub open spec fn path_idents(t: Seq<SpecToken>) -> Seq<Seq<char>>
    decreases t.len(),
{
    if t.len() <= 2 {
        if t.len() >= 1 && t[0] is Ident {
            seq![t[0]->Ident_0]
        } else {
            Seq::empty()
        }
    } else {
        seq![t[0]->Ident_0] + path_idents(t.skip(2))
    }
}

/// A path always has at least one ident, and exactly one only when the
/// path is a single token.
pub proof fn lemma_path_idents_len(t: Seq<SpecToken>)
    requires
        is_path_shape(t),
    ensures
        path_idents(t).len() >= 1,
        path_idents(t).len() == 1 ==> t.len() == 1,
    decreases t.len(),
{
    if t.len() >= 3 {
        lemma_path_idents_len(t.skip(2));
    }
}

/// Shapes 1 and 2: a leading keyword, then a path of at least two idents.
pub open spec fn is_keyword_path_shape(t: Seq<SpecToken>, kw: Seq<char>) -> bool {
    &&& t.len() >= 4
    &&& t[0] == SpecToken::Ident(kw)
    &&& is_path_shape(t.skip(1))
    &&& path_idents(t.skip(1)).len() >= 2
}

/// Shape 3: `@ "path" :: leaf`.
pub open spec fn is_root_file_shape(t: Seq<SpecToken>) -> bool {
    t.len() == 4 && t[0] is At && t[1] is LitStr && t[2] is PathSep && t[3] is Ident
}

/// Shape 4: `"path" :: leaf`.
pub open spec fn is_file_shape(t: Seq<SpecToken>) -> bool {
    t.len() == 3 && t[0] is LitStr && t[1] is PathSep && t[2] is Ident
}

/// Shape 5: a plain path of at least two idents, no keyword.
pub open spec fn is_implicit_shape(t: Seq<SpecToken>) -> bool {
    is_path_shape(t) && path_idents(t).len() >= 2
}

/// Shape 6: one bare identifier.
pub open spec fn is_bare_shape(t: Seq<SpecToken>) -> bool {
    t.len() == 1 && t[0] is Ident
}

/// An in-scope reference built from the idents of a path: all but the last
/// are module segments, the last is the leaf symbol.
pub open spec fn in_scope_reference(ids: Seq<Seq<char>>, mode: DeclMode) -> SpecReference {
    SpecReference {
        path_segments: ids.drop_last(),
        leaf_symbol: ids.last(),
        anchor: SpecAnchor::InScope,
        decl_mode: mode,
    }
}

/// A file-anchored reference: no path segments; the included file is scoped
/// by a private synthetic module at emission time, so the declaration mode
/// is `AlreadyDeclared` and no module declaration is emitted.
pub open spec fn anchored_reference(leaf: Seq<char>, anchor: SpecAnchor) -> SpecReference {
    SpecReference {
        path_segments: Seq::empty(),
        leaf_symbol: leaf,
        anchor: anchor,
        decl_mode: DeclMode::AlreadyDeclared,
    }
}

/// Resolves the token sequence after a directive's `->` into a reference.
/// The `if` chain is the precedence order of the grammar: the first matching
/// shape wins.
pub open spec fn spec_resolve(t: Seq<SpecToken>) -> Result<SpecReference, SpecCompileError> {
    if is_keyword_path_shape(t, "use"@) {
        Ok(in_scope_reference(path_idents(t.skip(1)), DeclMode::AlreadyDeclared))
    } else if is_keyword_path_shape(t, "mod"@) {
        Ok(in_scope_reference(path_idents(t.skip(1)), DeclMode::DeclareHere))
    } else if is_root_file_shape(t) {
        Ok(anchored_reference(t[3]->Ident_0, SpecAnchor::ProjectRootRelative(t[1]->LitStr_0)))
    } else if is_file_shape(t) {
        Ok(anchored_reference(t[2]->Ident_0, SpecAnchor::CurrentFileRelative(t[0]->LitStr_0)))
    } else if is_implicit_shape(t) {
        Ok(in_scope_reference(path_idents(t), DeclMode::ImplicitDeclare))
    } else if is_bare_shape(t) {
        Ok(anchored_reference(t[0]->Ident_0, SpecAnchor::InScope))
    } else {
        Err(SpecCompileError::Grammar { fragment: t })
    }
}

/// True exactly when `s` equals the string literal `kw`.
pub fn is_kw(s: &String, kw: &str) -> (b: bool)
    ensures
        b == (s@ == kw@),
{
    let k = String::from_str(kw);
    *s == k
}

/// Parses `ident (:: ident)*` starting at `start`; `None` when the tokens
/// from `start` on are not such a path.
fn parse_path_from(toks: &Vec<Token>, start: usize) -> (r: Option<Vec<String>>)
    requires
        start <= toks@.len(),
    ensures
        match r {
            Some(v) => {
                &&& is_path_shape(toks.deep_view().skip(start as int))
                &&& v.deep_view() == path_idents(toks.deep_view().skip(start as int))
            },
            None => !is_path_shape(toks.deep_view().skip(start as int)),
        },
    decreases toks@.len() - start,
{
    let ghost t = toks.deep_view().skip(start as int);
    let n = toks.len();
    proof {
        assert(t.len() == n - start);
    }
    if start == n {
        return None;
    }
    match &toks[start] {
        Token::Ident(s) => {
            if start + 1 == n {
                let mut v: Vec<String> = Vec::new();
                v.push(s.clone());
                proof {
                    assert(t.len() == 1);
                    assert(v.deep_view() =~= path_idents(t));
                }
                Some(v)
            } else if n - start >= 3 {
                let sep = matches!(&toks[start + 1], Token::PathSep);
                if !sep {
                    proof {
                        assert(!(t[1] is PathSep));
                    }
                    return None;
                }
                match parse_path_from(toks, start + 2) {
                    Some(v) => {
                        let ghost prev = v@;
                        let ghost dvprev = v.deep_view();
                        let mut v = v;
                        v.insert(0, s.clone());
                        proof {
                            let rest = toks.deep_view().skip(start + 2 as int);
                            assert(t.skip(2) =~= rest);
                            assert(dvprev == path_idents(rest));
                            assert(dvprev =~= dv_seq(prev));
                            lemma_dv_insert(prev, 0, v@[0]);
                            lemma_vec_dv(v);
                            assert(v.deep_view() =~= dv_seq(prev).insert(0, s@));
                            assert(v.deep_view() =~= seq![s@] + path_idents(rest));
                            assert(v.deep_view() =~= path_idents(t));
                        }
                        Some(v)
                    },
                    None => {
                        proof {
                            assert(t.skip(2) =~= toks.deep_view().skip(start + 2 as int));
                        }
                        None
                    },
                }
            } else {
                // exactly two tokens remain: not a path
                None
            }
        },
        _ => {
            None
        },
    }
}

/// Resolves the tokens after a directive's `->` into a [`Reference`],
/// trying the six grammar shapes most-specific-first.
pub fn resolve_reference(toks: &Vec<Token>) -> (r: Result<Reference, CompileError>)
    ensures
        dv_result(r) == spec_resolve(toks.deep_view()),
{
    proof {
        reveal_strlit("use");
        reveal_strlit("mod");
    }
    let ghost t = toks.deep_view();
    let n = toks.len();

    // shapes 1 and 2: `use`/`mod` keyword, then a path of two or more idents
    if n >= 1 {
        let kw_use: bool;
        let kw_mod: bool;
        match &toks[0] {
            Token::Ident(s) => {
                kw_use = is_kw(s, "use");
                kw_mod = is_kw(s, "mod");
            },
            _ => {
                kw_use = false;
                kw_mod = false;
            },
        }
        if kw_use || kw_mod {
            match parse_path_from(toks, 1) {
                Some(ids) => {
                    if ids.len() >= 2 {
                        let mode = if kw_use {
                            DeclMode::AlreadyDeclared
                        } else {
                            DeclMode::DeclareHere
                        };
                        proof {
                            lemma_vec_dv(ids);
                        }
                        return Ok(build_in_scope(ids, mode));
                    }
                    proof {
                        lemma_vec_dv(ids);
                        assert(path_idents(t.skip(1)).len() < 2);
                    }
                },
                None => {},
            }
        }
        proof {
            assert(!is_keyword_path_shape(t, "use"@) && !is_keyword_path_shape(t, "mod"@));
        }
    }

    // shape 3: `@ "path" :: leaf`
    if n == 4 {
        match (&toks[0], &toks[1], &toks[2], &toks[3]) {
            (Token::At, Token::LitStr(path), Token::PathSep, Token::Ident(leaf)) => {
                let r = Reference {
                    path_segments: Vec::new(),
                    leaf_symbol: leaf.clone(),
                    anchor: Anchor::ProjectRootRelative(path.clone()),
                    decl_mode: DeclMode::AlreadyDeclared,
                };
                proof {
                    assert(r.deep_view().path_segments =~= Seq::<Seq<char>>::empty());
                    assert(r.deep_view() == anchored_reference(
                        t[3]->Ident_0,
                        SpecAnchor::ProjectRootRelative(t[1]->LitStr_0),
                    ));
                }
                return Ok(r);
            },
            _ => {},
        }
    }

    // shape 4: `"path" :: leaf`
    if n == 3 {
        match (&toks[0], &toks[1], &toks[2]) {
            (Token::LitStr(path), Token::PathSep, Token::Ident(leaf)) => {
                let r = Reference {
                    path_segments: Vec::new(),
                    leaf_symbol: leaf.clone(),
                    anchor: Anchor::CurrentFileRelative(path.clone()),
                    decl_mode: DeclMode::AlreadyDeclared,
                };
                proof {
                    assert(r.deep_view().path_segments =~= Seq::<Seq<char>>::empty());
                    assert(r.deep_view() == anchored_reference(
                        t[2]->Ident_0,
                        SpecAnchor::CurrentFileRelative(t[0]->LitStr_0),
                    ));
                }
                return Ok(r);
            },
            _ => {},
        }
    }

    // shape 5 (two or more idents) and shape 6 (a single bare ident)
    match parse_path_from(toks, 0) {
        Some(ids) => {
            proof {
                assert(t.skip(0) =~= t);
                lemma_vec_dv(ids);
            }
            if ids.len() >= 2 {
                return Ok(build_in_scope(ids, DeclMode::ImplicitDeclare));
            }
            proof {
                lemma_path_idents_len(t);
                assert(t.len() == 1);
            }
            let r = build_in_scope(ids, DeclMode::AlreadyDeclared);
            proof {
                assert(r.deep_view().path_segments =~= Seq::<Seq<char>>::empty());
                assert(r.deep_view() == anchored_reference(t[0]->Ident_0, SpecAnchor::InScope));
            }
            return Ok(r);
        },
        None => {
            proof {
                assert(t.skip(0) =~= t);
            }
        },
    }

    Err(CompileError::Grammar { fragment: clone_token_range(toks, 0, n) })
}

/// Splits the idents of a resolved path into module segments and leaf.
fn build_in_scope(ids: Vec<String>, mode: DeclMode) -> (r: Reference)
    requires
        ids@.len() >= 1,
    ensures
        r.deep_view() == in_scope_reference(ids.deep_view(), mode),
{
    let ghost vs = ids@;
    let ghost all = ids.deep_view();
    proof {
        lemma_vec_dv(ids);
        assert(all =~= dv_seq(vs));
    }
    let mut segments = ids;
    let leaf = segments.pop().unwrap();
    proof {
        lemma_vec_dv(segments);
        lemma_dv_drop_last(vs);
        assert(segments.deep_view() =~= all.drop_last());
        assert(leaf@ == all.last());
    }
    Reference {
        path_segments: segments,
        leaf_symbol: leaf,
        anchor: Anchor::InScope,
        decl_mode: mode,
    }
}

} // verus!
