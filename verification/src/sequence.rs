//! The sequence processor.
//!
//! A directive list is split at its top-level commas (commas nested inside
//! an `attributes(...)` clause do not terminate a directive; a trailing
//! comma is permitted and ignored). Each unit is compiled front to back,
//! order-preserving, while two running sets detect collisions: every exposed
//! name must be unique, and a module may be declared at most once.

use vstd::prelude::*;
use crate::tokens::{SpecToken, Token, clone_token_range};
use crate::errors::{CompileError, SpecCompileError, dv_result};
use crate::directive::{
    BindingDescriptor, SpecBinding, spec_directive, compile_directive_tokens, binding_wf,
    bindings_wf, lemma_binding_wf,
};
use crate::seqs::{dv_seq, lemma_vec_dv, lemma_dv_push, lemma_dv_insert};

verus! {

/// Paren nesting depth after one token.
pub open spec fn next_depth(d: int, tok: SpecToken) -> int {
    if tok is OpenParen {
        d + 1
    } else if tok is CloseParen {
        d - 1
    } else {
        d
    }
}

/// The position of the first comma at paren depth zero, scanning from `i`
/// with current depth `d`.
pub open spec fn find_top_comma_from(t: Seq<SpecToken>, i: int, d: int) -> Option<int>
    decreases t.len() - i,
{
    if i < 0 || i >= t.len() {
        None
    } else if t[i] is Comma && d == 0 {
        Some(i)
    } else {
        find_top_comma_from(t, i + 1, next_depth(d, t[i]))
    }
}

/// A top-level comma found from `i` lies in `[i, len)` and is a comma.
pub proof fn lemma_find_comma_some(t: Seq<SpecToken>, i: int, d: int, j: int)
    requires
        0 <= i,
        find_top_comma_from(t, i, d) == Some(j),
    ensures
        i <= j < t.len(),
        t[j] is Comma,
    decreases t.len() - i,
{
    if i < t.len() && !(t[i] is Comma && d == 0) {
        lemma_find_comma_some(t, i + 1, next_depth(d, t[i]), j);
    }
}

/// Scanning a suffix is scanning the whole with shifted indices.
pub proof fn lemma_find_comma_shift(t: Seq<SpecToken>, pos: int, i: int, d: int)
    requires
        0 <= pos <= t.len(),
        0 <= i,
    ensures
        find_top_comma_from(t.skip(pos), i, d) == match find_top_comma_from(t, pos + i, d) {
            Some(j) => Some(j - pos),
            None => None::<int>,
        },
    decreases t.len() - pos - i,
{
    let s = t.skip(pos);
    if pos + i >= t.len() {
        assert(i >= s.len());
    } else {
        assert(s[i] == t[pos + i]);
        if !(t[pos + i] is Comma && d == 0) {
            lemma_find_comma_shift(t, pos, i + 1, next_depth(d, t[pos + i]));
        }
    }
}

/// Splits a token list into directive units at its top-level commas. An
/// empty remainder after the last comma is dropped, which is what permits
/// one trailing comma.
pub open spec fn split_units(t: Seq<SpecToken>) -> Seq<Seq<SpecToken>>
    decreases t.len(),
{
    match find_top_comma_from(t, 0, 0) {
        None => if t.len() == 0 {
            Seq::empty()
        } else {
            seq![t]
        },
        Some(j) => if 0 <= j < t.len() {
            seq![t.take(j)] + split_units(t.skip(j + 1))
        } else {
            seq![t]
        },
    }
}

/// Processes a list of units in order, threading the two collision sets:
/// `names` holds every exposed name already taken, `mods` every module
/// already declared.
pub open spec fn spec_process_units(
    units: Seq<Seq<SpecToken>>,
    names: Seq<Seq<char>>,
    mods: Seq<Seq<char>>,
) -> Result<Seq<SpecBinding>, SpecCompileError>
    decreases units.len(),
{
    if units.len() == 0 {
        Ok(Seq::empty())
    } else {
        match spec_directive(units[0]) {
            Err(e) => Err(e),
            Ok(b) => {
                if names.contains(b.exposed_name) {
                    Err(SpecCompileError::NameCollision { name: b.exposed_name })
                } else if b.module_declaration_needed && mods.contains(b.call_path[0]) {
                    Err(SpecCompileError::ModuleCollision { name: b.call_path[0] })
                } else {
                    let mods2 = if b.module_declaration_needed {
                        mods.push(b.call_path[0])
                    } else {
                        mods
                    };
                    match spec_process_units(units.skip(1), names.push(b.exposed_name), mods2) {
                        Err(e) => Err(e),
                        Ok(rest) => Ok(seq![b] + rest),
                    }
                }
            },
        }
    }
}

/// The whole front end: split the list, compile every directive in order,
/// and fail eagerly on the first malformed directive or collision.
pub open spec fn spec_process(t: Seq<SpecToken>) -> Result<Seq<SpecBinding>, SpecCompileError> {
    spec_process_units(split_units(t), Seq::empty(), Seq::empty())
}

/// Every binding a unit list processes to is well-formed.
pub proof fn lemma_process_units_wf(
    units: Seq<Seq<SpecToken>>,
    names: Seq<Seq<char>>,
    mods: Seq<Seq<char>>,
)
    ensures
        spec_process_units(units, names, mods) is Ok ==> bindings_wf(
            spec_process_units(units, names, mods)->Ok_0,
        ),
    decreases units.len(),
{
    if units.len() > 0 {
        match spec_directive(units[0]) {
            Err(_) => {},
            Ok(b) => {
                lemma_binding_wf(units[0]);
                if !names.contains(b.exposed_name) && !(b.module_declaration_needed
                    && mods.contains(b.call_path[0])) {
                    let mods2 = if b.module_declaration_needed {
                        mods.push(b.call_path[0])
                    } else {
                        mods
                    };
                    lemma_process_units_wf(units.skip(1), names.push(b.exposed_name), mods2);
                    match spec_process_units(units.skip(1), names.push(b.exposed_name), mods2) {
                        Err(_) => {},
                        Ok(rest) => {
                            let whole = seq![b] + rest;
                            assert forall|i: int| 0 <= i < whole.len() implies #[trigger]
                                binding_wf(whole[i]) by {
                                if i > 0 {
                                    assert(whole[i] == rest[i - 1]);
                                }
                            }
                        },
                    }
                }
            },
        }
    }
}

/// Every binding a directive list compiles to is well-formed.
pub proof fn lemma_process_wf(t: Seq<SpecToken>)
    ensures
        spec_process(t) is Ok ==> bindings_wf(spec_process(t)->Ok_0),
{
    lemma_process_units_wf(split_units(t), Seq::empty(), Seq::empty());
}

/// The position of the first top-level comma at or after `start`.
fn find_top_comma(toks: &Vec<Token>, start: usize) -> (r: Option<usize>)
    requires
        start <= toks@.len(),
    ensures
        match r {
            Some(j) => start <= j < toks@.len() && find_top_comma_from(
                toks.deep_view(),
                start as int,
                0,
            ) == Some(j as int),
            None => find_top_comma_from(toks.deep_view(), start as int, 0) == None::<int>,
        },
{
    let ghost t = toks.deep_view();
    let n = toks.len();
    let mut i: usize = start;
    let mut depth: i128 = 0;
    while i < n
        invariant
            start <= i <= n,
            n == t.len(),
            t == toks.deep_view(),
            -(i as int) <= depth as int <= i as int,
            find_top_comma_from(t, start as int, 0) == find_top_comma_from(
                t,
                i as int,
                depth as int,
            ),
        decreases n - i,
    {
        let is_comma = matches!(&toks[i], Token::Comma);
        if is_comma && depth == 0 {
            return Some(i);
        }
        depth = match &toks[i] {
            Token::OpenParen => depth + 1,
            Token::CloseParen => depth - 1,
            _ => depth,
        };
        i = i + 1;
    }
    None
}

/// True exactly when `s` occurs in `v`.
fn contains_string(v: &Vec<String>, s: &String) -> (b: bool)
    ensures
        b == v.deep_view().contains(s@),
{
    let n = v.len();
    let mut i: usize = 0;
    while i < n
        invariant
            0 <= i <= n,
            n == v@.len(),
            forall|j: int| 0 <= j < i ==> v.deep_view()[j] != s@,
        decreases n - i,
    {
        if v[i] == *s {
            proof {
                assert(v.deep_view()[i as int] == s@);
            }
            return true;
        }
        i = i + 1;
    }
    proof {
        if v.deep_view().contains(s@) {
            let j = choose|j: int| 0 <= j < v.deep_view().len() && v.deep_view()[j] == s@;
            assert(v.deep_view()[j] != s@);
        }
    }
    false
}

/// Processes the directive units from `pos` on, with the collision sets
/// accumulated so far.
fn process_units(toks: &Vec<Token>, pos: usize, names: Vec<String>, mods: Vec<String>) -> (r:
    Result<Vec<BindingDescriptor>, CompileError>)
    requires
        pos <= toks@.len(),
    ensures
        dv_result(r) == spec_process_units(
            split_units(toks.deep_view().skip(pos as int)),
            names.deep_view(),
            mods.deep_view(),
        ),
    decreases toks@.len() - pos,
{
    let ghost t = toks.deep_view();
    let ghost rem = t.skip(pos as int);
    let ghost spec_names = names.deep_view();
    let ghost spec_mods = mods.deep_view();
    let n = toks.len();

    let comma = find_top_comma(toks, pos);
    proof {
        lemma_find_comma_shift(t, pos as int, 0, 0);
    }

    let (unit_end, next_pos): (usize, usize) = match comma {
        Some(j) => (j, j + 1),
        None => (n, n),
    };

    if matches!(comma, Option::None) && pos == n {
        proof {
            assert(rem.len() == 0);
            assert(split_units(rem) =~= Seq::<Seq<SpecToken>>::empty());
        }
        let out: Vec<BindingDescriptor> = Vec::new();
        proof {
            assert(out.deep_view() =~= Seq::<SpecBinding>::empty());
        }
        return Ok(out);
    }

    let ghost units = split_units(rem);
    let unit = clone_token_range(toks, pos, unit_end);
    proof {
        match comma {
            Some(j) => {
                assert(find_top_comma_from(rem, 0, 0) == Some(j - pos));
                assert(unit.deep_view() =~= rem.take(j - pos));
                assert(t.skip(next_pos as int) =~= rem.skip(j - pos + 1));
                assert(units == seq![rem.take(j - pos)] + split_units(rem.skip(j - pos + 1)));
            },
            None => {
                assert(find_top_comma_from(rem, 0, 0) == None::<int>);
                assert(rem.len() > 0);
                assert(unit.deep_view() =~= rem);
                assert(t.skip(next_pos as int) =~= Seq::<SpecToken>::empty());
                assert(units == seq![rem]);
                assert(split_units(t.skip(next_pos as int)) =~= Seq::<Seq<SpecToken>>::empty());
                assert(units =~= seq![rem] + split_units(t.skip(next_pos as int)));
            },
        }
        assert(units[0] == unit.deep_view());
        assert(units.skip(1) =~= split_units(t.skip(next_pos as int)));
    }

    let b = match compile_directive_tokens(&unit) {
        Ok(b) => b,
        Err(e) => {
            return Err(e);
        },
    };
    let ghost sb = b.deep_view();
    proof {
        crate::directive::lemma_binding_wf(unit.deep_view());
    }

    if contains_string(&names, &b.exposed_name) {
        return Err(CompileError::NameCollision { name: b.exposed_name });
    }
    if b.module_declaration_needed {
        if contains_string(&mods, &b.call_path[0]) {
            return Err(CompileError::ModuleCollision { name: b.call_path[0].clone() });
        }
    }

    let mut names = names;
    let mut mods = mods;
    let ghost names_prev = names@;
    names.push(b.exposed_name.clone());
    proof {
        lemma_dv_push(names_prev, names@[names@.len() - 1]);
        lemma_vec_dv(names);
        assert(names.deep_view() =~= spec_names.push(sb.exposed_name));
    }
    if b.module_declaration_needed {
        let ghost mods_prev = mods@;
        mods.push(b.call_path[0].clone());
        proof {
            lemma_dv_push(mods_prev, mods@[mods@.len() - 1]);
            lemma_vec_dv(mods);
            assert(mods.deep_view() =~= spec_mods.push(sb.call_path[0]));
        }
    }

    let rest = match process_units(toks, next_pos, names, mods) {
        Ok(rest) => rest,
        Err(e) => {
            return Err(e);
        },
    };
    let ghost rest_prev = rest@;
    let mut out = rest;
    out.insert(0, b);
    proof {
        lemma_dv_insert(rest_prev, 0, out@[0]);
        lemma_vec_dv(out);
        assert(out.deep_view() =~= seq![sb] + dv_seq(rest_prev));
    }
    Ok(out)
}

/// Compiles a whole directive list into its ordered binding descriptors,
/// or fails on the first malformed directive, name collision, or module
/// collision.
pub fn compile_directives(toks: &Vec<Token>) -> (r: Result<Vec<BindingDescriptor>, CompileError>)
    ensures
        dv_result(r) == spec_process(toks.deep_view()),
{
    let names: Vec<String> = Vec::new();
    let mods: Vec<String> = Vec::new();
    proof {
        assert(toks.deep_view().skip(0) =~= toks.deep_view());
        assert(names.deep_view() =~= Seq::<Seq<char>>::empty());
        assert(mods.deep_view() =~= Seq::<Seq<char>>::empty());
    }
    process_units(toks, 0, names, mods)
}

} // verus!
