//! The laws of the registration compiler, stated and proved over the
//! specification functions that the executable pipeline is proved equal to.

use vstd::prelude::*;
use crate::tokens::SpecToken;
use crate::errors::SpecCompileError;
use crate::reference::{SpecAnchor, SpecReference, spec_resolve};
use crate::directive::{SpecHead, SpecBinding, spec_compile, spec_directive};
use crate::sequence::{spec_process, spec_process_units, split_units};
use crate::emit::{spec_generate, spec_resolved_path, synthetic_module};
use crate::seqs::lemma_push_contains;

verus! {

/// Determinism: generation is a function of the directive tokens and the
/// supplied file contents alone, so any two runs over the same input
/// produce identical results, byte for byte.
pub proof fn lemma_generation_deterministic(
    t: Seq<SpecToken>,
    texts: Seq<Option<Seq<char>>>,
    r1: Result<Seq<char>, SpecCompileError>,
    r2: Result<Seq<char>, SpecCompileError>,
)
    requires
        r1 == spec_generate(t, texts),
        r2 == spec_generate(t, texts),
    ensures
        r1 == r2,
{
}

/// Idempotence of resolution: resolving one reference text twice yields
/// structurally equal references; the resolver keeps no hidden state.
pub proof fn lemma_resolution_idempotent(
    t: Seq<SpecToken>,
    r1: Result<SpecReference, SpecCompileError>,
    r2: Result<SpecReference, SpecCompileError>,
)
    requires
        r1 == spec_resolve(t),
        r2 == spec_resolve(t),
    ensures
        r1 == r2,
{
}

/// Default naming: a function or attribute head without an explicit
/// `(name)` exposes the reference's leaf symbol — the last path segment,
/// never an enclosing module's name.
pub proof fn lemma_default_naming(frag: Seq<SpecToken>, h: SpecHead, r: SpecReference)
    requires
        h.custom_name is None,
        !(h.kind is Derive),
    ensures
        spec_compile(frag, h, r) is Ok,
        spec_compile(frag, h, r)->Ok_0.exposed_name == r.leaf_symbol,
{
}

/// Mandatory naming, the failing half: a derive head without an explicit
/// name compiles to the missing-name error carrying the directive.
pub proof fn lemma_derive_name_mandatory(frag: Seq<SpecToken>, h: SpecHead, r: SpecReference)
    requires
        h.kind is Derive,
        h.custom_name is None,
    ensures
        spec_compile(frag, h, r) == Err::<SpecBinding, _>(SpecCompileError::MissingName {
            fragment: frag,
        }),
{
}

/// Mandatory naming, the succeeding half: an explicit name — on any head —
/// is used verbatim as the exposed name.
pub proof fn lemma_explicit_naming(frag: Seq<SpecToken>, h: SpecHead, r: SpecReference)
    requires
        h.custom_name is Some,
    ensures
        spec_compile(frag, h, r) is Ok,
        spec_compile(frag, h, r)->Ok_0.exposed_name == h.custom_name->0,
{
}

/// Helper-attribute registration: the identifiers a derive head declares
/// are carried into the binding verbatim, in order; the binding's payload
/// forwarding (one `input`, handed on unchanged) is pinned separately by
/// the emission specification.
pub proof fn lemma_helpers_recorded(frag: Seq<SpecToken>, h: SpecHead, r: SpecReference)
    requires
        spec_compile(frag, h, r) is Ok,
    ensures
        spec_compile(frag, h, r)->Ok_0.helper_attributes == h.helpers,
{
}

/// Anchor resolution, current-file half: a plain literal path resolves
/// against the directive's own directory, whatever the project root is.
pub proof fn lemma_current_file_anchor(
    p: Seq<char>,
    dir: Seq<char>,
    root_a: Seq<char>,
    root_b: Seq<char>,
)
    ensures
        spec_resolved_path(SpecAnchor::CurrentFileRelative(p), dir, root_a) == Some(
            dir + "/"@ + p,
        ),
        spec_resolved_path(SpecAnchor::CurrentFileRelative(p), dir, root_a) == spec_resolved_path(
            SpecAnchor::CurrentFileRelative(p),
            dir,
            root_b,
        ),
{
}

/// Anchor resolution, project-root half: an `@`-marked literal path
/// resolves against the project root, whatever directory the directive
/// itself lives in.
pub proof fn lemma_project_root_anchor(
    p: Seq<char>,
    dir_a: Seq<char>,
    dir_b: Seq<char>,
    root: Seq<char>,
)
    ensures
        spec_resolved_path(SpecAnchor::ProjectRootRelative(p), dir_a, root) == Some(
            root + "/"@ + p,
        ),
        spec_resolved_path(SpecAnchor::ProjectRootRelative(p), dir_a, root) == spec_resolved_path(
            SpecAnchor::ProjectRootRelative(p),
            dir_b,
            root,
        ),
{
}

/// The induction behind collision freedom: a successful pass yields
/// bindings whose exposed names are pairwise distinct and avoid `names`,
/// and whose declared modules are pairwise distinct and avoid `mods`.
proof fn lemma_units_no_collisions(
    units: Seq<Seq<SpecToken>>,
    names: Seq<Seq<char>>,
    mods: Seq<Seq<char>>,
)
    ensures
        spec_process_units(units, names, mods) is Ok ==> {
            let bs = spec_process_units(units, names, mods)->Ok_0;
            &&& forall|i: int, j: int|
                0 <= i < j < bs.len() ==> bs[i].exposed_name != bs[j].exposed_name
            &&& forall|i: int|
                0 <= i < bs.len() ==> !names.contains(#[trigger] bs[i].exposed_name)
            &&& forall|i: int, j: int|
                0 <= i < j < bs.len() && bs[i].module_declaration_needed
                    && bs[j].module_declaration_needed ==> bs[i].call_path[0] != bs[j].call_path[0]
            &&& forall|i: int|
                0 <= i < bs.len() && bs[i].module_declaration_needed ==> !mods.contains(
                    #[trigger] bs[i].call_path[0],
                )
        },
    decreases units.len(),
{
    if units.len() > 0 && spec_process_units(units, names, mods) is Ok {
        let b = spec_directive(units[0])->Ok_0;
        let names2 = names.push(b.exposed_name);
        let mods2 = if b.module_declaration_needed {
            mods.push(b.call_path[0])
        } else {
            mods
        };
        lemma_units_no_collisions(units.skip(1), names2, mods2);
        let rest = spec_process_units(units.skip(1), names2, mods2)->Ok_0;
        let bs = spec_process_units(units, names, mods)->Ok_0;
        assert(bs == seq![b] + rest);
        assert forall|i: int| 0 <= i < bs.len() implies !names.contains(
            #[trigger] bs[i].exposed_name,
        ) by {
            if i == 0 {
                assert(!names.contains(b.exposed_name));
            } else {
                assert(bs[i] == rest[i - 1]);
                assert(!names2.contains(rest[i - 1].exposed_name));
                lemma_push_contains(names, b.exposed_name, rest[i - 1].exposed_name);
            }
        }
        assert forall|i: int, j: int| 0 <= i < j < bs.len() implies bs[i].exposed_name
            != bs[j].exposed_name by {
            if i == 0 {
                assert(bs[j] == rest[j - 1]);
                assert(!names2.contains(rest[j - 1].exposed_name));
                lemma_push_contains(names, b.exposed_name, rest[j - 1].exposed_name);
            } else {
                assert(bs[i] == rest[i - 1] && bs[j] == rest[j - 1]);
            }
        }
        assert forall|i: int| 0 <= i < bs.len() && bs[i].module_declaration_needed implies
            !mods.contains(#[trigger] bs[i].call_path[0]) by {
            if i == 0 {
                assert(!mods.contains(b.call_path[0]));
            } else {
                assert(bs[i] == rest[i - 1]);
                assert(!mods2.contains(rest[i - 1].call_path[0]));
                if b.module_declaration_needed {
                    lemma_push_contains(mods, b.call_path[0], rest[i - 1].call_path[0]);
                }
            }
        }
        assert forall|i: int, j: int|
            0 <= i < j < bs.len() && bs[i].module_declaration_needed
                && bs[j].module_declaration_needed implies bs[i].call_path[0]
            != bs[j].call_path[0] by {
            if i == 0 {
                assert(bs[j] == rest[j - 1]);
                assert(!mods2.contains(rest[j - 1].call_path[0]));
                lemma_push_contains(mods, b.call_path[0], rest[j - 1].call_path[0]);
            } else {
                assert(bs[i] == rest[i - 1] && bs[j] == rest[j - 1]);
            }
        }
    }
}

/// Collision freedom: a directive list only compiles when its exposed
/// names are pairwise distinct and no module is declared twice; two
/// directives sharing an exposed name, or two declaring the same module,
/// therefore always fail.
pub proof fn lemma_no_collisions(t: Seq<SpecToken>)
    ensures
        spec_process(t) is Ok ==> {
            let bs = spec_process(t)->Ok_0;
            &&& forall|i: int, j: int|
                0 <= i < j < bs.len() ==> bs[i].exposed_name != bs[j].exposed_name
            &&& forall|i: int, j: int|
                0 <= i < j < bs.len() && bs[i].module_declaration_needed
                    && bs[j].module_declaration_needed ==> bs[i].call_path[0] != bs[j].call_path[0]
        },
{
    lemma_units_no_collisions(split_units(t), Seq::empty(), Seq::empty());
}

/// The induction behind completeness: units that all compile, with names
/// avoiding each other and `names`, and declared modules avoiding each
/// other and `mods`, always process successfully.
proof fn lemma_units_completeness(
    units: Seq<Seq<SpecToken>>,
    names: Seq<Seq<char>>,
    mods: Seq<Seq<char>>,
)
    requires
        forall|i: int| 0 <= i < units.len() ==> spec_directive(#[trigger] units[i]) is Ok,
        forall|i: int, j: int|
            0 <= i < j < units.len() ==> spec_directive(#[trigger] units[i])->Ok_0.exposed_name
                != spec_directive(#[trigger] units[j])->Ok_0.exposed_name,
        forall|i: int|
            0 <= i < units.len() ==> !names.contains(
                spec_directive(#[trigger] units[i])->Ok_0.exposed_name,
            ),
        forall|i: int, j: int|
            0 <= i < j < units.len() && spec_directive(#[trigger] units[i])
                ->Ok_0.module_declaration_needed && spec_directive(#[trigger] units[j])
                ->Ok_0.module_declaration_needed ==> spec_directive(units[i])->Ok_0.call_path[0]
                != spec_directive(units[j])->Ok_0.call_path[0],
        forall|i: int|
            0 <= i < units.len() && spec_directive(#[trigger] units[i])
                ->Ok_0.module_declaration_needed ==> !mods.contains(
                spec_directive(units[i])->Ok_0.call_path[0],
            ),
    ensures
        spec_process_units(units, names, mods) is Ok,
    decreases units.len(),
{
    if units.len() > 0 {
        let b = spec_directive(units[0])->Ok_0;
        assert(!names.contains(b.exposed_name));
        let names2 = names.push(b.exposed_name);
        let mods2 = if b.module_declaration_needed {
            mods.push(b.call_path[0])
        } else {
            mods
        };
        let rest = units.skip(1);
        assert forall|i: int| 0 <= i < rest.len() implies !names2.contains(
            spec_directive(#[trigger] rest[i])->Ok_0.exposed_name,
        ) by {
            assert(rest[i] == units[i + 1]);
            let n = spec_directive(units[i + 1])->Ok_0.exposed_name;
            lemma_push_contains(names, b.exposed_name, n);
        }
        assert forall|i: int|
            0 <= i < rest.len() && spec_directive(#[trigger] rest[i])
                ->Ok_0.module_declaration_needed implies !mods2.contains(
            spec_directive(rest[i])->Ok_0.call_path[0],
        ) by {
            assert(rest[i] == units[i + 1]);
            let n = spec_directive(units[i + 1])->Ok_0.call_path[0];
            if b.module_declaration_needed {
                lemma_push_contains(mods, b.call_path[0], n);
            }
        }
        assert forall|i: int, j: int| 0 <= i < j < rest.len() implies spec_directive(
            #[trigger] rest[i],
        )->Ok_0.exposed_name != spec_directive(#[trigger] rest[j])->Ok_0.exposed_name by {
            assert(rest[i] == units[i + 1] && rest[j] == units[j + 1]);
        }
        assert forall|i: int, j: int|
            0 <= i < j < rest.len() && spec_directive(#[trigger] rest[i])
                ->Ok_0.module_declaration_needed && spec_directive(#[trigger] rest[j])
                ->Ok_0.module_declaration_needed implies spec_directive(rest[i])->Ok_0.call_path[0]
            != spec_directive(rest[j])->Ok_0.call_path[0] by {
            assert(rest[i] == units[i + 1] && rest[j] == units[j + 1]);
        }
        assert forall|i: int| 0 <= i < rest.len() implies spec_directive(
            #[trigger] rest[i],
        ) is Ok by {
            assert(rest[i] == units[i + 1]);
        }
        lemma_units_completeness(rest, names2, mods2);
    }
}

/// When success is owed: a list whose directives each compile on their
/// own, whose exposed names are pairwise distinct, and whose declared
/// modules are pairwise distinct, always compiles as a whole.
pub proof fn lemma_distinct_names_compile(t: Seq<SpecToken>)
    requires
        forall|i: int|
            0 <= i < split_units(t).len() ==> spec_directive(#[trigger] split_units(t)[i]) is Ok,
        forall|i: int, j: int|
            0 <= i < j < split_units(t).len() ==> spec_directive(
                #[trigger] split_units(t)[i],
            )->Ok_0.exposed_name != spec_directive(#[trigger] split_units(t)[j])->Ok_0.exposed_name,
        forall|i: int, j: int|
            0 <= i < j < split_units(t).len() && spec_directive(#[trigger] split_units(t)[i])
                ->Ok_0.module_declaration_needed && spec_directive(#[trigger] split_units(t)[j])
                ->Ok_0.module_declaration_needed ==> spec_directive(
                split_units(t)[i],
            )->Ok_0.call_path[0] != spec_directive(split_units(t)[j])->Ok_0.call_path[0],
    ensures
        spec_process(t) is Ok,
{
    lemma_units_completeness(split_units(t), Seq::empty(), Seq::empty());
}

/// The private synthetic modules that scope anchored files never alias:
/// their names come from the exposed names, which a successful pass keeps
/// pairwise distinct.
pub proof fn lemma_synthetic_modules_distinct(t: Seq<SpecToken>, i: int, j: int)
    requires
        spec_process(t) is Ok,
        0 <= i < j < spec_process(t)->Ok_0.len(),
    ensures
        synthetic_module(spec_process(t)->Ok_0[i].exposed_name) != synthetic_module(
            spec_process(t)->Ok_0[j].exposed_name,
        ),
{
    lemma_no_collisions(t);
    let a = spec_process(t)->Ok_0[i].exposed_name;
    let b = spec_process(t)->Ok_0[j].exposed_name;
    let p = "__impl_"@;
    if synthetic_module(a) == synthetic_module(b) {
        assert((p + a).len() == (p + b).len());
        assert(a =~= (p + a).subrange(p.len() as int, (p + a).len() as int));
        assert(b =~= (p + b).subrange(p.len() as int, (p + b).len() as int));
    }
}

/// Processing keeps directive order: a successful pass yields exactly one
/// binding per unit, the `i`th binding compiled from the `i`th directive.
pub proof fn lemma_order_preserved(units: Seq<Seq<SpecToken>>, names: Seq<Seq<char>>, mods: Seq<Seq<char>>)
    ensures
        spec_process_units(units, names, mods) is Ok ==> {
            let bs = spec_process_units(units, names, mods)->Ok_0;
            &&& bs.len() == units.len()
            &&& forall|i: int|
                0 <= i < units.len() ==> spec_directive(#[trigger] units[i]) == Ok::<
                    SpecBinding,
                    SpecCompileError,
                >(bs[i])
        },
    decreases units.len(),
{
    if units.len() > 0 && spec_process_units(units, names, mods) is Ok {
        let b = spec_directive(units[0])->Ok_0;
        let names2 = names.push(b.exposed_name);
        let mods2 = if b.module_declaration_needed {
            mods.push(b.call_path[0])
        } else {
            mods
        };
        lemma_order_preserved(units.skip(1), names2, mods2);
        let rest = spec_process_units(units.skip(1), names2, mods2)->Ok_0;
        let bs = spec_process_units(units, names, mods)->Ok_0;
        assert(bs == seq![b] + rest);
        assert forall|i: int| 0 <= i < units.len() implies spec_directive(#[trigger] units[i])
            == Ok::<SpecBinding, SpecCompileError>(bs[i]) by {
            if i > 0 {
                assert(units[i] == units.skip(1)[i - 1]);
                assert(bs[i] == rest[i - 1]);
            }
        }
    }
}

} // verus!
