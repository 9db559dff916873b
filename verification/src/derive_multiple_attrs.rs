//! A sample derive implementation with several helper attributes: emits a
//! `Validate` impl whose checks come from `required`, `length` and `range`
//! annotations on the decorated struct's fields.
//!
//! The decorated item reaches this implementation as a parsed model of the
//! struct: its name and, per field, the checks its annotations ask for, in
//! annotation order. Alongside the emitted source stands a verified
//! evaluator that gives the checks' semantics: what the generated
//! `validate` returns for a record of field values.

use vstd::prelude::*;
use crate::numtext::{dec_rep, spec_format_i32, format_u64, format_i32};
use crate::seqs::{dv_seq, lemma_vec_dv, lemma_dv_push};

verus! {

/// One validation check on one field.
#[derive(Clone, Copy, Debug, PartialEq, Eq, Structural)]
pub enum Check {
    /// The optional field must be present.
    Required,
    /// A present text value must be at least this long.
    LengthMin(u64),
    /// A present text value must be at most this long.
    LengthMax(u64),
    /// A present numeric value must be at least this.
    RangeMin(i32),
    /// A present numeric value must be at most this.
    RangeMax(i32),
}

/// One named field and its checks, in annotation order.
#[derive(Debug)]
pub struct FieldModel {
    pub name: String,
    pub checks: Vec<Check>,
}

/// The mathematical model of a [`FieldModel`].
pub struct SpecFieldModel {
    pub name: Seq<char>,
    pub checks: Seq<Check>,
}

impl DeepView for FieldModel {
    type V = SpecFieldModel;

    open spec fn deep_view(&self) -> SpecFieldModel {
        SpecFieldModel { name: self.name@, checks: self.checks@ }
    }
}

/// The decorated struct: its name and its fields, in order.
#[derive(Debug)]
pub struct StructModel {
    pub name: String,
    pub fields: Vec<FieldModel>,
}

/// The value a record holds for one field.
#[derive(Debug)]
pub enum FieldValue {
    /// The optional field is absent.
    Missing,
    /// A present text value.
    Text(String),
    /// A present numeric value.
    Num(i32),
}

/// The mathematical model of a [`FieldValue`].
pub enum SpecFieldValue {
    Missing,
    Text(Seq<char>),
    Num(i32),
}

impl DeepView for FieldValue {
    type V = SpecFieldValue;

    open spec fn deep_view(&self) -> SpecFieldValue {
        match self {
            FieldValue::Missing => SpecFieldValue::Missing,
            FieldValue::Text(s) => SpecFieldValue::Text(s@),
            FieldValue::Num(v) => SpecFieldValue::Num(*v),
        }
    }
}

/// The source text of one check on one field.
pub open spec fn spec_check_text(c: Check, f: Seq<char>) -> Seq<char> {
    match c {
        Check::Required => "        if self."@ + f + ".is_none() {\n            errors.push(\"Field "@
            + f + " is required\".to_string());\n        }\n"@,
        Check::LengthMin(m) => "        if let Some(val) = &self."@ + f
            + " {\n            if val.len() < "@ + dec_rep(m as int)
            + " {\n                errors.push(\"Field "@ + f
            + " is too short\".to_string());\n            }\n        }\n"@,
        Check::LengthMax(m) => "        if let Some(val) = &self."@ + f
            + " {\n            if val.len() > "@ + dec_rep(m as int)
            + " {\n                errors.push(\"Field "@ + f
            + " is too long\".to_string());\n            }\n        }\n"@,
        Check::RangeMin(m) => "        if let Some(val) = self."@ + f
            + " {\n            if val < "@ + spec_format_i32(m as int)
            + " {\n                errors.push(\"Field "@ + f
            + " is below minimum value\".to_string());\n            }\n        }\n"@,
        Check::RangeMax(m) => "        if let Some(val) = self."@ + f
            + " {\n            if val > "@ + spec_format_i32(m as int)
            + " {\n                errors.push(\"Field "@ + f
            + " exceeds maximum value\".to_string());\n            }\n        }\n"@,
    }
}

/// The check texts of one field from index `i` on, concatenated.
pub open spec fn spec_checks_text_from(cs: Seq<Check>, f: Seq<char>, i: int) -> Seq<char>
    decreases cs.len() - i,
{
    if i < 0 || i >= cs.len() {
        Seq::empty()
    } else {
        spec_check_text(cs[i], f) + spec_checks_text_from(cs, f, i + 1)
    }
}

/// The check texts of the fields from index `i` on, concatenated.
pub open spec fn spec_fields_text_from(fs: Seq<SpecFieldModel>, i: int) -> Seq<char>
    decreases fs.len() - i,
{
    if i < 0 || i >= fs.len() {
        Seq::empty()
    } else {
        spec_checks_text_from(fs[i].checks, fs[i].name, 0) + spec_fields_text_from(fs, i + 1)
    }
}

/// The whole emitted `Validate` impl for a struct model.
pub open spec fn spec_generate_validation(name: Seq<char>, fs: Seq<SpecFieldModel>) -> Seq<char> {
    "impl Validate for "@ + name
        + " {\n    fn validate(&self) -> Result<(), Vec<String>> {\n        let mut errors = Vec::new();\n"@
        + spec_fields_text_from(fs, 0)
        + "        if errors.is_empty() {\n            Ok(())\n        } else {\n            Err(errors)\n        }\n    }\n}\n"@
}

/// The source text of one check.
fn check_text(c: &Check, f: &String) -> (r: String)
    ensures
        r@ == spec_check_text(*c, f@),
{
    let mut out: String;
    match c {
        Check::Required => {
            out = String::from_str("        if self.");
            out.append(f.as_str());
            out.append(".is_none() {\n            errors.push(\"Field ");
            out.append(f.as_str());
            out.append(" is required\".to_string());\n        }\n");
        },
        Check::LengthMin(m) => {
            out = String::from_str("        if let Some(val) = &self.");
            out.append(f.as_str());
            out.append(" {\n            if val.len() < ");
            let num = format_u64(*m);
            out.append(num.as_str());
            out.append(" {\n                errors.push(\"Field ");
            out.append(f.as_str());
            out.append(" is too short\".to_string());\n            }\n        }\n");
        },
        Check::LengthMax(m) => {
            out = String::from_str("        if let Some(val) = &self.");
            out.append(f.as_str());
            out.append(" {\n            if val.len() > ");
            let num = format_u64(*m);
            out.append(num.as_str());
            out.append(" {\n                errors.push(\"Field ");
            out.append(f.as_str());
            out.append(" is too long\".to_string());\n            }\n        }\n");
        },
        Check::RangeMin(m) => {
            out = String::from_str("        if let Some(val) = self.");
            out.append(f.as_str());
            out.append(" {\n            if val < ");
            let num = format_i32(*m);
            out.append(num.as_str());
            out.append(" {\n                errors.push(\"Field ");
            out.append(f.as_str());
            out.append(" is below minimum value\".to_string());\n            }\n        }\n");
        },
        Check::RangeMax(m) => {
            out = String::from_str("        if let Some(val) = self.");
            out.append(f.as_str());
            out.append(" {\n            if val > ");
            let num = format_i32(*m);
            out.append(num.as_str());
            out.append(" {\n                errors.push(\"Field ");
            out.append(f.as_str());
            out.append(" exceeds maximum value\".to_string());\n            }\n        }\n");
        },
    }
    out
}

/// Emits the `Validate` impl a struct model asks for.
pub fn generate_validation(model: &StructModel) -> (r: String)
    ensures
        r@ == spec_generate_validation(model.name@, model.fields.deep_view()),
{
    let ghost fsv = model.fields.deep_view();
    let mut out = String::from_str("impl Validate for ");
    out.append(model.name.as_str());
    out.append(
        " {\n    fn validate(&self) -> Result<(), Vec<String>> {\n        let mut errors = Vec::new();\n",
    );
    let ghost header = out@;
    let nf = model.fields.len();
    let mut i: usize = 0;
    while i < nf
        invariant
            0 <= i <= nf,
            nf == model.fields@.len(),
            fsv == model.fields.deep_view(),
            out@ + spec_fields_text_from(fsv, i as int) == header + spec_fields_text_from(fsv, 0),
        decreases nf - i,
    {
        let field = &model.fields[i];
        let ghost fv = fsv[i as int];
        let nc = field.checks.len();
        let mut j: usize = 0;
        while j < nc
            invariant
                0 <= j <= nc,
                0 <= i < nf,
                nf == model.fields@.len(),
                fsv == model.fields.deep_view(),
                fv == fsv[i as int],
                field == model.fields@[i as int],
                nc == field.checks@.len(),
                out@ + spec_checks_text_from(fv.checks, fv.name, j as int) + spec_fields_text_from(
                    fsv,
                    i + 1,
                ) == header + spec_fields_text_from(fsv, 0),
            decreases nc - j,
        {
            let ghost prev = out@;
            let t = check_text(&field.checks[j], &field.name);
            out.append(t.as_str());
            proof {
                assert(fv.checks[j as int] == field.checks@[j as int]);
                assert(prev + (spec_check_text(fv.checks[j as int], fv.name)
                    + spec_checks_text_from(fv.checks, fv.name, j + 1 as int))
                    + spec_fields_text_from(fsv, i + 1) =~= out@ + spec_checks_text_from(
                    fv.checks,
                    fv.name,
                    j + 1 as int,
                ) + spec_fields_text_from(fsv, i + 1));
            }
            j = j + 1;
        }
        proof {
            assert(spec_checks_text_from(fv.checks, fv.name, nc as int) =~= Seq::<char>::empty());
            assert(out@ + Seq::<char>::empty() + spec_fields_text_from(fsv, i + 1) =~= out@
                + spec_fields_text_from(fsv, i + 1));
            assert(spec_fields_text_from(fsv, i as int) == spec_checks_text_from(
                fv.checks,
                fv.name,
                0,
            ) + spec_fields_text_from(fsv, i + 1));
        }
        i = i + 1;
    }
    proof {
        assert(spec_fields_text_from(fsv, nf as int) =~= Seq::<char>::empty());
        assert(out@ + Seq::<char>::empty() =~= out@);
    }
    out.append(
        "        if errors.is_empty() {\n            Ok(())\n        } else {\n            Err(errors)\n        }\n    }\n}\n",
    );
    proof {
        assert(out@ =~= spec_generate_validation(model.name@, fsv));
    }
    out
}

/// Whether one check fails on one value: a required field may not be
/// absent; length bounds judge a present text value by its character
/// count; range bounds judge a present numeric value.
pub open spec fn spec_check_fails(c: Check, v: SpecFieldValue) -> bool {
    match c {
        Check::Required => v is Missing,
        Check::LengthMin(m) => v is Text && (v->Text_0).len() < m,
        Check::LengthMax(m) => v is Text && (v->Text_0).len() > m,
        Check::RangeMin(m) => v is Num && v->Num_0 < m,
        Check::RangeMax(m) => v is Num && v->Num_0 > m,
    }
}

/// The message a failing check reports for a field.
pub open spec fn spec_check_message(c: Check, f: Seq<char>) -> Seq<char> {
    match c {
        Check::Required => "Field "@ + f + " is required"@,
        Check::LengthMin(_) => "Field "@ + f + " is too short"@,
        Check::LengthMax(_) => "Field "@ + f + " is too long"@,
        Check::RangeMin(_) => "Field "@ + f + " is below minimum value"@,
        Check::RangeMax(_) => "Field "@ + f + " exceeds maximum value"@,
    }
}

/// The messages of the failing checks of one field from index `i` on.
pub open spec fn spec_field_errors_from(
    cs: Seq<Check>,
    f: Seq<char>,
    v: SpecFieldValue,
    i: int,
) -> Seq<Seq<char>>
    decreases cs.len() - i,
{
    if i < 0 || i >= cs.len() {
        Seq::empty()
    } else {
        let rest = spec_field_errors_from(cs, f, v, i + 1);
        if spec_check_fails(cs[i], v) {
            seq![spec_check_message(cs[i], f)] + rest
        } else {
            rest
        }
    }
}

/// The value a record holds for field `i`; absent entries count as
/// missing.
pub open spec fn value_at(vs: Seq<SpecFieldValue>, i: int) -> SpecFieldValue {
    if 0 <= i < vs.len() {
        vs[i]
    } else {
        SpecFieldValue::Missing
    }
}

/// The messages of all failing checks of the fields from index `i` on.
pub open spec fn spec_record_errors_from(
    fs: Seq<SpecFieldModel>,
    vs: Seq<SpecFieldValue>,
    i: int,
) -> Seq<Seq<char>>
    decreases fs.len() - i,
{
    if i < 0 || i >= fs.len() {
        Seq::empty()
    } else {
        spec_field_errors_from(fs[i].checks, fs[i].name, value_at(vs, i), 0)
            + spec_record_errors_from(fs, vs, i + 1)
    }
}

/// Every message the checks of `fs` report on the record `vs`.
pub open spec fn spec_record_errors(
    fs: Seq<SpecFieldModel>,
    vs: Seq<SpecFieldValue>,
) -> Seq<Seq<char>> {
    spec_record_errors_from(fs, vs, 0)
}

/// The message of one check, as text.
fn check_message(c: &Check, f: &String) -> (r: String)
    ensures
        r@ == spec_check_message(*c, f@),
{
    let mut out = String::from_str("Field ");
    out.append(f.as_str());
    match c {
        Check::Required => out.append(" is required"),
        Check::LengthMin(_) => out.append(" is too short"),
        Check::LengthMax(_) => out.append(" is too long"),
        Check::RangeMin(_) => out.append(" is below minimum value"),
        Check::RangeMax(_) => out.append(" exceeds maximum value"),
    }
    out
}

/// Whether one check fails on one value.
fn check_fails(c: &Check, v: &FieldValue) -> (b: bool)
    ensures
        b == spec_check_fails(*c, v.deep_view()),
{
    match (c, v) {
        (Check::Required, FieldValue::Missing) => true,
        (Check::LengthMin(m), FieldValue::Text(s)) => (s.as_str().unicode_len() as u64) < *m,
        (Check::LengthMax(m), FieldValue::Text(s)) => (s.as_str().unicode_len() as u64) > *m,
        (Check::RangeMin(m), FieldValue::Num(x)) => *x < *m,
        (Check::RangeMax(m), FieldValue::Num(x)) => *x > *m,
        _ => false,
    }
}

/// What the emitted `validate` returns on a record: `Ok` when every check
/// passes, otherwise every failing check's message, in field and check
/// order.
pub fn validate_record(fields: &Vec<FieldModel>, values: &Vec<FieldValue>) -> (r: Result<
    (),
    Vec<String>,
>)
    ensures
        match r {
            Ok(_) => spec_record_errors(fields.deep_view(), values.deep_view()).len() == 0,
            Err(es) => {
                &&& es.deep_view() == spec_record_errors(fields.deep_view(), values.deep_view())
                &&& es@.len() > 0
            },
        },
{
    let ghost fsv = fields.deep_view();
    let ghost vsv = values.deep_view();
    let mut errors: Vec<String> = Vec::new();
    proof {
        assert(errors.deep_view() =~= Seq::<Seq<char>>::empty());
    }
    let nf = fields.len();
    let mut i: usize = 0;
    while i < nf
        invariant
            0 <= i <= nf,
            nf == fields@.len(),
            fsv == fields.deep_view(),
            vsv == values.deep_view(),
            errors.deep_view() + spec_record_errors_from(fsv, vsv, i as int)
                == spec_record_errors(fsv, vsv),
        decreases nf - i,
    {
        let field = &fields[i];
        let ghost fv = fsv[i as int];
        let missing = FieldValue::Missing;
        let value: &FieldValue = if i < values.len() {
            &values[i]
        } else {
            &missing
        };
        proof {
            assert(value.deep_view() == value_at(vsv, i as int));
        }
        let nc = field.checks.len();
        let mut j: usize = 0;
        while j < nc
            invariant
                0 <= j <= nc,
                0 <= i < nf,
                nf == fields@.len(),
                fsv == fields.deep_view(),
                vsv == values.deep_view(),
                fv == fsv[i as int],
                field == fields@[i as int],
                nc == field.checks@.len(),
                value.deep_view() == value_at(vsv, i as int),
                errors.deep_view() + spec_field_errors_from(
                    fv.checks,
                    fv.name,
                    value_at(vsv, i as int),
                    j as int,
                ) + spec_record_errors_from(fsv, vsv, i + 1) == spec_record_errors(fsv, vsv),
            decreases nc - j,
        {
            let ghost prev = errors@;
            let ghost dvprev = errors.deep_view();
            if check_fails(&field.checks[j], value) {
                let msg = check_message(&field.checks[j], &field.name);
                errors.push(msg);
                proof {
                    lemma_dv_push(prev, errors@[errors@.len() - 1]);
                    lemma_vec_dv(errors);
                    assert(dvprev =~= dv_seq(prev));
                    assert(fv.checks[j as int] == field.checks@[j as int]);
                    assert(errors.deep_view() =~= dvprev.push(
                        spec_check_message(fv.checks[j as int], fv.name),
                    ));
                    assert(errors.deep_view() + spec_field_errors_from(
                        fv.checks,
                        fv.name,
                        value_at(vsv, i as int),
                        j + 1 as int,
                    ) =~= dvprev + spec_field_errors_from(
                        fv.checks,
                        fv.name,
                        value_at(vsv, i as int),
                        j as int,
                    ));
                }
            } else {
                proof {
                    assert(fv.checks[j as int] == field.checks@[j as int]);
                }
            }
            j = j + 1;
        }
        proof {
            assert(spec_field_errors_from(fv.checks, fv.name, value_at(vsv, i as int), nc as int)
                =~= Seq::<Seq<char>>::empty());
            assert(errors.deep_view() + Seq::<Seq<char>>::empty() + spec_record_errors_from(
                fsv,
                vsv,
                i + 1,
            ) =~= errors.deep_view() + spec_record_errors_from(fsv, vsv, i + 1));
            assert(spec_record_errors_from(fsv, vsv, i as int) == spec_field_errors_from(
                fv.checks,
                fv.name,
                value_at(vsv, i as int),
                0,
            ) + spec_record_errors_from(fsv, vsv, i + 1));
        }
        i = i + 1;
    }
    proof {
        assert(spec_record_errors_from(fsv, vsv, nf as int) =~= Seq::<Seq<char>>::empty());
        assert(errors.deep_view() + Seq::<Seq<char>>::empty() =~= errors.deep_view());
    }
    if errors.len() == 0 {
        proof {
            assert(errors.deep_view() =~= Seq::<Seq<char>>::empty());
        }
        Ok(())
    } else {
        Err(errors)
    }
}

} // verus!
