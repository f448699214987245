//! The decisions the `LlmDeserialize` derive makes about the type it is
//! given: which generator serves it, which fields are optional, which
//! variants are supported, and how the generated code picks a variant.
//!
//! Types come in as plain values: the names of fields and variants, the
//! shape of their fields, and what the derive reads of each field's type.

use vstd::prelude::*;
use crate::attributes::{
    extract_tag_info, has_union_attribute, invalid_rename_text, has_untagged_attribute, is_union_attribute,
    is_untagged_attribute, named, tag_scan, AttrModel, RenameAllError, TaggedEnumInfo,
};
use crate::error::opt_view;
use crate::rename::{apply_rename_all_at_compile_time, is_known_rule, renamed};
use crate::text::str_eq;

verus! {

/// What the derive reads of a field's type.
#[derive(Debug)]
pub struct TypeModel {
    /// The identifier of the last segment, when the type is a path.
    pub last_ident: Option<String>,
    /// Whether that segment has angle-bracketed arguments whose first is a type.
    pub first_arg_is_type: bool,
}

/// A named field.
#[derive(Debug)]
pub struct FieldModel {
    /// The field's name.
    pub name: String,
    /// Its type.
    pub ty: TypeModel,
}

/// The fields of a struct or of an enum variant.
#[derive(Debug)]
pub enum FieldsShape {
    /// `{ a: A, b: B }`
    Named(Vec<FieldModel>),
    /// `(A, B)`, with the number of fields.
    Unnamed(usize),
    /// No fields.
    Unit,
}

/// An enum variant.
#[derive(Debug)]
pub struct VariantModel {
    /// The variant's name.
    pub name: String,
    /// Its fields.
    pub fields: FieldsShape,
}

/// Which type a field is read as.
#[derive(Debug, PartialEq, Eq, Structural, Clone, Copy)]
pub enum OptionInner {
    /// The argument of `Option<...>`.
    Inner,
    /// The field's own type.
    Whole,
}

/// Check if a type is Option<T>
pub fn is_option_type(ty: &TypeModel) -> (b: bool)
    ensures
        b == named(ty.last_ident, "Option"@),
{
    match &ty.last_ident {
        Some(n) => str_eq(n.as_str(), "Option"),
        None => false,
    }
}

/// Extract the inner type T from Option<T>: the argument when the type is
/// `Option<T>`, the type itself otherwise.
pub fn extract_option_inner(ty: &TypeModel) -> (r: OptionInner)
    ensures
        r == (if named(ty.last_ident, "Option"@) && ty.first_arg_is_type {
            OptionInner::Inner
        } else {
            OptionInner::Whole
        }),
{
    if is_option_type(ty) && ty.first_arg_is_type {
        OptionInner::Inner
    } else {
        OptionInner::Whole
    }
}

/// How the derive reads one field of a struct.
#[derive(Debug)]
pub struct FieldPlan {
    /// The field's name.
    pub name: String,
    /// Whether the field is optional (its type is `Option<...>`).
    pub optional: bool,
    /// Which type the field's value is read as.
    pub read_as: OptionInner,
}

/// The plan for one field.
pub open spec fn field_plan_of(f: FieldModel) -> (Seq<char>, bool, OptionInner) {
    let optional = named(f.ty.last_ident, "Option"@);
    (
        f.name@,
        optional,
        if optional { if f.ty.first_arg_is_type { OptionInner::Inner } else { OptionInner::Whole } } else { OptionInner::Whole },
    )
}

/// The error for a struct without named fields.
pub open spec fn struct_shape_error(fields: FieldsShape) -> Seq<char> {
    match fields {
        FieldsShape::Unnamed(_) => "LlmDeserialize does not support tuple structs yet"@,
        _ => "LlmDeserialize does not support unit structs"@,
    }
}

/// Plan the reading of a struct's fields: one plan per named field, in
/// order; tuple and unit structs are refused.
pub fn plan_struct(fields: &FieldsShape) -> (r: Result<Vec<FieldPlan>, String>)
    ensures
        match fields {
            FieldsShape::Named(fs) => r matches Ok(plans) && plans@.len() == fs@.len() && forall|
                i: int,
            |
                0 <= i < fs@.len() ==> field_plan_of(#[trigger] fs@[i]) == (
                    plans@[i].name@,
                    plans@[i].optional,
                    plans@[i].read_as,
                ),
            _ => r matches Err(m) && m@ == struct_shape_error(*fields),
        },
{
    match fields {
        FieldsShape::Named(fs) => {
            let mut plans: Vec<FieldPlan> = Vec::new();
            let mut i: usize = 0;
            while i < fs.len()
                invariant
                    i <= fs@.len(),
                    plans@.len() == i,
                    forall|j: int|
                        0 <= j < i ==> field_plan_of(#[trigger] fs@[j]) == (
                            plans@[j].name@,
                            plans@[j].optional,
                            plans@[j].read_as,
                        ),
                decreases fs@.len() - i,
            {
                let f = &fs[i];
                let optional = is_option_type(&f.ty);
                let read_as = if optional {
                    extract_option_inner(&f.ty)
                } else {
                    OptionInner::Whole
                };
                plans.push(FieldPlan { name: f.name.clone(), optional, read_as });
                i = i + 1;
            }
            Ok(plans)
        },
        FieldsShape::Unnamed(_) => Err("LlmDeserialize does not support tuple structs yet".to_owned()),
        FieldsShape::Unit => Err("LlmDeserialize does not support unit structs".to_owned()),
    }
}

/// Why an enum marked `#[llm(union)]` cannot be served.
#[derive(Debug, PartialEq, Eq, Structural, Clone, Copy)]
pub enum UnionShapeError {
    /// It does not have exactly two variants.
    VariantCount,
    /// The variant at this index does not have exactly one unnamed field.
    VariantFields(usize),
}

/// Whether a variant has exactly one unnamed field.
pub open spec fn is_newtype(v: VariantModel) -> bool {
    v.fields matches FieldsShape::Unnamed(n) && n == 1
}

fn newtype(v: &VariantModel) -> (b: bool)
    ensures
        b == is_newtype(*v),
{
    match &v.fields {
        FieldsShape::Unnamed(n) => *n == 1,
        _ => false,
    }
}

impl UnionShapeError {
    /// The message for this error.
    pub open spec fn text(self) -> Seq<char> {
        match self {
            UnionShapeError::VariantCount => "Union enums must have exactly 2 variants"@,
            UnionShapeError::VariantFields(_) => "Union variants must have exactly one unnamed field"@,
        }
    }

    /// Renders the message for this error.
    pub fn message(&self) -> (s: String)
        ensures
            s@ == self.text(),
    {
        match self {
            UnionShapeError::VariantCount => "Union enums must have exactly 2 variants".to_owned(),
            UnionShapeError::VariantFields(_) => "Union variants must have exactly one unnamed field".to_owned(),
        }
    }
}

/// A union enum needs exactly two variants, each with one unnamed field; the
/// first variant at fault is reported.
pub fn check_union_variants(variants: &Vec<VariantModel>) -> (r: Result<(), UnionShapeError>)
    ensures
        variants@.len() != 2 ==> r == Err::<(), UnionShapeError>(UnionShapeError::VariantCount),
        variants@.len() == 2 && !is_newtype(variants@[0]) ==> r == Err::<(), UnionShapeError>(
            UnionShapeError::VariantFields(0),
        ),
        variants@.len() == 2 && is_newtype(variants@[0]) && !is_newtype(variants@[1]) ==> r
            == Err::<(), UnionShapeError>(UnionShapeError::VariantFields(1)),
        variants@.len() == 2 && is_newtype(variants@[0]) && is_newtype(variants@[1]) ==> r
            is Ok,
{
    if variants.len() != 2 {
        Err(UnionShapeError::VariantCount)
    } else if !newtype(&variants[0]) {
        Err(UnionShapeError::VariantFields(0))
    } else if !newtype(&variants[1]) {
        Err(UnionShapeError::VariantFields(1))
    } else {
        Ok(())
    }
}

/// How the code generated for an untagged enum tries a variant.
#[derive(Debug, PartialEq, Eq, Structural, Clone, Copy)]
pub enum UntaggedStrategy {
    /// A unit variant: matches `null`.
    Null,
    /// One unnamed field: the field's type is tried on the value.
    Newtype,
    /// Named fields: the whole enum is tried through serde.
    Serde,
    /// Several unnamed fields: not supported.
    Unsupported,
}

/// The strategy for a variant of an untagged enum.
pub open spec fn untagged_strategy_of(fields: FieldsShape) -> UntaggedStrategy {
    match fields {
        FieldsShape::Unit => UntaggedStrategy::Null,
        FieldsShape::Unnamed(n) => if n == 1 {
            UntaggedStrategy::Newtype
        } else {
            UntaggedStrategy::Unsupported
        },
        FieldsShape::Named(_) => UntaggedStrategy::Serde,
    }
}

/// Picks the strategy for a variant of an untagged enum.
pub fn untagged_strategy(fields: &FieldsShape) -> (s: UntaggedStrategy)
    ensures
        s == untagged_strategy_of(*fields),
{
    match fields {
        FieldsShape::Unit => UntaggedStrategy::Null,
        FieldsShape::Unnamed(n) => if *n == 1 {
            UntaggedStrategy::Newtype
        } else {
            UntaggedStrategy::Unsupported
        },
        FieldsShape::Named(_) => UntaggedStrategy::Serde,
    }
}


/// Which generator serves an enum.
#[derive(Debug)]
pub enum EnumPlan {
    /// `#[llm(union)]`: score-based choice between two newtype variants.
    Union,
    /// `#[serde(untagged)]`: each variant tried in turn.
    Untagged,
    /// `#[serde(tag = "...")]`: internally or adjacently tagged.
    Tagged(TaggedEnumInfo),
    /// Unit variants matched by name.
    Plain,
    /// The `rename_all` rule is not accepted.
    Invalid(RenameAllError),
}

/// The plan for an enum with the warnings issued while reading its attributes.
#[derive(Debug)]
pub struct EnumPlanReport {
    /// The generator to use.
    pub plan: EnumPlan,
    /// Warnings for attributes that could not be read in full.
    pub warnings: Vec<String>,
}

/// Choose the generator for an enum: `#[llm(union)]` first, then
/// `#[serde(untagged)]`, then the tag information of `#[serde(...)]`.
pub fn plan_enum(attrs: &Vec<AttrModel>) -> (r: EnumPlanReport)
    ensures
        (exists|i: int| 0 <= i < attrs@.len() && is_union_attribute(#[trigger] attrs@[i])) ==> (
        r.plan is Union && r.warnings@.len() == 0),
        !(exists|i: int| 0 <= i < attrs@.len() && is_union_attribute(#[trigger] attrs@[i])) && (
        exists|i: int| 0 <= i < attrs@.len() && is_untagged_attribute(#[trigger] attrs@[i]))
            ==> (r.plan is Untagged && r.warnings@.len() == 0),
        !(exists|i: int| 0 <= i < attrs@.len() && is_union_attribute(#[trigger] attrs@[i])) && !(
        exists|i: int| 0 <= i < attrs@.len() && is_untagged_attribute(#[trigger] attrs@[i]))
            ==> ({
            let st = tag_scan(attrs@, attrs@.len());
            &&& r.warnings@.map_values(|w: String| w@) == st.warnings
            &&& match st.rename {
                Some(rule) if !is_known_rule(rule) => r.plan matches EnumPlan::Invalid(e)
                    && e.message@ == invalid_rename_text(rule) && e.attr_index == st.rename_at.0
                    && e.meta_index == st.rename_at.1,
                _ => match st.tag {
                    None => r.plan is Plain,
                    Some(t) => r.plan matches EnumPlan::Tagged(info) && info.tag_field@ == t
                        && opt_view(info.content_field) == st.content && opt_view(info.rename_all)
                        == st.rename,
                },
            }
        }),
{
    if has_union_attribute(attrs) {
        return EnumPlanReport { plan: EnumPlan::Union, warnings: Vec::new() };
    }
    if has_untagged_attribute(attrs) {
        return EnumPlanReport { plan: EnumPlan::Untagged, warnings: Vec::new() };
    }
    let report = extract_tag_info(attrs);
    let plan = match report.result {
        Ok(Some(info)) => EnumPlan::Tagged(info),
        Ok(None) => EnumPlan::Plain,
        Err(e) => EnumPlan::Invalid(e),
    };
    EnumPlanReport { plan, warnings: report.warnings }
}

/// The rule a tagged enum's variant names go through; `none` when no
/// `rename_all` is given.
pub open spec fn rule_or_none(rule: Option<String>) -> Seq<char> {
    match rule {
        Some(r) => r@,
        None => "none"@,
    }
}

/// A variant of a tagged enum, as the generated code matches it.
#[derive(Debug)]
pub struct TaggedVariant {
    /// The variant's name.
    pub name: String,
    /// The name after the enum's `rename_all` rule.
    pub normalized: String,
    /// The names of its fields when they are named; empty otherwise.
    pub fields: Vec<String>,
}

/// The field names of a variant: its named fields, or none.
pub open spec fn variant_field_names(fields: FieldsShape) -> Seq<Seq<char>> {
    match fields {
        FieldsShape::Named(fs) => fs@.map_values(|f: FieldModel| f.name@),
        _ => Seq::empty(),
    }
}

fn field_names(fields: &FieldsShape) -> (r: Vec<String>)
    ensures
        r@.map_values(|s: String| s@) == variant_field_names(*fields),
{
    let mut out: Vec<String> = Vec::new();
    match fields {
        FieldsShape::Named(fs) => {
            let mut i: usize = 0;
            while i < fs.len()
                invariant
                    i <= fs@.len(),
                    out@.len() == i,
                    forall|j: int| 0 <= j < i ==> (#[trigger] out@[j])@ == fs@[j].name@,
                decreases fs@.len() - i,
            {
                out.push(fs[i].name.clone());
                i = i + 1;
            }
            assert(out@.map_values(|s: String| s@) =~= fs@.map_values(|f: FieldModel| f.name@));
        },
        _ => {
            assert(out@.map_values(|s: String| s@) =~= Seq::<Seq<char>>::empty());
        },
    }
    out
}

/// The variants of a tagged enum with their names after the `rename_all`
/// rule and their field names, in declaration order.
pub fn tagged_variant_table(variants: &Vec<VariantModel>, rename_all: &Option<String>) -> (r: Vec<
    TaggedVariant,
>)
    ensures
        r@.len() == variants@.len(),
        forall|i: int|
            0 <= i < variants@.len() ==> {
                &&& (#[trigger] r@[i]).name@ == variants@[i].name@
                &&& r@[i].normalized@ == renamed(variants@[i].name@, rule_or_none(*rename_all))
                &&& r@[i].fields@.map_values(|s: String| s@) == variant_field_names(
                    variants@[i].fields,
                )
            },
{
    let mut out: Vec<TaggedVariant> = Vec::new();
    let mut i: usize = 0;
    while i < variants.len()
        invariant
            i <= variants@.len(),
            out@.len() == i,
            forall|j: int|
                0 <= j < i ==> {
                    &&& (#[trigger] out@[j]).name@ == variants@[j].name@
                    &&& out@[j].normalized@ == renamed(
                        variants@[j].name@,
                        rule_or_none(*rename_all),
                    )
                    &&& out@[j].fields@.map_values(|s: String| s@) == variant_field_names(
                        variants@[j].fields,
                    )
                },
        decreases variants@.len() - i,
    {
        let v = &variants[i];
        let normalized = match rename_all {
            Some(rule) => apply_rename_all_at_compile_time(v.name.as_str(), rule.as_str()),
            None => apply_rename_all_at_compile_time(v.name.as_str(), "none"),
        };
        out.push(TaggedVariant { name: v.name.clone(), normalized, fields: field_names(&v.fields) });
        i = i + 1;
    }
    out
}

/// Among scored matches `(variant, penalty)`, the variant of the first match
/// with the lowest penalty; none when there are no matches.
pub open spec fn is_lowest_first(matches: Seq<(usize, u32)>, k: int) -> bool {
    &&& 0 <= k < matches.len()
    &&& forall|j: int| 0 <= j < matches.len() ==> matches[k].1 <= #[trigger] matches[j].1
    &&& forall|j: int| 0 <= j < k ==> matches[k].1 < #[trigger] matches[j].1
}

/// The variant the generated code picks from scored matches: the lowest
/// penalty wins, and among equal penalties the earliest match.
pub fn pick_lowest_score(matches: &Vec<(usize, u32)>) -> (r: Option<usize>)
    ensures
        matches@.len() == 0 ==> r is None,
        matches@.len() > 0 ==> exists|k: int|
            is_lowest_first(matches@, k) && r == Some(#[trigger] matches@[k].0),
{
    if matches.len() == 0 {
        return None;
    }
    let mut best: usize = 0;
    let mut i: usize = 1;
    while i < matches.len()
        invariant
            1 <= i <= matches@.len(),
            best < i,
            forall|j: int| 0 <= j < i ==> matches@[best as int].1 <= #[trigger] matches@[j].1,
            forall|j: int| 0 <= j < best ==> matches@[best as int].1 < #[trigger] matches@[j].1,
        decreases matches@.len() - i,
    {
        if matches[i].1 < matches[best].1 {
            best = i;
        }
        i = i + 1;
    }
    assert(is_lowest_first(matches@, best as int));
    Some(matches[best].0)
}

} // verus!
