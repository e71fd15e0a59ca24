//! Declarations as a parser hands them over, and their conversion into the
//! declaration model. Nothing here inspects source text: the parser's items
//! arrive as plain values.

use vstd::prelude::*;
use vstd::string::StringExecFns;
use crate::field::{fields_view, name_view, Field, FieldView};
use crate::graph::{GraphError, GraphErrorView};
use crate::pickable::{OptionShape, OptionView, Pickable, PickableOption, PickableView};
use crate::sculptable_struct::{SculptableStruct, StructView};

verus! {

/// The type of a field as written: a single identifier, or anything else.
pub enum RawType {
    Ident(String),
    Unsupported,
}

/// A field as written: its name if it has one, the names of its attributes,
/// and its type.
pub struct RawField {
    pub name: Option<String>,
    pub attributes: Vec<String>,
    pub ty: RawType,
}

/// The fields of a struct or of a variant as written.
pub enum RawFields {
    Named(Vec<RawField>),
    Unnamed(Vec<RawField>),
    Unit,
}

/// A variant of an enum as written.
pub struct RawVariant {
    pub name: String,
    pub fields: RawFields,
}

/// A written field, as plain values.
pub struct RawFieldView {
    pub name: Option<Seq<char>>,
    pub attributes: Seq<Seq<char>>,
    pub ty: Option<Seq<char>>,
}

impl View for RawField {
    type V = RawFieldView;

    open spec fn view(&self) -> RawFieldView {
        RawFieldView {
            name: name_view(self.name),
            attributes: self.attributes@.map_values(|a: String| a@),
            ty: match self.ty {
                RawType::Ident(n) => Some(n@),
                RawType::Unsupported => None,
            },
        }
    }
}

/// The written fields of a list, each as plain values.
pub open spec fn raw_fields_view(fields: Seq<RawField>) -> Seq<RawFieldView> {
    fields.map_values(|f: RawField| f@)
}

/// Written fields, as plain values.
pub enum RawFieldsView {
    Named(Seq<RawFieldView>),
    Unnamed(Seq<RawFieldView>),
    Unit,
}

impl View for RawFields {
    type V = RawFieldsView;

    open spec fn view(&self) -> RawFieldsView {
        match *self {
            RawFields::Named(f) => RawFieldsView::Named(raw_fields_view(f@)),
            RawFields::Unnamed(f) => RawFieldsView::Unnamed(raw_fields_view(f@)),
            RawFields::Unit => RawFieldsView::Unit,
        }
    }
}

/// A written variant, as plain values.
pub struct RawVariantView {
    pub name: Seq<char>,
    pub fields: RawFieldsView,
}

impl View for RawVariant {
    type V = RawVariantView;

    open spec fn view(&self) -> RawVariantView {
        RawVariantView { name: self.name@, fields: self.fields@ }
    }
}

/// The written variants of a list, each as plain values.
pub open spec fn raw_variants_view(variants: Seq<RawVariant>) -> Seq<RawVariantView> {
    variants.map_values(|v: RawVariant| v@)
}

/// Whether one of the attributes is the marker of an expandable field.
pub open spec fn has_sculpt_attribute(f: RawFieldView) -> bool {
    exists|i: int| 0 <= i < f.attributes.len() && #[trigger] f.attributes[i] == "sculptable"@
}

/// The field of the model that a written field stands for; a field whose
/// type is not a single identifier has no place in the model.
pub open spec fn mapped_field(f: RawFieldView) -> Result<FieldView, GraphErrorView> {
    match f.ty {
        Some(ty) => Ok(FieldView { name: f.name, ty_name: ty, expandable: has_sculpt_attribute(f) }),
        None => Err(
            GraphErrorView::InvalidFieldShape(
                match f.name {
                    Some(n) => n,
                    None => Seq::empty(),
                },
            ),
        ),
    }
}

/// The fields of the model that the written fields from place `k` on stand
/// for, appended to `acc`; the first field without a place in the model is
/// the error.
pub open spec fn mapped_fields(fields: Seq<RawFieldView>, k: int, acc: Seq<FieldView>) -> Result<
    Seq<FieldView>,
    GraphErrorView,
>
    decreases fields.len() - k,
{
    if k < 0 || k >= fields.len() {
        Ok(acc)
    } else {
        match mapped_field(fields[k]) {
            Err(e) => Err(e),
            Ok(f) => mapped_fields(fields, k + 1, acc.push(f)),
        }
    }
}

/// The product type that a written struct stands for: its fields have to be
/// named.
pub open spec fn mapped_struct(name: Seq<char>, fields: RawFieldsView, root: bool) -> Result<
    StructView,
    GraphErrorView,
> {
    match fields {
        RawFieldsView::Named(f) => match mapped_fields(f, 0, Seq::empty()) {
            Ok(fields) => Ok(StructView { root, name, fields }),
            Err(e) => Err(e),
        },
        _ => Err(GraphErrorView::InvalidFieldShape(name)),
    }
}

/// The variant of the model that a written variant stands for.
pub open spec fn mapped_option(v: RawVariantView) -> Result<OptionView, GraphErrorView> {
    match v.fields {
        RawFieldsView::Named(f) => match mapped_fields(f, 0, Seq::empty()) {
            Ok(fields) => Ok(OptionView { shape: OptionShape::Struct, tag: v.name, fields }),
            Err(e) => Err(e),
        },
        RawFieldsView::Unnamed(f) => match mapped_fields(f, 0, Seq::empty()) {
            Ok(fields) => Ok(OptionView { shape: OptionShape::Tuple, tag: v.name, fields }),
            Err(e) => Err(e),
        },
        RawFieldsView::Unit => Ok(
            OptionView { shape: OptionShape::Raw, tag: v.name, fields: Seq::empty() },
        ),
    }
}

/// The variants of the model that the written variants from place `k` on
/// stand for, appended to `acc`.
pub open spec fn mapped_options(variants: Seq<RawVariantView>, k: int, acc: Seq<OptionView>) -> Result<
    Seq<OptionView>,
    GraphErrorView,
>
    decreases variants.len() - k,
{
    if k < 0 || k >= variants.len() {
        Ok(acc)
    } else {
        match mapped_option(variants[k]) {
            Err(e) => Err(e),
            Ok(o) => mapped_options(variants, k + 1, acc.push(o)),
        }
    }
}

/// The sum type that a written enum stands for: a decision point.
pub open spec fn mapped_enum(name: Seq<char>, variants: Seq<RawVariantView>) -> Result<
    PickableView,
    GraphErrorView,
> {
    match mapped_options(variants, 0, Seq::empty()) {
        Ok(options) => Ok(PickableView { name, options, decision_point: true }),
        Err(e) => Err(e),
    }
}

/// Whether the field carries the marker of an expandable field.
pub fn field_has_sculpt_attribute(field: &RawField) -> (r: bool)
    ensures
        r == has_sculpt_attribute(field@),
{
    let marker = String::from_str("sculptable");
    let mut i: usize = 0;
    while i < field.attributes.len()
        invariant
            i <= field.attributes.len(),
            marker@ == "sculptable"@,
            forall|k: int| 0 <= k < i ==> field@.attributes[k] != "sculptable"@,
        decreases field.attributes.len() - i,
    {
        if field.attributes[i] == marker {
            assert(field@.attributes[i as int] == "sculptable"@);
            return true;
        }
        i += 1;
    }
    false
}

/// Maps a written field into the model.
pub fn map_syn_field(field: &RawField) -> (r: Result<Field, GraphError>)
    ensures
        match r {
            Ok(f) => mapped_field(field@) == Ok::<FieldView, GraphErrorView>(f@),
            Err(e) => mapped_field(field@) == Err::<FieldView, GraphErrorView>(e@),
        },
{
    let sculpt = field_has_sculpt_attribute(field);
    let name = match &field.name {
        Some(n) => Some(n.clone()),
        None => None,
    };
    match &field.ty {
        RawType::Ident(ty) => {
            if sculpt {
                Ok(Field::sculpt(name, ty.clone()))
            } else {
                Ok(Field::pick(name, ty.clone()))
            }
        },
        RawType::Unsupported => Err(
            GraphError::InvalidFieldShape(
                match name {
                    Some(n) => n,
                    None => String::new(),
                },
            ),
        ),
    }
}

fn map_fields(fields: &Vec<RawField>) -> (r: Result<Vec<Field>, GraphError>)
    ensures
        match r {
            Ok(out) => mapped_fields(raw_fields_view(fields@), 0, Seq::empty()) == Ok::<
                Seq<FieldView>,
                GraphErrorView,
            >(fields_view(out@)),
            Err(e) => mapped_fields(raw_fields_view(fields@), 0, Seq::empty()) == Err::<
                Seq<FieldView>,
                GraphErrorView,
            >(e@),
        },
{
    let ghost rv = raw_fields_view(fields@);
    let mut out: Vec<Field> = Vec::new();
    assert(fields_view(out@) =~= Seq::empty());
    let mut k: usize = 0;
    while k < fields.len()
        invariant
            k <= fields.len(),
            rv == raw_fields_view(fields@),
            mapped_fields(rv, 0, Seq::empty()) == mapped_fields(rv, k as int, fields_view(out@)),
        decreases fields.len() - k,
    {
        match map_syn_field(&fields[k]) {
            Err(e) => {
                return Err(e);
            },
            Ok(f) => {
                let ghost before = out@;
                out.push(f);
                assert(fields_view(out@) =~= fields_view(before).push(f@));
            },
        }
        k += 1;
    }
    Ok(out)
}

/// Builds the product type of a written struct.
pub fn build_sculptable(name: String, fields: &RawFields, is_root: bool) -> (r: Result<
    SculptableStruct,
    GraphError,
>)
    ensures
        match r {
            Ok(s) => mapped_struct(name@, fields@, is_root) == Ok::<StructView, GraphErrorView>(s@),
            Err(e) => mapped_struct(name@, fields@, is_root) == Err::<StructView, GraphErrorView>(
                e@,
            ),
        },
{
    match fields {
        RawFields::Named(named) => match map_fields(named) {
            Ok(fields) => Ok(SculptableStruct { root: is_root, name, fields }),
            Err(e) => Err(e),
        },
        RawFields::Unnamed(_) => Err(GraphError::InvalidFieldShape(name)),
        RawFields::Unit => Err(GraphError::InvalidFieldShape(name)),
    }
}

/// Builds the variant of a written variant.
pub fn variant_to_pickable_option(variant: &RawVariant) -> (r: Result<PickableOption, GraphError>)
    ensures
        match r {
            Ok(o) => mapped_option(variant@) == Ok::<OptionView, GraphErrorView>(o@),
            Err(e) => mapped_option(variant@) == Err::<OptionView, GraphErrorView>(e@),
        },
{
    match &variant.fields {
        RawFields::Named(named) => match map_fields(named) {
            Ok(fields) => Ok(PickableOption::Struct { name: variant.name.clone(), fields }),
            Err(e) => Err(e),
        },
        RawFields::Unnamed(unnamed) => match map_fields(unnamed) {
            Ok(fields) => Ok(PickableOption::Tuple { name: variant.name.clone(), fields }),
            Err(e) => Err(e),
        },
        RawFields::Unit => Ok(PickableOption::new_raw(variant.name.clone())),
    }
}

/// Builds the sum type of a written enum.
pub fn build_pickable(name: String, variants: &Vec<RawVariant>) -> (r: Result<Pickable, GraphError>)
    ensures
        match r {
            Ok(p) => mapped_enum(name@, raw_variants_view(variants@)) == Ok::<
                PickableView,
                GraphErrorView,
            >(p@),
            Err(e) => mapped_enum(name@, raw_variants_view(variants@)) == Err::<
                PickableView,
                GraphErrorView,
            >(e@),
        },
{
    let ghost rv = raw_variants_view(variants@);
    let mut pickable = Pickable::new(name);
    let mut k: usize = 0;
    while k < variants.len()
        invariant
            k <= variants.len(),
            rv == raw_variants_view(variants@),
            pickable@.name == name@,
            pickable@.decision_point,
            mapped_options(rv, 0, Seq::empty()) == mapped_options(rv, k as int, pickable@.options),
        decreases variants.len() - k,
    {
        match variant_to_pickable_option(&variants[k]) {
            Err(e) => {
                return Err(e);
            },
            Ok(o) => {
                pickable.add_option(o);
            },
        }
        k += 1;
    }
    Ok(pickable)
}

} // verus!
