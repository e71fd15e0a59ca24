//! Sum types: a type with tagged variants, one of which a driver picks.

use vstd::prelude::*;
use vstd::string::StringExecFns;
use crate::field::{
    append_builder_calls, append_builder_fields, append_field_names, builder_calls_block,
    builder_fields_block, clone_fields, field_names_list, fields_view, Field, FieldView,
};
use crate::format::{
    builder_field_name, builder_type_name, option_field_name, options_type_name, picker_trait_name,
    SculptFormatter,
};

verus! {

/// How a variant carries its fields.
pub enum OptionShape {
    Struct,
    Tuple,
    Raw,
}

/// What a variant is, as plain values.
pub struct OptionView {
    pub shape: OptionShape,
    pub tag: Seq<char>,
    pub fields: Seq<FieldView>,
}

/// What a sum type is, as plain values.
pub struct PickableView {
    pub name: Seq<char>,
    pub options: Seq<OptionView>,
    pub decision_point: bool,
}

/// A variant of a sum type: with named fields, with positional fields, or
/// with none.
pub enum PickableOption {
    Struct { name: String, fields: Vec<Field> },
    Tuple { name: String, fields: Vec<Field> },
    Raw { name: String },
}

impl View for PickableOption {
    type V = OptionView;

    open spec fn view(&self) -> OptionView {
        match *self {
            PickableOption::Struct { name, fields } => OptionView {
                shape: OptionShape::Struct,
                tag: name@,
                fields: fields_view(fields@),
            },
            PickableOption::Tuple { name, fields } => OptionView {
                shape: OptionShape::Tuple,
                tag: name@,
                fields: fields_view(fields@),
            },
            PickableOption::Raw { name } => OptionView {
                shape: OptionShape::Raw,
                tag: name@,
                fields: Seq::empty(),
            },
        }
    }
}

/// The variants of a list, each as plain values.
pub open spec fn options_view(options: Seq<PickableOption>) -> Seq<OptionView> {
    options.map_values(|o: PickableOption| o@)
}

/// The tags of a list of variants, in their order.
pub open spec fn option_tags(options: Seq<OptionView>) -> Seq<Seq<char>> {
    options.map_values(|o: OptionView| o.tag)
}

impl Clone for PickableOption {
    fn clone(&self) -> (r: PickableOption)
        ensures
            r@ == self@,
    {
        match self {
            PickableOption::Struct { name, fields } => PickableOption::Struct {
                name: name.clone(),
                fields: clone_fields(fields),
            },
            PickableOption::Tuple { name, fields } => PickableOption::Tuple {
                name: name.clone(),
                fields: clone_fields(fields),
            },
            PickableOption::Raw { name } => PickableOption::Raw { name: name.clone() },
        }
    }
}

impl PickableOption {
    pub fn new_struct(name: String) -> (r: PickableOption)
        ensures
            r@ == (OptionView { shape: OptionShape::Struct, tag: name@, fields: Seq::empty() }),
    {
        let r = PickableOption::Struct { name, fields: Vec::new() };
        assert(r@.fields =~= Seq::empty());
        r
    }

    pub fn new_tuple(name: String) -> (r: PickableOption)
        ensures
            r@ == (OptionView { shape: OptionShape::Tuple, tag: name@, fields: Seq::empty() }),
    {
        let r = PickableOption::Tuple { name, fields: Vec::new() };
        assert(r@.fields =~= Seq::empty());
        r
    }

    pub fn new_raw(name: String) -> (r: PickableOption)
        ensures
            r@ == (OptionView { shape: OptionShape::Raw, tag: name@, fields: Seq::empty() }),
    {
        PickableOption::Raw { name }
    }

    pub fn name(&self) -> (r: &String)
        ensures
            r@ == self@.tag,
    {
        match self {
            PickableOption::Struct { name, .. } => name,
            PickableOption::Tuple { name, .. } => name,
            PickableOption::Raw { name } => name,
        }
    }

    /// The fields of a variant that can carry fields; `None` for a variant
    /// that cannot.
    pub fn fields(&self) -> (r: Option<&Vec<Field>>)
        ensures
            match r {
                Some(fields) => !(self@.shape is Raw) && fields_view(fields@) == self@.fields,
                None => self@.shape is Raw,
            },
    {
        match self {
            PickableOption::Struct { fields, .. } => Some(fields),
            PickableOption::Tuple { fields, .. } => Some(fields),
            PickableOption::Raw { .. } => None,
        }
    }

    /// Whether the variant gets a sub-builder of its own: every variant but a
    /// bare tag does.
    pub fn is_sculptable(&self) -> (r: bool)
        ensures
            r == !(self@.shape is Raw),
    {
        match self {
            PickableOption::Struct { .. } => true,
            PickableOption::Tuple { .. } => true,
            PickableOption::Raw { .. } => false,
        }
    }

    /// Appends a field to a variant that can carry fields; a bare tag stays
    /// as it is.
    pub fn add_field(&mut self, field: Field)
        ensures
            final(self)@.shape == old(self)@.shape,
            final(self)@.tag == old(self)@.tag,
            final(self)@.fields == if old(self)@.shape is Raw {
                old(self)@.fields
            } else {
                old(self)@.fields.push(field@)
            },
    {
        match self {
            PickableOption::Struct { fields, .. } => {
                fields.push(field);
                assert(fields_view(fields@) =~= fields_view(old(self)->Struct_fields@).push(field@));
            },
            PickableOption::Tuple { fields, .. } => {
                fields.push(field);
                assert(fields_view(fields@) =~= fields_view(old(self)->Tuple_fields@).push(field@));
            },
            PickableOption::Raw { .. } => {},
        }
    }
}

/// A sum type.
pub struct Pickable {
    name: String,
    options: Vec<PickableOption>,
    decision: bool,
}

impl View for Pickable {
    type V = PickableView;

    closed spec fn view(&self) -> PickableView {
        PickableView {
            name: self.name@,
            options: options_view(self.options@),
            decision_point: self.decision,
        }
    }
}

impl Clone for Pickable {
    fn clone(&self) -> (r: Pickable)
        ensures
            r@ == self@,
    {
        let mut options: Vec<PickableOption> = Vec::new();
        let mut i: usize = 0;
        while i < self.options.len()
            invariant
                i <= self.options.len(),
                options.len() == i,
                forall|k: int| 0 <= k < i ==> options[k]@ == self.options[k]@,
            decreases self.options.len() - i,
        {
            options.push(self.options[i].clone());
            i += 1;
        }
        assert(options_view(options@) =~= options_view(self.options@));
        Pickable { name: self.name.clone(), options, decision: self.decision }
    }
}

impl Pickable {
    /// A sum type whose variant a driver has to pick, without variants yet.
    pub fn new(name: String) -> (r: Pickable)
        ensures
            r@ == (PickableView { name: name@, options: Seq::empty(), decision_point: true }),
    {
        let r = Pickable { name, options: Vec::new(), decision: true };
        assert(r@.options =~= Seq::empty());
        r
    }

    /// A sum type that no driver decides: a leaf of the construction.
    pub fn new_opaque(name: String) -> (r: Pickable)
        ensures
            r@ == (PickableView { name: name@, options: Seq::empty(), decision_point: false }),
    {
        let r = Pickable { name, options: Vec::new(), decision: false };
        assert(r@.options =~= Seq::empty());
        r
    }

    pub fn add_option(&mut self, pickable_option: PickableOption)
        ensures
            final(self)@ == (PickableView {
                options: old(self)@.options.push(pickable_option@),
                ..old(self)@
            }),
    {
        self.options.push(pickable_option);
        assert(options_view(self.options@) =~= options_view(old(self).options@).push(
            pickable_option@,
        ));
    }

    pub fn name(&self) -> (r: &String)
        ensures
            r@ == self@.name,
    {
        &self.name
    }

    pub fn options(&self) -> (r: &Vec<PickableOption>)
        ensures
            options_view(r@) == self@.options,
    {
        &self.options
    }

    pub fn is_decision_point(&self) -> (r: bool)
        ensures
            r == self@.decision_point,
    {
        self.decision
    }
}

/// The place of a variant's sub-builder in the builder of its sum type.
pub open spec fn variant_builder_field_text(o: OptionView) -> Seq<char> {
    builder_field_name(o.tag) + ": "@ + builder_type_name(o.tag)
}

/// The arm that finishes a variant out of the builder of its sum type: a
/// variant with fields out of its sub-builder, a bare tag out of the slot.
pub open spec fn builder_arm_text(o: OptionView, slot: Seq<char>, options: Seq<char>) -> Seq<char> {
    if o.shape is Raw {
        options + "::"@ + o.tag + " => self."@ + slot + ".expect(\"Field "@ + slot + " not set in "@
            + options + "Builder\").into()"@
    } else {
        options + "::"@ + o.tag + " => self."@ + builder_field_name(o.tag) + ".build()"@
    }
}

/// The expression that constructs a variant with fields, of the sum type
/// `owner`, from the variables of its fields.
pub open spec fn constructor_text(o: OptionView, owner: Seq<char>) -> Seq<char> {
    if o.shape is Struct {
        owner + "::"@ + o.tag + " { "@ + field_names_list(o.fields, o.fields.len() as int) + "}"@
    } else {
        owner + "::"@ + o.tag + "("@ + field_names_list(o.fields, o.fields.len() as int) + ")"@
    }
}

/// The definition of the sub-builder of a variant with fields.
pub open spec fn variant_builder_text(o: OptionView) -> Seq<char> {
    "#[derive(Default)]\nstruct "@ + builder_type_name(o.tag) + " {\n"@ + builder_fields_block(
        o.fields,
        o.fields.len() as int,
    ) + "}\n"@
}

/// The impl that finishes the sub-builder of a variant with fields into a
/// value of the sum type `owner`.
pub open spec fn variant_builder_impl_text(o: OptionView, owner: Seq<char>) -> Seq<char> {
    "impl "@ + builder_type_name(o.tag) + " {\n    pub fn build(self) -> "@ + owner + " {\n"@
        + builder_calls_block(o.fields, builder_type_name(o.tag), o.fields.len() as int)
        + "        "@ + constructor_text(o, owner) + "\n    }\n}\n"@
}

/// All that is written for one variant: nothing for a bare tag, the
/// sub-builder and its impl otherwise.
pub open spec fn variant_text(o: OptionView, owner: Seq<char>) -> Seq<char> {
    if o.shape is Raw {
        Seq::empty()
    } else {
        variant_builder_text(o) + variant_builder_impl_text(o, owner)
    }
}

impl PickableOption {
    pub fn to_pickable_builder_field(&self) -> (r: Option<String>)
        ensures
            match r {
                Some(text) => !(self@.shape is Raw) && text@ == variant_builder_field_text(self@),
                None => self@.shape is Raw,
            },
    {
        if !self.is_sculptable() {
            return None;
        }
        let formatter = SculptFormatter::from(self.name().clone());
        let mut r = formatter.format_builder_field_name();
        r.append(": ");
        r.append(formatter.format_builder_type().as_str());
        Some(r)
    }

    pub fn to_builder_calls(&self, option_field: &str, options_type: &str) -> (r: String)
        ensures
            r@ == builder_arm_text(self@, option_field@, options_type@),
    {
        let mut r = String::from_str(options_type);
        r.append("::");
        r.append(self.name().as_str());
        r.append(" => self.");
        if self.is_sculptable() {
            let formatter = SculptFormatter::from(self.name().clone());
            r.append(formatter.format_builder_field_name().as_str());
            r.append(".build()");
        } else {
            r.append(option_field);
            r.append(".expect(\"Field ");
            r.append(option_field);
            r.append(" not set in ");
            r.append(options_type);
            r.append("Builder\").into()");
        }
        r
    }

    pub fn generate_constructor_call(&self, enum_type_ident: &str) -> (r: String)
        requires
            !(self@.shape is Raw),
        ensures
            r@ == constructor_text(self@, enum_type_ident@),
    {
        let mut r = String::from_str(enum_type_ident);
        r.append("::");
        r.append(self.name().as_str());
        match self {
            PickableOption::Struct { fields, .. } => {
                r.append(" { ");
                append_field_names(&mut r, fields);
                r.append("}");
            },
            PickableOption::Tuple { fields, .. } => {
                r.append("(");
                append_field_names(&mut r, fields);
                r.append(")");
            },
            PickableOption::Raw { .. } => {},
        }
        r
    }

    pub fn generate_builder(&self) -> (r: String)
        requires
            !(self@.shape is Raw),
        ensures
            r@ == variant_builder_text(self@),
    {
        let formatter = SculptFormatter::from(self.name().clone());
        let mut r = String::from_str("#[derive(Default)]\nstruct ");
        r.append(formatter.format_builder_type().as_str());
        r.append(" {\n");
        match self {
            PickableOption::Struct { fields, .. } => {
                append_builder_fields(&mut r, fields);
            },
            PickableOption::Tuple { fields, .. } => {
                append_builder_fields(&mut r, fields);
            },
            PickableOption::Raw { .. } => {},
        }
        r.append("}\n");
        r
    }

    pub fn generate_builder_impl(&self, enum_type_ident: &str) -> (r: String)
        requires
            !(self@.shape is Raw),
        ensures
            r@ == variant_builder_impl_text(self@, enum_type_ident@),
    {
        let formatter = SculptFormatter::from(self.name().clone());
        let builder_type = formatter.format_builder_type();
        let mut r = String::from_str("impl ");
        r.append(builder_type.as_str());
        r.append(" {\n    pub fn build(self) -> ");
        r.append(enum_type_ident);
        r.append(" {\n");
        match self {
            PickableOption::Struct { fields, .. } => {
                append_builder_calls(&mut r, fields, builder_type.as_str());
            },
            PickableOption::Tuple { fields, .. } => {
                append_builder_calls(&mut r, fields, builder_type.as_str());
            },
            PickableOption::Raw { .. } => {},
        }
        r.append("        ");
        r.append(self.generate_constructor_call(enum_type_ident).as_str());
        r.append("\n    }\n}\n");
        r
    }

    pub fn generate_variant_builder_and_impl(&self, enum_type_ident: &str) -> (r: String)
        ensures
            r@ == variant_text(self@, enum_type_ident@),
    {
        if !self.is_sculptable() {
            return String::new();
        }
        let mut r = self.generate_builder();
        r.append(self.generate_builder_impl(enum_type_ident).as_str());
        r
    }
}

/// The definition of the picker trait of a sum type.
pub open spec fn picker_trait_text(p: PickableView) -> Seq<char> {
    "pub trait "@ + picker_trait_name(p.name) + " {\n    fn options(&self) -> Vec<"@
        + options_type_name(p.name) + "> {\n        "@ + options_type_name(p.name)
        + "::VARIANTS.to_vec()\n    }\n    fn fulfill(&mut self, requirement: &"@ + options_type_name(
        p.name,
    ) + ");\n}\n"@
}

/// The places, in the builder of a sum type, of the sub-builders of the
/// first `k` variants, one per line.
pub open spec fn variant_fields_block(options: Seq<OptionView>, k: int) -> Seq<char>
    decreases k,
{
    if k <= 0 || k > options.len() {
        Seq::empty()
    } else if options[k - 1].shape is Raw {
        variant_fields_block(options, k - 1)
    } else {
        variant_fields_block(options, k - 1) + "    "@ + variant_builder_field_text(options[k - 1])
            + ",\n"@
    }
}

/// The arms that finish the first `k` variants, one per line.
pub open spec fn builder_arms_block(
    options: Seq<OptionView>,
    slot: Seq<char>,
    options_type: Seq<char>,
    k: int,
) -> Seq<char>
    decreases k,
{
    if k <= 0 || k > options.len() {
        Seq::empty()
    } else {
        builder_arms_block(options, slot, options_type, k - 1) + "            "@ + builder_arm_text(
            options[k - 1],
            slot,
            options_type,
        ) + ",\n"@
    }
}

/// All that is written for the first `k` variants of the sum type `owner`.
pub open spec fn variants_block(options: Seq<OptionView>, owner: Seq<char>, k: int) -> Seq<char>
    decreases k,
{
    if k <= 0 || k > options.len() {
        Seq::empty()
    } else {
        variants_block(options, owner, k - 1) + variant_text(options[k - 1], owner)
    }
}

/// The definition of the builder of a sum type: the slot of the chosen
/// option and one sub-builder per variant with fields.
pub open spec fn pickable_builder_text(p: PickableView) -> Seq<char> {
    "#[derive(Default)]\nstruct "@ + builder_type_name(p.name) + " {\n    "@ + option_field_name(
        p.name,
    ) + ": Option<"@ + options_type_name(p.name) + ">,\n"@ + variant_fields_block(
        p.options,
        p.options.len() as int,
    ) + "}\n"@
}

/// The impl that finishes the builder of a sum type into a value of it.
pub open spec fn pickable_builder_impl_text(p: PickableView) -> Seq<char> {
    "impl "@ + builder_type_name(p.name) + " {\n    fn build(self) -> "@ + p.name
        + " {\n        match self."@ + option_field_name(p.name) + ".unwrap() {\n"@
        + builder_arms_block(
        p.options,
        option_field_name(p.name),
        options_type_name(p.name),
        p.options.len() as int,
    ) + "        }\n    }\n}\n"@
}

/// All that is written for a sum type: its picker trait, its builder, the
/// builder's impl, and what is written for each variant.
pub open spec fn pickable_text(p: PickableView) -> Seq<char> {
    picker_trait_text(p) + pickable_builder_text(p) + pickable_builder_impl_text(p) + variants_block(
        p.options,
        p.name,
        p.options.len() as int,
    )
}

impl Pickable {
    pub fn generate_picker_trait(&self) -> (r: String)
        ensures
            r@ == picker_trait_text(self@),
    {
        let formatter = SculptFormatter::from(self.name.clone());
        let options_type = formatter.format_options_type();
        let mut r = String::from_str("pub trait ");
        r.append(formatter.format_picker_name().as_str());
        r.append(" {\n    fn options(&self) -> Vec<");
        r.append(options_type.as_str());
        r.append("> {\n        ");
        r.append(options_type.as_str());
        r.append("::VARIANTS.to_vec()\n    }\n    fn fulfill(&mut self, requirement: &");
        r.append(options_type.as_str());
        r.append(");\n}\n");
        r
    }

    pub fn generate_pickable_builder(&self) -> (r: String)
        ensures
            r@ == pickable_builder_text(self@),
    {
        let formatter = SculptFormatter::from(self.name.clone());
        let mut r = String::from_str("#[derive(Default)]\nstruct ");
        r.append(formatter.format_builder_type().as_str());
        r.append(" {\n    ");
        r.append(formatter.format_option_field().as_str());
        r.append(": Option<");
        r.append(formatter.format_options_type().as_str());
        r.append(">,\n");
        let ghost head = r@;
        let ghost ov = options_view(self.options@);
        let mut k: usize = 0;
        assert(r@ =~= head + variant_fields_block(ov, 0));
        while k < self.options.len()
            invariant
                k <= self.options.len(),
                ov == options_view(self.options@),
                r@ == head + variant_fields_block(ov, k as int),
            decreases self.options.len() - k,
        {
            match self.options[k].to_pickable_builder_field() {
                Some(field) => {
                    r.append("    ");
                    r.append(field.as_str());
                    r.append(",\n");
                },
                None => {},
            }
            assert(r@ =~= head + variant_fields_block(ov, k + 1));
            k += 1;
        }
        r.append("}\n");
        r
    }

    pub fn impl_pickable_builder(&self) -> (r: String)
        ensures
            r@ == pickable_builder_impl_text(self@),
    {
        let formatter = SculptFormatter::from(self.name.clone());
        let option_field = formatter.format_option_field();
        let options_type = formatter.format_options_type();
        let mut r = String::from_str("impl ");
        r.append(formatter.format_builder_type().as_str());
        r.append(" {\n    fn build(self) -> ");
        r.append(self.name.as_str());
        r.append(" {\n        match self.");
        r.append(option_field.as_str());
        r.append(".unwrap() {\n");
        let ghost head = r@;
        let ghost ov = options_view(self.options@);
        let mut k: usize = 0;
        assert(r@ =~= head + builder_arms_block(ov, option_field@, options_type@, 0));
        while k < self.options.len()
            invariant
                k <= self.options.len(),
                ov == options_view(self.options@),
                r@ == head + builder_arms_block(ov, option_field@, options_type@, k as int),
            decreases self.options.len() - k,
        {
            r.append("            ");
            r.append(
                self.options[k].to_builder_calls(
                    option_field.as_str(),
                    options_type.as_str(),
                ).as_str(),
            );
            r.append(",\n");
            assert(r@ =~= head + builder_arms_block(ov, option_field@, options_type@, k + 1));
            k += 1;
        }
        r.append("        }\n    }\n}\n");
        r
    }

    /// Writes all that goes with the sum type.
    pub fn generate(&self) -> (r: String)
        ensures
            r@ == pickable_text(self@),
    {
        let mut r = self.generate_picker_trait();
        r.append(self.generate_pickable_builder().as_str());
        r.append(self.impl_pickable_builder().as_str());
        let ghost head = r@;
        let ghost ov = options_view(self.options@);
        let mut k: usize = 0;
        assert(r@ =~= head + variants_block(ov, self.name@, 0));
        while k < self.options.len()
            invariant
                k <= self.options.len(),
                ov == options_view(self.options@),
                r@ == head + variants_block(ov, self.name@, k as int),
            decreases self.options.len() - k,
        {
            r.append(self.options[k].generate_variant_builder_and_impl(self.name.as_str()).as_str());
            assert(r@ =~= head + variants_block(ov, self.name@, k + 1));
            k += 1;
        }
        r
    }
}

} // verus!
