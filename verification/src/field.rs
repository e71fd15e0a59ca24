//! A field of a declared type: its name, the type it refers to, and whether
//! that type brings decisions of its own.

use vstd::prelude::*;
use vstd::string::StringExecFns;
use crate::format::{
    builder_field_name, builder_type_name, lowercase, options_type_name, to_lowercase,
    SculptFormatter,
};

verus! {

/// What a field is, as plain values.
pub struct FieldView {
    pub name: Option<Seq<char>>,
    pub ty_name: Seq<char>,
    pub expandable: bool,
}

/// The text of an optional name.
pub open spec fn name_view(name: Option<String>) -> Option<Seq<char>> {
    match name {
        Some(n) => Some(n@),
        None => None,
    }
}

/// Name of the slot or variable that stands for the field: the field's own
/// name where it has one, the name of its type otherwise, in lower case.
pub open spec fn slot_name(f: FieldView) -> Seq<char> {
    match f.name {
        Some(n) => lowercase(n),
        None => lowercase(f.ty_name),
    }
}

/// The line that declares the field's place in a builder: a nested
/// sub-builder for an expandable field, an empty-or-chosen slot otherwise.
pub open spec fn builder_field_text(f: FieldView) -> Seq<char> {
    if f.expandable {
        builder_field_name(f.ty_name) + ": "@ + builder_type_name(f.ty_name)
    } else {
        slot_name(f) + ": Option<"@ + options_type_name(f.ty_name) + ">"@
    }
}

/// The line that gives the field's place in a builder its first value.
pub open spec fn field_initializer_text(f: FieldView) -> Seq<char> {
    if f.expandable {
        builder_field_name(f.ty_name) + ": "@ + builder_type_name(f.ty_name) + "::default()"@
    } else {
        slot_name(f) + ": None"@
    }
}

/// The statement that turns the field's place in the builder `builder` into
/// the field's finished value.
pub open spec fn builder_call_text(f: FieldView, builder: Seq<char>) -> Seq<char> {
    if f.expandable {
        "let "@ + slot_name(f) + " = self."@ + builder_field_name(f.ty_name) + ".build()"@
    } else {
        "let "@ + slot_name(f) + " = self."@ + slot_name(f) + ".expect(\"Field "@ + slot_name(f)
            + " not set in "@ + builder + ".\").into()"@
    }
}

/// The fields of a list, each as plain values.
pub open spec fn fields_view(fields: Seq<Field>) -> Seq<FieldView> {
    fields.map_values(|f: Field| f@)
}

/// A field of a product type or of a variant.
pub struct Field {
    name: Option<String>,
    ty_name: String,
    sculpt: bool,
}

impl View for Field {
    type V = FieldView;

    closed spec fn view(&self) -> FieldView {
        FieldView { name: name_view(self.name), ty_name: self.ty_name@, expandable: self.sculpt }
    }
}

impl Clone for Field {
    fn clone(&self) -> (r: Field)
        ensures
            r@ == self@,
    {
        Field { name: self.name.clone(), ty_name: self.ty_name.clone(), sculpt: self.sculpt }
    }
}

impl Field {
    /// A field whose value is one plain decision.
    pub fn pick(name: Option<String>, ty_name: String) -> (r: Field)
        ensures
            r@ == (FieldView { name: name_view(name), ty_name: ty_name@, expandable: false }),
    {
        Field { name, ty_name, sculpt: false }
    }

    /// A field whose type has decisions of its own and so gets a sub-builder.
    pub fn sculpt(name: Option<String>, ty_name: String) -> (r: Field)
        ensures
            r@ == (FieldView { name: name_view(name), ty_name: ty_name@, expandable: true }),
    {
        Field { name, ty_name, sculpt: true }
    }

    pub fn name(&self) -> (r: Option<&String>)
        ensures
            match r {
                Some(n) => self@.name == Some(n@),
                None => self@.name is None,
            },
    {
        self.name.as_ref()
    }

    pub fn ty_name(&self) -> (r: &String)
        ensures
            r@ == self@.ty_name,
    {
        &self.ty_name
    }

    pub fn is_sculpt(&self) -> (r: bool)
        ensures
            r == self@.expandable,
    {
        self.sculpt
    }

    pub fn format_field_name(&self) -> (r: String)
        ensures
            r@ == slot_name(self@),
    {
        match &self.name {
            Some(n) => to_lowercase(n.as_str()),
            None => to_lowercase(self.ty_name.as_str()),
        }
    }

    pub fn format_type(&self) -> (r: String)
        ensures
            r@ == self@.ty_name,
    {
        self.ty_name.clone()
    }

    pub fn to_builder_field(&self) -> (r: String)
        ensures
            r@ == builder_field_text(self@),
    {
        let formatter = SculptFormatter::from(self.ty_name.clone());
        if self.sculpt {
            let mut r = formatter.format_builder_field_name();
            r.append(": ");
            r.append(formatter.format_builder_type().as_str());
            r
        } else {
            let mut r = self.format_field_name();
            r.append(": Option<");
            r.append(formatter.format_options_type().as_str());
            r.append(">");
            r
        }
    }

    pub fn tokenize_field_initializer(&self) -> (r: String)
        ensures
            r@ == field_initializer_text(self@),
    {
        if self.sculpt {
            let formatter = SculptFormatter::from(self.ty_name.clone());
            let mut r = formatter.format_builder_field_name();
            r.append(": ");
            r.append(formatter.format_builder_type().as_str());
            r.append("::default()");
            r
        } else {
            let mut r = self.format_field_name();
            r.append(": None");
            r
        }
    }

    pub fn to_builder_call(&self, builder_type: &str) -> (r: String)
        ensures
            r@ == builder_call_text(self@, builder_type@),
    {
        let variable = self.format_field_name();
        let mut r = String::from_str("let ");
        r.append(variable.as_str());
        r.append(" = self.");
        if self.sculpt {
            let formatter = SculptFormatter::from(self.ty_name.clone());
            r.append(formatter.format_builder_field_name().as_str());
            r.append(".build()");
        } else {
            r.append(variable.as_str());
            r.append(".expect(\"Field ");
            r.append(variable.as_str());
            r.append(" not set in ");
            r.append(builder_type);
            r.append(".\").into()");
        }
        r
    }
}

/// The declarations of the places of the first `k` fields in a builder, one
/// per line.
pub open spec fn builder_fields_block(fields: Seq<FieldView>, k: int) -> Seq<char>
    decreases k,
{
    if k <= 0 || k > fields.len() {
        Seq::empty()
    } else {
        builder_fields_block(fields, k - 1) + "    "@ + builder_field_text(fields[k - 1]) + ",\n"@
    }
}

/// The first values of the places of the first `k` fields in a builder, one
/// per line.
pub open spec fn field_initializers_block(fields: Seq<FieldView>, k: int) -> Seq<char>
    decreases k,
{
    if k <= 0 || k > fields.len() {
        Seq::empty()
    } else {
        field_initializers_block(fields, k - 1) + "            "@ + field_initializer_text(
            fields[k - 1],
        ) + ",\n"@
    }
}

/// The statements that finish the first `k` fields out of the builder
/// `builder`, one per line.
pub open spec fn builder_calls_block(fields: Seq<FieldView>, builder: Seq<char>, k: int) -> Seq<char>
    decreases k,
{
    if k <= 0 || k > fields.len() {
        Seq::empty()
    } else {
        builder_calls_block(fields, builder, k - 1) + "        "@ + builder_call_text(
            fields[k - 1],
            builder,
        ) + ";\n"@
    }
}

/// The names of the variables of the first `k` fields, each followed by a
/// comma.
pub open spec fn field_names_list(fields: Seq<FieldView>, k: int) -> Seq<char>
    decreases k,
{
    if k <= 0 || k > fields.len() {
        Seq::empty()
    } else {
        field_names_list(fields, k - 1) + slot_name(fields[k - 1]) + ", "@
    }
}

/// Copies a list of fields.
pub fn clone_fields(fields: &Vec<Field>) -> (r: Vec<Field>)
    ensures
        fields_view(r@) == fields_view(fields@),
{
    let mut r: Vec<Field> = Vec::new();
    let mut i: usize = 0;
    while i < fields.len()
        invariant
            i <= fields.len(),
            r.len() == i,
            forall|k: int| 0 <= k < i ==> r[k]@ == fields[k]@,
        decreases fields.len() - i,
    {
        r.push(fields[i].clone());
        i += 1;
    }
    assert(fields_view(r@) =~= fields_view(fields@));
    r
}

/// Appends the declarations of the fields' places in a builder.
pub fn append_builder_fields(out: &mut String, fields: &Vec<Field>)
    ensures
        final(out)@ == old(out)@ + builder_fields_block(fields_view(fields@), fields.len() as int),
{
    let ghost head = out@;
    let ghost fv = fields_view(fields@);
    let mut k: usize = 0;
    assert(out@ =~= head + builder_fields_block(fv, 0));
    while k < fields.len()
        invariant
            k <= fields.len(),
            fv == fields_view(fields@),
            out@ == head + builder_fields_block(fv, k as int),
        decreases fields.len() - k,
    {
        let ghost before = out@;
        out.append("    ");
        out.append(fields[k].to_builder_field().as_str());
        out.append(",\n");
        assert(out@ =~= head + builder_fields_block(fv, k + 1));
        k += 1;
    }
}

/// Appends the first values of the fields' places in a builder.
pub fn append_field_initializers(out: &mut String, fields: &Vec<Field>)
    ensures
        final(out)@ == old(out)@ + field_initializers_block(
            fields_view(fields@),
            fields.len() as int,
        ),
{
    let ghost head = out@;
    let ghost fv = fields_view(fields@);
    let mut k: usize = 0;
    assert(out@ =~= head + field_initializers_block(fv, 0));
    while k < fields.len()
        invariant
            k <= fields.len(),
            fv == fields_view(fields@),
            out@ == head + field_initializers_block(fv, k as int),
        decreases fields.len() - k,
    {
        out.append("            ");
        out.append(fields[k].tokenize_field_initializer().as_str());
        out.append(",\n");
        assert(out@ =~= head + field_initializers_block(fv, k + 1));
        k += 1;
    }
}

/// Appends the statements that finish the fields out of the builder named.
pub fn append_builder_calls(out: &mut String, fields: &Vec<Field>, builder: &str)
    ensures
        final(out)@ == old(out)@ + builder_calls_block(
            fields_view(fields@),
            builder@,
            fields.len() as int,
        ),
{
    let ghost head = out@;
    let ghost fv = fields_view(fields@);
    let mut k: usize = 0;
    assert(out@ =~= head + builder_calls_block(fv, builder@, 0));
    while k < fields.len()
        invariant
            k <= fields.len(),
            fv == fields_view(fields@),
            out@ == head + builder_calls_block(fv, builder@, k as int),
        decreases fields.len() - k,
    {
        out.append("        ");
        out.append(fields[k].to_builder_call(builder).as_str());
        out.append(";\n");
        assert(out@ =~= head + builder_calls_block(fv, builder@, k + 1));
        k += 1;
    }
}

/// Appends the names of the fields' variables.
pub fn append_field_names(out: &mut String, fields: &Vec<Field>)
    ensures
        final(out)@ == old(out)@ + field_names_list(fields_view(fields@), fields.len() as int),
{
    let ghost head = out@;
    let ghost fv = fields_view(fields@);
    let mut k: usize = 0;
    assert(out@ =~= head + field_names_list(fv, 0));
    while k < fields.len()
        invariant
            k <= fields.len(),
            fv == fields_view(fields@),
            out@ == head + field_names_list(fv, k as int),
        decreases fields.len() - k,
    {
        out.append(fields[k].format_field_name().as_str());
        out.append(", ");
        assert(out@ =~= head + field_names_list(fv, k + 1));
        k += 1;
    }
}

} // verus!
