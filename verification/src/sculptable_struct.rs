//! Product types: a type with fields, one of which may be the root that the
//! wizard constructs.

use vstd::prelude::*;
use vstd::string::StringExecFns;
use crate::field::{
    append_builder_calls, append_builder_fields, append_field_initializers, append_field_names,
    builder_calls_block, builder_fields_block, clone_fields, field_initializers_block,
    field_names_list, fields_view, Field, FieldView,
};
use crate::format::{builder_type_name, callbacks_trait_name, pick_method_name, SculptFormatter};

verus! {

/// What a product type is, as plain values.
pub struct StructView {
    pub root: bool,
    pub name: Seq<char>,
    pub fields: Seq<FieldView>,
}

/// A product type.
pub struct SculptableStruct {
    pub root: bool,
    pub name: String,
    pub fields: Vec<Field>,
}

impl View for SculptableStruct {
    type V = StructView;

    open spec fn view(&self) -> StructView {
        StructView { root: self.root, name: self.name@, fields: fields_view(self.fields@) }
    }
}

impl Clone for SculptableStruct {
    fn clone(&self) -> (r: SculptableStruct)
        ensures
            r@ == self@,
    {
        SculptableStruct {
            root: self.root,
            name: self.name.clone(),
            fields: clone_fields(&self.fields),
        }
    }
}

impl SculptableStruct {
    /// A product type without fields yet.
    pub fn new(name: String, root: bool) -> (r: SculptableStruct)
        ensures
            r@ == (StructView { root, name: name@, fields: Seq::empty() }),
    {
        let r = SculptableStruct { root, name, fields: Vec::new() };
        assert(r@.fields =~= Seq::empty());
        r
    }

    pub fn add_field(&mut self, field: Field)
        ensures
            final(self)@ == (StructView { fields: old(self)@.fields.push(field@), ..old(self)@ }),
    {
        self.fields.push(field);
        assert(fields_view(self.fields@) =~= fields_view(old(self).fields@).push(field@));
    }
}

/// The definition of the builder of a product type that is not the root,
/// and the impl that collapses it into a value of the type.
pub open spec fn struct_builder_text(s: StructView) -> Seq<char> {
    "#[derive(Default)]\nstruct "@ + builder_type_name(s.name) + " {\n"@ + builder_fields_block(
        s.fields,
        s.fields.len() as int,
    ) + "}\n\nimpl "@ + builder_type_name(s.name) + " {\n    pub fn build(self) -> "@ + s.name
        + " {\n"@ + builder_calls_block(s.fields, builder_type_name(s.name), s.fields.len() as int)
        + "        "@ + s.name + " { "@ + field_names_list(s.fields, s.fields.len() as int)
        + "}\n    }\n}\n"@
}

/// The entry operation on the root type: build a value of it by driving
/// the wizard against callbacks.
pub open spec fn root_build_impl_text(s: StructView) -> Seq<char> {
    "impl "@ + s.name + " {\n    pub fn build<T: "@ + callbacks_trait_name(builder_type_name(s.name))
        + ">(t: &mut T) -> "@ + s.name + " {\n        "@ + builder_type_name(s.name)
        + "::<T>::new(t).build()\n    }\n}\n"@
}

/// The name of the callback that decides the root's first field.
pub open spec fn first_pick_method(s: StructView) -> Seq<char> {
    pick_method_name(s.fields[0].ty_name)
}

/// The definition of the root's builder and its impl: the constructor, and
/// the operation that triggers the first decision and then collapses the
/// fields into the root value.
pub open spec fn root_builder_text(s: StructView) -> Seq<char> {
    "pub struct "@ + builder_type_name(s.name) + "<'a, T: "@ + callbacks_trait_name(
        builder_type_name(s.name),
    ) + "> {\n"@ + builder_fields_block(s.fields, s.fields.len() as int)
        + "    callbacks: &'a T,\n}\n\nimpl<'a, T: "@ + callbacks_trait_name(
        builder_type_name(s.name),
    ) + "> "@ + builder_type_name(s.name) + "<'a, T> {\n    pub fn new(t: &'a mut T) -> "@
        + builder_type_name(s.name) + "<'a, T> {\n        "@ + builder_type_name(s.name) + " {\n"@
        + field_initializers_block(s.fields, s.fields.len() as int)
        + "            callbacks: t,\n        }\n    }\n\n    pub fn build(mut self) -> "@ + s.name
        + " {\n        self.callbacks."@ + first_pick_method(s)
        + "(&mut self);\n        while self.ask_pending() {}\n"@ + builder_calls_block(
        s.fields,
        s.name,
        s.fields.len() as int,
    ) + "        "@ + s.name
        + " { "@ + field_names_list(s.fields, s.fields.len() as int) + "}\n    }\n}\n"@
}

/// All that is written for a product type: for the root its builder and the
/// entry operation, for another product type its builder.
pub open spec fn struct_text(s: StructView) -> Seq<char> {
    if s.root {
        root_builder_text(s) + root_build_impl_text(s)
    } else {
        struct_builder_text(s)
    }
}

impl SculptableStruct {
    pub fn first_field_pick_method(&self) -> (r: String)
        requires
            self.fields.len() > 0,
        ensures
            r@ == first_pick_method(self@),
    {
        SculptFormatter::from(self.fields[0].ty_name().clone()).format_pick_method()
    }

    pub fn generate_builder(&self) -> (r: String)
        ensures
            r@ == struct_builder_text(self@),
    {
        let builder = SculptFormatter::from(self.name.clone()).format_builder_type();
        let mut r = String::from_str("#[derive(Default)]\nstruct ");
        r.append(builder.as_str());
        r.append(" {\n");
        append_builder_fields(&mut r, &self.fields);
        r.append("}\n\nimpl ");
        r.append(builder.as_str());
        r.append(" {\n    pub fn build(self) -> ");
        r.append(self.name.as_str());
        r.append(" {\n");
        append_builder_calls(&mut r, &self.fields, builder.as_str());
        r.append("        ");
        r.append(self.name.as_str());
        r.append(" { ");
        append_field_names(&mut r, &self.fields);
        r.append("}\n    }\n}\n");
        r
    }

    pub fn generate_root_struct_build_impl(&self) -> (r: String)
        ensures
            r@ == root_build_impl_text(self@),
    {
        let builder = SculptFormatter::from(self.name.clone()).format_builder_type();
        let mut r = String::from_str("impl ");
        r.append(self.name.as_str());
        r.append(" {\n    pub fn build<T: ");
        r.append(builder.as_str());
        r.append("Callbacks");
        r.append(">(t: &mut T) -> ");
        r.append(self.name.as_str());
        r.append(" {\n        ");
        r.append(builder.as_str());
        r.append("::<T>::new(t).build()\n    }\n}\n");
        proof {
            assert(r@ =~= root_build_impl_text(self@));
        }
        r
    }

    pub fn generate_root_builder(&self) -> (r: String)
        requires
            self.fields.len() > 0,
        ensures
            r@ == root_builder_text(self@),
    {
        let builder = SculptFormatter::from(self.name.clone()).format_builder_type();
        let mut r = String::from_str("pub struct ");
        r.append(builder.as_str());
        r.append("<'a, T: ");
        r.append(builder.as_str());
        r.append("Callbacks");
        r.append("> {\n");
        append_builder_fields(&mut r, &self.fields);
        r.append("    callbacks: &'a T,\n}\n\nimpl<'a, T: ");
        r.append(builder.as_str());
        r.append("Callbacks");
        r.append("> ");
        r.append(builder.as_str());
        r.append("<'a, T> {\n    pub fn new(t: &'a mut T) -> ");
        r.append(builder.as_str());
        r.append("<'a, T> {\n        ");
        r.append(builder.as_str());
        r.append(" {\n");
        append_field_initializers(&mut r, &self.fields);
        r.append("            callbacks: t,\n        }\n    }\n\n    pub fn build(mut self) -> ");
        r.append(self.name.as_str());
        r.append(" {\n        self.callbacks.");
        r.append(self.first_field_pick_method().as_str());
        r.append("(&mut self);\n        while self.ask_pending() {}\n");
        append_builder_calls(&mut r, &self.fields, self.name.as_str());
        r.append("        ");
        r.append(self.name.as_str());
        r.append(" { ");
        append_field_names(&mut r, &self.fields);
        r.append("}\n    }\n}\n");
        proof {
            assert(r@ =~= root_builder_text(self@));
        }
        r
    }

    /// Writes all that goes with the product type.
    pub fn generate(&self) -> (r: String)
        requires
            self.root ==> self.fields.len() > 0,
        ensures
            r@ == struct_text(self@),
    {
        if self.root {
            let mut r = self.generate_root_builder();
            r.append(self.generate_root_struct_build_impl().as_str());
            r
        } else {
            self.generate_builder()
        }
    }
}

/// Writes the builder of a product type that is not the root.
pub fn generate_builder(sculptable: &SculptableStruct) -> (r: String)
    ensures
        r@ == struct_builder_text(sculptable@),
{
    sculptable.generate_builder()
}

/// Writes the builder of the root and its impl.
pub fn generate_root_builder(sculptable: &SculptableStruct) -> (r: String)
    requires
        sculptable.fields.len() > 0,
    ensures
        r@ == root_builder_text(sculptable@),
{
    sculptable.generate_root_builder()
}

/// Writes the entry operation on the root type.
pub fn generate_root_struct_build_impl(sculptable: &SculptableStruct) -> (r: String)
    ensures
        r@ == root_build_impl_text(sculptable@),
{
    sculptable.generate_root_struct_build_impl()
}

} // verus!
