//! Names of the items that the generator writes for one declared type.

use vstd::prelude::*;
use vstd::string::StringExecFns;

verus! {

/// The lower-case form of a text, as `str::to_lowercase` of the standard
/// library gives it.
pub uninterp spec fn lowercase(s: Seq<char>) -> Seq<char>;

/// Calls `str::to_lowercase`. The result is the lower-case form of the
/// argument, which depends on the argument alone; nothing else is claimed.
#[verifier::external_body]
pub(crate) fn to_lowercase(s: &str) -> (r: String)
    ensures
        r@ == lowercase(s@),
{
    s.to_lowercase()
}

/// Name of the builder type of the declared type `name`.
pub open spec fn builder_type_name(name: Seq<char>) -> Seq<char> {
    name + "Builder"@
}

/// Name of the options enumeration of the declared type `name`.
pub open spec fn options_type_name(name: Seq<char>) -> Seq<char> {
    name + "Options"@
}

/// Name of the picker trait of the declared type `name`.
pub open spec fn picker_trait_name(name: Seq<char>) -> Seq<char> {
    name + "Picker"@
}

/// Name of the field that holds the sub-builder of the declared type `name`.
pub open spec fn builder_field_name(name: Seq<char>) -> Seq<char> {
    lowercase(name) + "_builder"@
}

/// Name of the slot that holds the option chosen for the declared type `name`.
pub open spec fn option_field_name(name: Seq<char>) -> Seq<char> {
    lowercase(name)
}

/// Name of the callback method that decides the declared type `name`.
pub open spec fn pick_method_name(name: Seq<char>) -> Seq<char> {
    "pick_"@ + lowercase(name)
}

/// Name of the callbacks trait that goes with the builder type `builder`.
pub open spec fn callbacks_trait_name(builder: Seq<char>) -> Seq<char> {
    builder + "Callbacks"@
}

/// Formats the names derived from one declared type name.
pub struct SculptFormatter(String);

impl View for SculptFormatter {
    type V = Seq<char>;

    closed spec fn view(&self) -> Seq<char> {
        self.0@
    }
}

impl From<String> for SculptFormatter {
    fn from(value: String) -> (r: SculptFormatter)
        ensures
            r@ == value@,
    {
        SculptFormatter(value)
    }
}

impl vstd::std_specs::convert::FromSpecImpl<String> for SculptFormatter {
    open spec fn obeys_from_spec() -> bool {
        true
    }

    closed spec fn from_spec(value: String) -> SculptFormatter {
        SculptFormatter(value)
    }
}

impl SculptFormatter {
    pub fn format_builder_type(&self) -> (r: String)
        ensures
            r@ == builder_type_name(self@),
    {
        self.0.clone().concat("Builder")
    }

    pub fn format_options_type(&self) -> (r: String)
        ensures
            r@ == options_type_name(self@),
    {
        self.0.clone().concat("Options")
    }

    pub fn format_picker_name(&self) -> (r: String)
        ensures
            r@ == picker_trait_name(self@),
    {
        self.0.clone().concat("Picker")
    }

    pub fn format_builder_field_name(&self) -> (r: String)
        ensures
            r@ == builder_field_name(self@),
    {
        to_lowercase(self.0.as_str()).concat("_builder")
    }

    pub fn format_option_field(&self) -> (r: String)
        ensures
            r@ == option_field_name(self@),
    {
        to_lowercase(self.0.as_str())
    }

    pub fn format_pick_method(&self) -> (r: String)
        ensures
            r@ == pick_method_name(self@),
    {
        let mut r = String::from_str("pick_");
        r.append(to_lowercase(self.0.as_str()).as_str());
        r
    }

    pub fn format_type(&self) -> (r: String)
        ensures
            r@ == self@,
    {
        self.0.clone()
    }
}

} // verus!
