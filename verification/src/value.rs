//! The finished value that a complete wizard collapses into.

use vstd::prelude::*;

verus! {

/// A finished value: a tree that mirrors the types that were walked along
/// the choices made.
#[derive(Debug, PartialEq, Eq)]
pub enum Value {
    /// A value that no decision of the wizard touches, of the type named.
    Opaque { ty_name: String },
    /// A value of a product type, with the names and values of its fields.
    Record { ty_name: String, names: Vec<Option<String>>, values: Vec<Value> },
    /// A value of a sum type: the chosen tag, with the names and values of
    /// the fields of that variant.
    Variant { ty_name: String, tag: String, names: Vec<Option<String>>, values: Vec<Value> },
}

/// A finished value, as plain values.
pub enum ValueView {
    Opaque { ty_name: Seq<char> },
    Record { ty_name: Seq<char>, names: Seq<Option<Seq<char>>>, values: Seq<ValueView> },
    Variant {
        ty_name: Seq<char>,
        tag: Seq<char>,
        names: Seq<Option<Seq<char>>>,
        values: Seq<ValueView>,
    },
}

/// The texts of a list of optional names.
pub open spec fn names_view(names: Seq<Option<String>>) -> Seq<Option<Seq<char>>> {
    names.map_values(|n: Option<String>| crate::field::name_view(n))
}

impl View for Value {
    type V = ValueView;

    open spec fn view(&self) -> ValueView
        decreases self,
    {
        match self {
            Value::Opaque { ty_name } => ValueView::Opaque { ty_name: ty_name@ },
            Value::Record { ty_name, names, values } => ValueView::Record {
                ty_name: ty_name@,
                names: names_view(names@),
                values: Seq::new(
                    values.len() as nat,
                    |i: int|
                        if 0 <= i < values.len() {
                            values[i]@
                        } else {
                            ValueView::Opaque { ty_name: Seq::empty() }
                        },
                ),
            },
            Value::Variant { ty_name, tag, names, values } => ValueView::Variant {
                ty_name: ty_name@,
                tag: tag@,
                names: names_view(names@),
                values: Seq::new(
                    values.len() as nat,
                    |i: int|
                        if 0 <= i < values.len() {
                            values[i]@
                        } else {
                            ValueView::Opaque { ty_name: Seq::empty() }
                        },
                ),
            },
        }
    }
}

/// The views of a list of values.
pub open spec fn values_view(values: Seq<Value>) -> Seq<ValueView> {
    Seq::new(
        values.len(),
        |i: int|
            if 0 <= i < values.len() {
                values[i]@
            } else {
                ValueView::Opaque { ty_name: Seq::empty() }
            },
    )
}

/// Why a wizard cannot be collapsed into a finished value.
#[derive(Debug, PartialEq, Eq)]
pub enum BuildError {
    /// The decision on the type named here is required and was never taken.
    Unfulfilled(String),
    /// The variant `tag` of the type `node` carries fields, and was chosen
    /// for a slot that holds a bare tag.
    PayloadVariant { node: String, tag: String },
}

/// A build error, as plain values.
pub enum BuildErrorView {
    Unfulfilled(Seq<char>),
    PayloadVariant { node: Seq<char>, tag: Seq<char> },
}

impl View for BuildError {
    type V = BuildErrorView;

    open spec fn view(&self) -> BuildErrorView {
        match *self {
            BuildError::Unfulfilled(n) => BuildErrorView::Unfulfilled(n@),
            BuildError::PayloadVariant { node, tag } => BuildErrorView::PayloadVariant {
                node: node@,
                tag: tag@,
            },
        }
    }
}

impl Value {
    /// The value of a leaf of the type named.
    pub fn opaque(ty_name: String) -> (r: Value)
        ensures
            r@ == (ValueView::Opaque { ty_name: ty_name@ }),
    {
        Value::Opaque { ty_name }
    }

    /// The value of a product type with the fields given.
    pub fn record(ty_name: String, names: Vec<Option<String>>, values: Vec<Value>) -> (r: Value)
        ensures
            r@ == (ValueView::Record {
                ty_name: ty_name@,
                names: names_view(names@),
                values: values_view(values@),
            }),
    {
        let r = Value::Record { ty_name, names, values };
        assert(r@->Record_values =~= values_view(values@));
        r
    }

    /// The value of a sum type: the tag given, with the fields given.
    pub fn variant(ty_name: String, tag: String, names: Vec<Option<String>>, values: Vec<Value>) -> (r:
        Value)
        ensures
            r@ == (ValueView::Variant {
                ty_name: ty_name@,
                tag: tag@,
                names: names_view(names@),
                values: values_view(values@),
            }),
    {
        let r = Value::Variant { ty_name, tag, names, values };
        assert(r@->Variant_values =~= values_view(values@));
        r
    }
}

} // verus!
