//! The two marker attributes: `sculpt`, which marks the root struct, and
//! `sculpt_alias`, which marks a struct or a variant whose fields get
//! aliases. Both check what they are put on and hand it back unchanged.

use vstd::prelude::*;
use vstd::string::StringExecFns;

verus! {

/// The error of the `syn` parser. Nothing is known of a value of it but
/// what the wrappers below say.
#[verifier::external_type_specification]
#[verifier::external_body]
pub struct ExSynError(syn::Error);

/// What an item is, as far as the attributes look at it.
pub enum ItemShape {
    /// A struct, with its name and the number of its fields.
    Struct { name: String, fields: usize },
    /// Any other item.
    Other,
}

/// An item's shape, as plain values.
pub enum ItemShapeView {
    Struct { name: Seq<char>, fields: usize },
    Other,
}

impl View for ItemShape {
    type V = ItemShapeView;

    open spec fn view(&self) -> ItemShapeView {
        match *self {
            ItemShape::Struct { name, fields } => ItemShapeView::Struct { name: name@, fields },
            ItemShape::Other => ItemShapeView::Other,
        }
    }
}

/// What a variant is, as far as the attributes look at it: its name and the
/// number of its fields.
pub struct VariantShape {
    pub name: String,
    pub fields: usize,
}

/// A variant's shape, as plain values.
pub struct VariantShapeView {
    pub name: Seq<char>,
    pub fields: usize,
}

impl View for VariantShape {
    type V = VariantShapeView;

    open spec fn view(&self) -> VariantShapeView {
        VariantShapeView { name: self.name@, fields: self.fields }
    }
}

/// Calls `syn::parse_str::<syn::Item>` and takes the shape of the item that
/// it gives: for a struct `ident.to_string()` and `fields.len()`. Which
/// texts the parser accepts is its own matter, and the lexer it goes by
/// depends on whether the process runs inside a procedural macro: nothing is
/// claimed of the outcome.
#[verifier::external_body]
fn parse_item_shape(text: &str) -> Result<ItemShape, syn::Error> {
    match syn::parse_str::<syn::Item>(text) {
        Ok(syn::Item::Struct(s)) => Ok(
            ItemShape::Struct { name: s.ident.to_string(), fields: s.fields.len() },
        ),
        Ok(_) => Ok(ItemShape::Other),
        Err(e) => Err(e),
    }
}

/// Calls `syn::parse_str::<syn::Variant>` and takes the shape of the variant
/// that it gives: `ident.to_string()` and `fields.len()`. Nothing is claimed
/// of the outcome.
#[verifier::external_body]
fn parse_variant_shape(text: &str) -> Result<VariantShape, syn::Error> {
    match syn::parse_str::<syn::Variant>(text) {
        Ok(v) => Ok(VariantShape { name: v.ident.to_string(), fields: v.fields.len() }),
        Err(e) => Err(e),
    }
}

/// Calls `to_string` on the parser's error: the message that the parser
/// gives. Nothing is claimed of the message.
#[verifier::external_body]
fn syntax_message(error: &syn::Error) -> String {
    error.to_string()
}

/// Why an attribute refuses what it is put on.
#[derive(Debug, PartialEq, Eq)]
pub enum AttributeError {
    /// The text is no item; the parser's message says why.
    Syntax(String),
    /// `sculpt` is put on an item that is no struct.
    NotAStruct,
    /// `sculpt_alias` is put on what is neither a struct nor a variant.
    NotAStructOrVariant,
    /// The struct or variant named here has no fields.
    NoFields(String),
}

/// The verdict of an attribute, as plain values; the parser's message is
/// left out.
pub enum Verdict {
    Accepted,
    Syntax,
    NotAStruct,
    NotAStructOrVariant,
    NoFields(Seq<char>),
}

/// The verdict of `sculpt` on an item: a struct with a field is accepted.
pub open spec fn root_verdict(shape: ItemShapeView) -> Verdict {
    match shape {
        ItemShapeView::Struct { name, fields } => if fields == 0 {
            Verdict::NoFields(name)
        } else {
            Verdict::Accepted
        },
        ItemShapeView::Other => Verdict::NotAStruct,
    }
}

/// The verdict of `sculpt_alias`: what reads as an item has to be a struct
/// with a field; what reads as no item but as a variant has to have a
/// field; anything else is refused.
pub open spec fn alias_verdict(
    item: Option<ItemShapeView>,
    variant: Option<VariantShapeView>,
) -> Verdict {
    match item {
        Some(ItemShapeView::Struct { name, fields }) => if fields == 0 {
            Verdict::NoFields(name)
        } else {
            Verdict::Accepted
        },
        Some(ItemShapeView::Other) => Verdict::NotAStructOrVariant,
        None => match variant {
            Some(v) => if v.fields == 0 {
                Verdict::NoFields(v.name)
            } else {
                Verdict::Accepted
            },
            None => Verdict::NotAStructOrVariant,
        },
    }
}

/// What a result says, as a verdict.
pub open spec fn verdict_of(r: Result<(), AttributeError>) -> Verdict {
    match r {
        Ok(_) => Verdict::Accepted,
        Err(AttributeError::Syntax(_)) => Verdict::Syntax,
        Err(AttributeError::NotAStruct) => Verdict::NotAStruct,
        Err(AttributeError::NotAStructOrVariant) => Verdict::NotAStructOrVariant,
        Err(AttributeError::NoFields(n)) => Verdict::NoFields(n@),
    }
}

/// Judges the item that `sculpt` is put on.
pub fn check_root(shape: ItemShape) -> (r: Result<(), AttributeError>)
    ensures
        verdict_of(r) == root_verdict(shape@),
{
    match shape {
        ItemShape::Struct { name, fields } => {
            if fields == 0 {
                Err(AttributeError::NoFields(name))
            } else {
                Ok(())
            }
        },
        ItemShape::Other => Err(AttributeError::NotAStruct),
    }
}

/// Judges what `sculpt_alias` is put on, read as an item and, where it is
/// none, as a variant.
pub fn check_alias(item: Option<ItemShape>, variant: Option<VariantShape>) -> (r: Result<
    (),
    AttributeError,
>)
    ensures
        verdict_of(r) == alias_verdict(
            match item {
                Some(i) => Some(i@),
                None => None,
            },
            match variant {
                Some(v) => Some(v@),
                None => None,
            },
        ),
{
    match item {
        Some(ItemShape::Struct { name, fields }) => {
            if fields == 0 {
                Err(AttributeError::NoFields(name))
            } else {
                Ok(())
            }
        },
        Some(ItemShape::Other) => Err(AttributeError::NotAStructOrVariant),
        None => match variant {
            Some(v) => {
                if v.fields == 0 {
                    Err(AttributeError::NoFields(v.name))
                } else {
                    Ok(())
                }
            },
            None => Err(AttributeError::NotAStructOrVariant),
        },
    }
}

/// The attribute that marks the root: reads the item, accepts a struct with
/// at least one field as `check_root` says, and hands the item back as it
/// is. A text that the parser does not read as an item is refused with the
/// parser's message.
pub fn sculpt(attr: &str, item: &str) -> (r: Result<String, AttributeError>)
    ensures
        r is Ok ==> r->Ok_0@ == item@,
        r is Err ==> !(r->Err_0 is NotAStructOrVariant),
{
    match parse_item_shape(item) {
        Err(e) => Err(AttributeError::Syntax(syntax_message(&e))),
        Ok(shape) => match check_root(shape) {
            Ok(_) => Ok(String::from_str(item)),
            Err(e) => Err(e),
        },
    }
}

/// The attribute that marks a target of aliases: reads what it is put on as
/// an item and, where that fails, as a variant, accepts a struct or a
/// variant with at least one field as `check_alias` says, and hands it back
/// as it is.
pub fn sculpt_alias(attr: &str, field_or_variant: &str) -> (r: Result<String, AttributeError>)
    ensures
        r is Ok ==> r->Ok_0@ == field_or_variant@,
        r is Err ==> !(r->Err_0 is Syntax) && !(r->Err_0 is NotAStruct),
{
    let item = match parse_item_shape(field_or_variant) {
        Ok(shape) => Some(shape),
        Err(_) => None,
    };
    let variant = if item.is_none() {
        match parse_variant_shape(field_or_variant) {
            Ok(shape) => Some(shape),
            Err(_) => None,
        }
    } else {
        None
    };
    match check_alias(item, variant) {
        Ok(_) => Ok(String::from_str(field_or_variant)),
        Err(e) => Err(e),
    }
}

} // verus!
