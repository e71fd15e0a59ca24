use sculpt::attribute::{
    check_alias, check_root, sculpt, sculpt_alias, AttributeError, ItemShape, VariantShape,
};

#[test]
fn sculpt_accepts_a_struct_with_fields() {
    let item = "pub struct Sheet { race: Race, class: Class }";
    assert_eq!(sculpt("", item), Ok(item.to_string()));
    assert_eq!(sculpt("", "struct Pair(A, B);"), Ok("struct Pair(A, B);".to_string()));
}

#[test]
fn sculpt_refuses_a_struct_without_fields() {
    assert_eq!(sculpt("", "struct Sheet {}"), Err(AttributeError::NoFields("Sheet".to_string())));
    assert_eq!(sculpt("", "struct Unit;"), Err(AttributeError::NoFields("Unit".to_string())));
}

#[test]
fn sculpt_is_meant_for_structs_only() {
    assert_eq!(sculpt("", "enum Class { Bard, Paladin }"), Err(AttributeError::NotAStruct));
    assert_eq!(sculpt("", "fn main() {}"), Err(AttributeError::NotAStruct));
}

#[test]
fn sculpt_reports_what_the_parser_says() {
    match sculpt("", "struct {") {
        Err(AttributeError::Syntax(message)) => assert!(!message.is_empty()),
        other => panic!("{:?}", other),
    }
    assert!(matches!(sculpt("", "Dwarf { subrace: DwarfSubrace }"), Err(AttributeError::Syntax(_))));
}

#[test]
fn sculpt_alias_accepts_structs_and_variants_with_fields() {
    let item = "struct Root { field1: Enum, field2: Enum }";
    assert_eq!(sculpt_alias("field1 => Enum1", item), Ok(item.to_string()));
    let variant = "Dwarf { subrace: DwarfSubrace }";
    assert_eq!(sculpt_alias("", variant), Ok(variant.to_string()));
    assert_eq!(sculpt_alias("", "WoodElf(Cantrip)"), Ok("WoodElf(Cantrip)".to_string()));
}

#[test]
fn sculpt_alias_refuses_what_has_no_fields() {
    assert_eq!(
        sculpt_alias("", "struct Root {}"),
        Err(AttributeError::NoFields("Root".to_string()))
    );
    assert_eq!(sculpt_alias("", "DarkElf"), Err(AttributeError::NoFields("DarkElf".to_string())));
}

#[test]
fn sculpt_alias_is_meant_for_structs_or_variants_only() {
    assert_eq!(sculpt_alias("", "enum Class { Bard }"), Err(AttributeError::NotAStructOrVariant));
    assert_eq!(sculpt_alias("", "1 + 1"), Err(AttributeError::NotAStructOrVariant));
}

#[test]
fn the_verdicts_on_shapes() {
    assert_eq!(check_root(ItemShape::Struct { name: "Sheet".to_string(), fields: 2 }), Ok(()));
    assert_eq!(
        check_root(ItemShape::Struct { name: "Sheet".to_string(), fields: 0 }),
        Err(AttributeError::NoFields("Sheet".to_string()))
    );
    assert_eq!(check_root(ItemShape::Other), Err(AttributeError::NotAStruct));
    let variant = || Some(VariantShape { name: "Dwarf".to_string(), fields: 1 });
    assert_eq!(check_alias(None, variant()), Ok(()));
    assert_eq!(check_alias(Some(ItemShape::Other), variant()), Err(AttributeError::NotAStructOrVariant));
    assert_eq!(
        check_alias(None, Some(VariantShape { name: "Dwarf".to_string(), fields: 0 })),
        Err(AttributeError::NoFields("Dwarf".to_string()))
    );
    assert_eq!(check_alias(None, None), Err(AttributeError::NotAStructOrVariant));
    assert_eq!(
        check_alias(Some(ItemShape::Struct { name: "Root".to_string(), fields: 1 }), None),
        Ok(())
    );
}
