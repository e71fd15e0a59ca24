use sculpt::graph::GraphError;
use sculpt::syntax::{
    build_pickable, build_sculptable, field_has_sculpt_attribute, map_syn_field,
    variant_to_pickable_option, RawField, RawFields, RawType, RawVariant,
};

fn field(name: Option<&str>, attributes: &[&str], ty: &str) -> RawField {
    RawField {
        name: name.map(|n| n.to_string()),
        attributes: attributes.iter().map(|a| a.to_string()).collect(),
        ty: RawType::Ident(ty.to_string()),
    }
}

#[test]
fn the_marker_makes_a_field_expandable() {
    assert!(field_has_sculpt_attribute(&field(Some("race"), &["sculptable"], "Race")));
    assert!(field_has_sculpt_attribute(&field(Some("race"), &["doc", "sculptable"], "Race")));
    assert!(!field_has_sculpt_attribute(&field(Some("race"), &["doc", "Sculptable"], "Race")));
    assert!(!field_has_sculpt_attribute(&field(Some("race"), &[], "Race")));
}

#[test]
fn a_written_field_maps_into_the_model() {
    let plain = map_syn_field(&field(Some("class"), &[], "Class")).ok().unwrap();
    assert_eq!(plain.name(), Some(&"class".to_string()));
    assert_eq!(plain.ty_name(), "Class");
    assert!(!plain.is_sculpt());
    let marked = map_syn_field(&field(None, &["sculptable"], "Race")).ok().unwrap();
    assert_eq!(marked.name(), None);
    assert!(marked.is_sculpt());
}

#[test]
fn a_field_of_another_kind_of_type_is_refused() {
    let reference =
        RawField { name: Some("class".to_string()), attributes: vec![], ty: RawType::Unsupported };
    assert_eq!(
        map_syn_field(&reference).err(),
        Some(GraphError::InvalidFieldShape("class".to_string()))
    );
    let nameless = RawField { name: None, attributes: vec![], ty: RawType::Unsupported };
    assert_eq!(map_syn_field(&nameless).err(), Some(GraphError::InvalidFieldShape(String::new())));
}

#[test]
fn a_struct_with_named_fields_is_a_product_type() {
    let fields = RawFields::Named(vec![
        field(Some("race"), &["sculptable"], "Race"),
        field(Some("class"), &[], "Class"),
    ]);
    let sheet = build_sculptable("Sheet".to_string(), &fields, true).ok().unwrap();
    assert!(sheet.root);
    assert_eq!(sheet.name, "Sheet");
    assert_eq!(sheet.fields.len(), 2);
    assert!(sheet.fields[0].is_sculpt());
    assert_eq!(sheet.fields[1].ty_name(), "Class");
    let other = build_sculptable("Other".to_string(), &RawFields::Named(vec![]), false).ok().unwrap();
    assert!(!other.root);
    assert!(other.fields.is_empty());
}

#[test]
fn a_struct_without_named_fields_is_refused() {
    let tuple = RawFields::Unnamed(vec![field(None, &[], "Class")]);
    assert_eq!(
        build_sculptable("Sheet".to_string(), &tuple, true).err(),
        Some(GraphError::InvalidFieldShape("Sheet".to_string()))
    );
    assert_eq!(
        build_sculptable("Sheet".to_string(), &RawFields::Unit, true).err(),
        Some(GraphError::InvalidFieldShape("Sheet".to_string()))
    );
    let broken = RawFields::Named(vec![
        field(Some("class"), &[], "Class"),
        RawField { name: Some("age".to_string()), attributes: vec![], ty: RawType::Unsupported },
    ]);
    assert_eq!(
        build_sculptable("Sheet".to_string(), &broken, true).err(),
        Some(GraphError::InvalidFieldShape("age".to_string()))
    );
}

#[test]
fn variants_keep_their_shape() {
    let dwarf = RawVariant {
        name: "Dwarf".to_string(),
        fields: RawFields::Named(vec![field(Some("subrace"), &[], "DwarfSubrace")]),
    };
    let wood_elf = RawVariant {
        name: "WoodElf".to_string(),
        fields: RawFields::Unnamed(vec![field(None, &["sculptable"], "Cantrip")]),
    };
    let dark_elf = RawVariant { name: "DarkElf".to_string(), fields: RawFields::Unit };
    let dwarf = variant_to_pickable_option(&dwarf).ok().unwrap();
    assert!(matches!(dwarf, sculpt::pickable::PickableOption::Struct { .. }));
    assert_eq!(dwarf.name(), "Dwarf");
    assert_eq!(dwarf.fields().unwrap()[0].ty_name(), "DwarfSubrace");
    let wood_elf = variant_to_pickable_option(&wood_elf).ok().unwrap();
    assert!(matches!(wood_elf, sculpt::pickable::PickableOption::Tuple { .. }));
    assert!(wood_elf.fields().unwrap()[0].is_sculpt());
    let dark_elf = variant_to_pickable_option(&dark_elf).ok().unwrap();
    assert!(matches!(dark_elf, sculpt::pickable::PickableOption::Raw { .. }));
}

#[test]
fn an_enum_is_a_decision_point() {
    let variants = vec![
        RawVariant { name: "DarkElf".to_string(), fields: RawFields::Unit },
        RawVariant {
            name: "WoodElf".to_string(),
            fields: RawFields::Unnamed(vec![field(None, &[], "Cantrip")]),
        },
    ];
    let pickable = build_pickable("ElfSubrace".to_string(), &variants).ok().unwrap();
    assert!(pickable.is_decision_point());
    assert_eq!(pickable.name(), "ElfSubrace");
    let names: Vec<&str> = pickable.options().iter().map(|o| o.name().as_str()).collect();
    assert_eq!(names, vec!["DarkElf", "WoodElf"]);
    let broken = vec![RawVariant {
        name: "WoodElf".to_string(),
        fields: RawFields::Unnamed(vec![RawField {
            name: None,
            attributes: vec![],
            ty: RawType::Unsupported,
        }]),
    }];
    assert_eq!(
        build_pickable("ElfSubrace".to_string(), &broken).err(),
        Some(GraphError::InvalidFieldShape(String::new()))
    );
}
