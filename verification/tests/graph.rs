use sculpt::field::Field;
use sculpt::graph::{build, find_node, Declaration, GraphError};
use sculpt::pickable::{Pickable, PickableOption};
use sculpt::sculptable_struct::SculptableStruct;

fn name(text: &str) -> Option<String> {
    Some(text.to_string())
}

fn tags(ty: &str, names: &[&str]) -> Declaration {
    let mut pickable = Pickable::new(ty.to_string());
    for n in names {
        pickable.add_option(PickableOption::new_raw(n.to_string()));
    }
    Declaration::Sum(pickable)
}

fn product(ty: &str, root: bool, fields: Vec<Field>) -> Declaration {
    let mut s = SculptableStruct::new(ty.to_string(), root);
    for f in fields {
        s.add_field(f);
    }
    Declaration::Product(s)
}

#[test]
fn no_root_is_refused() {
    let declarations = vec![
        product("Sheet", false, vec![Field::pick(name("class"), "Class".to_string())]),
        tags("Class", &["Bard", "Paladin"]),
    ];
    assert_eq!(build(declarations).err(), Some(GraphError::NoRoot));
}

#[test]
fn empty_declaration_set_has_no_root() {
    assert_eq!(build(vec![]).err(), Some(GraphError::NoRoot));
}

#[test]
fn two_roots_are_refused() {
    let declarations = vec![
        product("Sheet", true, vec![Field::pick(name("class"), "Class".to_string())]),
        product("Other", true, vec![Field::pick(name("class"), "Class".to_string())]),
        tags("Class", &["Bard", "Paladin"]),
    ];
    assert_eq!(build(declarations).err(), Some(GraphError::MultipleRoots));
}

#[test]
fn three_roots_are_refused_before_anything_else() {
    let declarations = vec![
        product("A", true, vec![]),
        product("B", true, vec![Field::pick(None, "Missing".to_string())]),
        product("C", true, vec![]),
    ];
    assert_eq!(build(declarations).err(), Some(GraphError::MultipleRoots));
}

#[test]
fn one_root_is_accepted() {
    let declarations = vec![
        tags("Class", &["Bard", "Paladin"]),
        product("Sheet", true, vec![Field::pick(name("class"), "Class".to_string())]),
    ];
    let graph = build(declarations).ok().unwrap();
    assert_eq!(graph.root(), 1);
    assert_eq!(graph.nodes().len(), 2);
    assert_eq!(graph.nodes()[graph.root()].name(), "Sheet");
}

#[test]
fn root_without_fields_is_refused() {
    let declarations = vec![product("Sheet", true, vec![])];
    assert_eq!(
        build(declarations).err(),
        Some(GraphError::InvalidFieldShape("Sheet".to_string()))
    );
}

#[test]
fn unresolved_field_of_a_product_is_named() {
    let declarations = vec![
        product(
            "Sheet",
            true,
            vec![
                Field::pick(name("class"), "Class".to_string()),
                Field::pick(name("race"), "Race".to_string()),
                Field::pick(name("age"), "Age".to_string()),
            ],
        ),
        tags("Class", &["Bard"]),
    ];
    assert_eq!(
        build(declarations).err(),
        Some(GraphError::UnresolvedReference("Race".to_string()))
    );
}

#[test]
fn unresolved_field_of_a_variant_is_named() {
    let mut race = Pickable::new("Race".to_string());
    let mut dwarf = PickableOption::new_struct("Dwarf".to_string());
    dwarf.add_field(Field::pick(name("subrace"), "DwarfSubrace".to_string()));
    race.add_option(dwarf);
    let declarations = vec![
        product("Sheet", true, vec![Field::sculpt(name("race"), "Race".to_string())]),
        Declaration::Sum(race),
    ];
    assert_eq!(
        build(declarations).err(),
        Some(GraphError::UnresolvedReference("DwarfSubrace".to_string()))
    );
}

#[test]
fn unresolved_reference_of_an_unreached_type_is_reported() {
    let declarations = vec![
        product("Sheet", true, vec![Field::pick(name("class"), "Class".to_string())]),
        tags("Class", &["Bard"]),
        product("Stray", false, vec![Field::pick(None, "Nowhere".to_string())]),
    ];
    assert_eq!(
        build(declarations).err(),
        Some(GraphError::UnresolvedReference("Nowhere".to_string()))
    );
}

#[test]
fn root_shape_is_judged_before_references() {
    let declarations = vec![
        product("Sheet", true, vec![]),
        product("Stray", false, vec![Field::pick(None, "Nowhere".to_string())]),
    ];
    assert_eq!(
        build(declarations).err(),
        Some(GraphError::InvalidFieldShape("Sheet".to_string()))
    );
}

#[test]
fn names_resolve_to_the_first_declaration() {
    let declarations = vec![
        tags("Class", &["Bard"]),
        product("Sheet", true, vec![Field::pick(name("class"), "Class".to_string())]),
        tags("Class", &["Paladin"]),
    ];
    assert_eq!(find_node(&declarations, &"Class".to_string()), Some(0));
    assert_eq!(find_node(&declarations, &"Sheet".to_string()), Some(1));
    assert_eq!(find_node(&declarations, &"Race".to_string()), None);
}
