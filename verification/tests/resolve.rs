use sculpt::field::Field;
use sculpt::graph::{build, Declaration, GraphError};
use sculpt::pickable::{Pickable, PickableOption};
use sculpt::resolve::resolve;
use sculpt::sculptable_struct::SculptableStruct;
use sculpt::table::{PathSegment, SlotKind};

fn name(text: &str) -> Option<String> {
    Some(text.to_string())
}

fn tags(ty: &str, names: &[&str]) -> Declaration {
    let mut pickable = Pickable::new(ty.to_string());
    for n in names {
        pickable.add_option(PickableOption::new_raw(n.to_string()));
    }
    Declaration::Sum(pickable)
}

fn product(ty: &str, root: bool, fields: Vec<Field>) -> Declaration {
    let mut s = SculptableStruct::new(ty.to_string(), root);
    for f in fields {
        s.add_field(f);
    }
    Declaration::Product(s)
}

fn field_step(id: &str, owner: &str) -> PathSegment {
    PathSegment::FieldStep { field_builder_id: id.to_string(), owning_node_id: owner.to_string() }
}

fn variant_step(tag: &str) -> PathSegment {
    PathSegment::VariantStep { variant_tag: tag.to_string() }
}

/// Sheet { race: Race (expandable), class: Class }, with a cantrip that is
/// a product type of its own.
fn sheet() -> Vec<Declaration> {
    let mut race = Pickable::new("Race".to_string());
    let mut dwarf = PickableOption::new_struct("Dwarf".to_string());
    dwarf.add_field(Field::pick(name("subrace"), "DwarfSubrace".to_string()));
    dwarf.add_field(Field::pick(name("tool"), "ToolProficiency".to_string()));
    race.add_option(dwarf);
    let mut elf = PickableOption::new_struct("Elf".to_string());
    elf.add_field(Field::sculpt(name("subrace"), "ElfSubrace".to_string()));
    race.add_option(elf);
    let mut elf_subrace = Pickable::new("ElfSubrace".to_string());
    elf_subrace.add_option(PickableOption::new_raw("DarkElf".to_string()));
    elf_subrace.add_option(PickableOption::new_raw("HighElf".to_string()));
    let mut wood_elf = PickableOption::new_tuple("WoodElf".to_string());
    wood_elf.add_field(Field::sculpt(None, "Cantrip".to_string()));
    elf_subrace.add_option(wood_elf);
    vec![
        product(
            "Sheet",
            true,
            vec![
                Field::sculpt(name("race"), "Race".to_string()),
                Field::pick(name("class"), "Class".to_string()),
            ],
        ),
        Declaration::Sum(race),
        tags("Class", &["Bard", "Paladin"]),
        tags("DwarfSubrace", &["HillDwarf", "MountainDwarf"]),
        tags("ToolProficiency", &["Hammer", "Saw"]),
        Declaration::Sum(elf_subrace),
        product("Cantrip", false, vec![Field::pick(name("cantrip"), "BaseCantrip".to_string())]),
        tags("BaseCantrip", &["Prestidigitation", "Guidance"]),
    ]
}

#[test]
fn decisions_are_listed_depth_first_in_declaration_order() {
    let graph = build(sheet()).ok().unwrap();
    let table = resolve(&graph).ok().unwrap();
    let nodes: Vec<&str> = table.decisions().iter().map(|d| d.node.as_str()).collect();
    assert_eq!(
        nodes,
        vec!["Race", "DwarfSubrace", "ToolProficiency", "ElfSubrace", "BaseCantrip", "Class"]
    );
}

#[test]
fn links_lead_to_the_first_decision_of_each_variant() {
    let graph = build(sheet()).ok().unwrap();
    let table = resolve(&graph).ok().unwrap();
    let rows = table.decisions();
    assert_eq!(rows[0].options, vec!["Dwarf".to_string(), "Elf".to_string()]);
    assert_eq!(rows[0].links, vec![Some(1), Some(3)]);
    assert_eq!(rows[0].payload, vec![true, true]);
    assert_eq!(rows[1].links, vec![None, None]);
    assert_eq!(rows[2].links, vec![None, None]);
    assert_eq!(rows[3].links, vec![None, None, Some(4)]);
    assert_eq!(rows[3].payload, vec![false, false, true]);
    assert_eq!(rows[4].links, vec![None, None]);
    assert_eq!(rows[5].links, vec![None, None]);
}

#[test]
fn rows_stand_under_the_variant_that_requires_them() {
    let graph = build(sheet()).ok().unwrap();
    let table = resolve(&graph).ok().unwrap();
    let parents: Vec<Option<(usize, usize)>> = table.decisions().iter().map(|d| d.parent).collect();
    assert_eq!(
        parents,
        vec![None, Some((0, 0)), Some((0, 0)), Some((0, 1)), Some((3, 2)), None]
    );
    let expandable: Vec<bool> = table.decisions().iter().map(|d| d.expandable).collect();
    assert_eq!(expandable, vec![true, false, false, true, false, false]);
}

#[test]
fn paths_lead_from_the_root_to_the_slot() {
    let graph = build(sheet()).ok().unwrap();
    let table = resolve(&graph).ok().unwrap();
    let rows = table.decisions();
    assert_eq!(rows[0].path, vec![field_step("race_builder", "Sheet")]);
    assert_eq!(rows[0].slot, "race");
    assert_eq!(rows[1].path, vec![field_step("race_builder", "Sheet"), variant_step("Dwarf")]);
    assert_eq!(rows[1].slot, "subrace");
    assert_eq!(rows[2].slot, "tool");
    assert_eq!(
        rows[3].path,
        vec![
            field_step("race_builder", "Sheet"),
            variant_step("Elf"),
            field_step("elfsubrace_builder", "Elf"),
        ]
    );
    assert_eq!(rows[3].slot, "elfsubrace");
    assert_eq!(
        rows[4].path,
        vec![
            field_step("race_builder", "Sheet"),
            variant_step("Elf"),
            field_step("elfsubrace_builder", "Elf"),
            variant_step("WoodElf"),
            field_step("cantrip_builder", "WoodElf"),
        ]
    );
    assert_eq!(rows[4].slot, "cantrip");
    assert!(rows[5].path.is_empty());
    assert_eq!(rows[5].slot, "class");
}

#[test]
fn layouts_mirror_the_builders() {
    let graph = build(sheet()).ok().unwrap();
    let table = resolve(&graph).ok().unwrap();
    let layouts = table.layouts();
    let root = &layouts[table.root()];
    assert_eq!(root.owner, "Sheet");
    assert_eq!(root.ctx, None);
    assert_eq!(root.slots.len(), 2);
    assert_eq!(root.slots[0].kind, SlotKind::Decision(0));
    assert_eq!(root.slots[1].kind, SlotKind::Decision(5));
    let owners: Vec<&str> = layouts.iter().map(|l| l.owner.as_str()).collect();
    assert_eq!(owners, vec!["Dwarf", "DarkElf", "HighElf", "Cantrip", "WoodElf", "Elf", "Sheet"]);
    let race = &table.decisions()[0];
    assert_eq!(layouts[race.layouts[0]].owner, "Dwarf");
    assert_eq!(layouts[race.layouts[1]].owner, "Elf");
    assert_eq!(layouts[race.layouts[0]].ctx, Some((0, 0)));
    let wood_elf = &layouts[table.decisions()[3].layouts[2]];
    assert_eq!(wood_elf.slots.len(), 1);
    assert_eq!(wood_elf.slots[0].kind, SlotKind::Nested(3));
    assert_eq!(wood_elf.slots[0].ty_name, "Cantrip");
}

#[test]
fn a_decision_without_variants_is_refused() {
    let declarations = vec![
        product("Sheet", true, vec![Field::pick(name("class"), "Class".to_string())]),
        tags("Class", &[]),
    ];
    let graph = build(declarations).ok().unwrap();
    assert_eq!(
        resolve(&graph).err(),
        Some(GraphError::InvalidFieldShape("Class".to_string()))
    );
}

#[test]
fn a_cycle_of_expandable_types_is_refused() {
    let declarations = vec![
        product("Sheet", true, vec![Field::sculpt(name("inner"), "Inner".to_string())]),
        product("Inner", false, vec![Field::sculpt(name("outer"), "Outer".to_string())]),
        product("Outer", false, vec![Field::sculpt(name("inner"), "Inner".to_string())]),
    ];
    let graph = build(declarations).ok().unwrap();
    assert!(matches!(resolve(&graph).err(), Some(GraphError::InvalidFieldShape(_))));
}

#[test]
fn an_expandable_field_of_a_type_without_fields_is_refused() {
    let declarations = vec![
        product(
            "Sheet",
            true,
            vec![
                Field::sculpt(name("home"), "Place".to_string()),
                Field::pick(name("class"), "Class".to_string()),
            ],
        ),
        product("Place", false, vec![]),
        tags("Class", &["Bard"]),
    ];
    let graph = build(declarations).ok().unwrap();
    assert_eq!(
        resolve(&graph).err(),
        Some(GraphError::InvalidFieldShape("Place".to_string()))
    );
}

#[test]
fn leaves_take_no_decision() {
    let mut opaque = Pickable::new_opaque("Alignment".to_string());
    opaque.add_option(PickableOption::new_raw("Good".to_string()));
    let declarations = vec![
        product(
            "Sheet",
            true,
            vec![
                Field::pick(name("alignment"), "Alignment".to_string()),
                Field::pick(name("home"), "Place".to_string()),
                Field::pick(name("class"), "Class".to_string()),
            ],
        ),
        Declaration::Sum(opaque),
        product("Place", false, vec![Field::pick(name("class"), "Class".to_string())]),
        tags("Class", &["Bard"]),
    ];
    let graph = build(declarations).ok().unwrap();
    let table = resolve(&graph).ok().unwrap();
    assert_eq!(table.decisions().len(), 1);
    assert_eq!(table.decisions()[0].node, "Class");
    let kinds: Vec<SlotKind> =
        table.layouts()[table.root()].slots.iter().map(|s| s.kind).collect();
    assert_eq!(kinds, vec![SlotKind::Leaf, SlotKind::Leaf, SlotKind::Decision(0)]);
}

#[test]
fn a_type_met_twice_is_decided_twice() {
    let declarations = vec![
        product(
            "Root",
            true,
            vec![
                Field::pick(name("field1"), "Enum".to_string()),
                Field::pick(name("field2"), "Enum".to_string()),
            ],
        ),
        tags("Enum", &["A", "B"]),
    ];
    let graph = build(declarations).ok().unwrap();
    let table = resolve(&graph).ok().unwrap();
    let slots: Vec<&str> = table.decisions().iter().map(|d| d.slot.as_str()).collect();
    assert_eq!(slots, vec!["field1", "field2"]);
}
