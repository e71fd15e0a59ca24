use sculpt::driver::{build, FirstOption};
use sculpt::field::Field;
use sculpt::graph::{build as build_graph, Declaration};
use sculpt::pickable::{Pickable, PickableOption};
use sculpt::resolve::resolve;
use sculpt::sculptable_struct::SculptableStruct;
use sculpt::sheet::{
    Class, DwarfSubrace, Race, Sheet, SheetBuilderCallbacks, ToolProficiency,
};
use sculpt::value::Value;

fn name(text: &str) -> Option<String> {
    Some(text.to_string())
}

fn tags(ty: &str, names: &[&str]) -> Declaration {
    let mut pickable = Pickable::new(ty.to_string());
    for n in names {
        pickable.add_option(PickableOption::new_raw(n.to_string()));
    }
    Declaration::Sum(pickable)
}

fn tag(ty: &str, tag: &str) -> Value {
    Value::Variant { ty_name: ty.to_string(), tag: tag.to_string(), names: vec![], values: vec![] }
}

/// The declarations of the sheet whose race is expandable and whose elf
/// subrace is expandable.
fn declarations() -> Vec<Declaration> {
    let mut sheet = SculptableStruct::new("Sheet".to_string(), true);
    sheet.add_field(Field::sculpt(name("race"), "Race".to_string()));
    sheet.add_field(Field::pick(name("class"), "Class".to_string()));

    let mut race = Pickable::new("Race".to_string());
    let mut dwarf = PickableOption::new_struct("Dwarf".to_string());
    dwarf.add_field(Field::pick(name("subrace"), "DwarfSubrace".to_string()));
    dwarf.add_field(Field::pick(name("tool_proficiency"), "ToolProficiency".to_string()));
    race.add_option(dwarf);
    let mut elf = PickableOption::new_struct("Elf".to_string());
    elf.add_field(Field::sculpt(name("subrace"), "ElfSubrace".to_string()));
    race.add_option(elf);

    let mut elf_subrace = Pickable::new("ElfSubrace".to_string());
    elf_subrace.add_option(PickableOption::new_raw("DarkElf".to_string()));
    elf_subrace.add_option(PickableOption::new_raw("HighElf".to_string()));
    let mut wood_elf = PickableOption::new_tuple("WoodElf".to_string());
    wood_elf.add_field(Field::pick(None, "Cantrip".to_string()));
    elf_subrace.add_option(wood_elf);

    vec![
        Declaration::Product(sheet),
        Declaration::Sum(race),
        tags("Class", &["Bard", "Paladin"]),
        tags("DwarfSubrace", &["HillDwarf", "MountainDwarf"]),
        tags("ToolProficiency", &["Hammer", "Saw"]),
        Declaration::Sum(elf_subrace),
        tags("Cantrip", &["Prestidigitation", "Guidance"]),
    ]
}

struct SheetBuilderCallbacksImpl();

impl SheetBuilderCallbacks for SheetBuilderCallbacksImpl {}

#[test]
fn it_works() {
    let mut callbacks = SheetBuilderCallbacksImpl();
    let sheet = Sheet::build(&mut callbacks).unwrap();
    println!("{:?}", sheet);
    assert_eq!(
        sheet.race,
        Race::Dwarf { subrace: DwarfSubrace::HillDwarf, tool_proficiency: ToolProficiency::Hammer }
    );
    assert_eq!(sheet.class, Class::Bard);
}

#[test]
fn it_works_from_declarations() {
    let graph = build_graph(declarations()).ok().unwrap();
    let table = resolve(&graph).ok().unwrap();
    let sheet = build(&table, &FirstOption).unwrap();
    assert_eq!(
        sheet,
        Value::Record {
            ty_name: "Sheet".to_string(),
            names: vec![name("race"), name("class")],
            values: vec![
                Value::Variant {
                    ty_name: "Race".to_string(),
                    tag: "Dwarf".to_string(),
                    names: vec![name("subrace"), name("tool_proficiency")],
                    values: vec![tag("DwarfSubrace", "HillDwarf"), tag("ToolProficiency", "Hammer")],
                },
                tag("Class", "Bard"),
            ],
        }
    );
}
