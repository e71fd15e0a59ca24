use sculpt::driver::{build, Callbacks};
use sculpt::field::Field;
use sculpt::graph::{build as build_graph, Declaration};
use sculpt::pickable::{Pickable, PickableOption};
use sculpt::resolve::resolve;
use sculpt::sculptable_struct::SculptableStruct;
use sculpt::value::Value;

fn name(text: &str) -> Option<String> {
    Some(text.to_string())
}

fn tags(ty: &str, names: &[&str]) -> Declaration {
    let mut pickable = Pickable::new(ty.to_string());
    for n in names {
        pickable.add_option(PickableOption::new_raw(n.to_string()));
    }
    Declaration::Sum(pickable)
}

fn declarations() -> Vec<Declaration> {
    let mut sheet = SculptableStruct::new("Sheet".to_string(), true);
    sheet.add_field(Field::sculpt(name("race"), "Race".to_string()));
    sheet.add_field(Field::pick(name("class"), "Class".to_string()));

    let mut race = SculptableStruct::new("Race".to_string(), false);
    race.add_field(Field::pick(name("race"), "BaseRace".to_string()));
    race.add_field(Field::sculpt(name("subrace"), "ElfSubrace".to_string()));

    let mut elf_subrace = Pickable::new("ElfSubrace".to_string());
    elf_subrace.add_option(PickableOption::new_raw("DarkElf".to_string()));
    elf_subrace.add_option(PickableOption::new_raw("HighElf".to_string()));
    let mut wood_elf = PickableOption::new_tuple("WoodElf".to_string());
    wood_elf.add_field(Field::sculpt(None, "Cantrip".to_string()));
    elf_subrace.add_option(wood_elf);

    let mut cantrip = SculptableStruct::new("Cantrip".to_string(), false);
    cantrip.add_field(Field::pick(name("cantrip"), "BaseCantrip".to_string()));

    let mut tool = SculptableStruct::new("ToolProficiency".to_string(), false);
    tool.add_field(Field::pick(name("tool_proficiency"), "BaseToolProficiency".to_string()));

    vec![
        Declaration::Product(sheet),
        Declaration::Product(race),
        tags("BaseRace", &["Dwarf", "Elf"]),
        tags("Class", &["Bard", "Paladin"]),
        tags("DwarfSubrace", &["HillDwarf", "MountainDwarf"]),
        Declaration::Product(tool),
        tags("BaseToolProficiency", &["Hammer", "Saw"]),
        Declaration::Sum(elf_subrace),
        Declaration::Product(cantrip),
        tags("BaseCantrip", &["Prestidigitation", "Guidance"]),
    ]
}

fn tag(ty: &str, tag: &str) -> Value {
    Value::Variant {
        ty_name: ty.to_string(),
        tag: tag.to_string(),
        names: vec![],
        values: vec![],
    }
}

struct SheetBuilderCallbacksImpl();

impl Callbacks for SheetBuilderCallbacksImpl {
    fn pick(&self, node: &String, options: &Vec<String>) -> usize {
        if node == "ElfSubrace" {
            options.iter().position(|o| o == "WoodElf").unwrap()
        } else {
            0
        }
    }
}

#[test]
fn to_struct_dependency() {
    let graph = build_graph(declarations()).ok().unwrap();
    let table = resolve(&graph).ok().unwrap();
    let callbacks = SheetBuilderCallbacksImpl();
    let sheet = build(&table, &callbacks).unwrap();
    println!("{:?}", sheet);
    let (names, values) = match sheet {
        Value::Record { ty_name, names, values } => {
            assert_eq!(ty_name, "Sheet");
            (names, values)
        }
        _ => panic!("the root is a record"),
    };
    assert_eq!(names, vec![name("race"), name("class")]);
    assert_eq!(
        values[0],
        Value::Record {
            ty_name: "Race".to_string(),
            names: vec![name("race"), name("subrace")],
            values: vec![
                tag("BaseRace", "Dwarf"),
                Value::Variant {
                    ty_name: "ElfSubrace".to_string(),
                    tag: "WoodElf".to_string(),
                    names: vec![None],
                    values: vec![Value::Record {
                        ty_name: "Cantrip".to_string(),
                        names: vec![name("cantrip")],
                        values: vec![tag("BaseCantrip", "Prestidigitation")],
                    }],
                },
            ],
        }
    );
    assert_eq!(values[1], tag("Class", "Bard"));
}
