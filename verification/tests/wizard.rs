use std::cell::RefCell;

use sculpt::driver::{build as drive, build_default, replay, Callbacks, FirstOption};
use sculpt::field::Field;
use sculpt::graph::{build, Declaration};
use sculpt::pickable::{Pickable, PickableOption};
use sculpt::resolve::{resolve, Resolution};
use sculpt::sculptable_struct::SculptableStruct;
use sculpt::value::{BuildError, Value};
use sculpt::wizard::{convert_tag, Wizard, WizardError};

fn name(text: &str) -> Option<String> {
    Some(text.to_string())
}

fn tags(ty: &str, names: &[&str]) -> Declaration {
    let mut pickable = Pickable::new(ty.to_string());
    for n in names {
        pickable.add_option(PickableOption::new_raw(n.to_string()));
    }
    Declaration::Sum(pickable)
}

fn product(ty: &str, root: bool, fields: Vec<Field>) -> Declaration {
    let mut s = SculptableStruct::new(ty.to_string(), root);
    for f in fields {
        s.add_field(f);
    }
    Declaration::Product(s)
}

fn tag(ty: &str, tag: &str) -> Value {
    Value::Variant { ty_name: ty.to_string(), tag: tag.to_string(), names: vec![], values: vec![] }
}

fn sheet() -> Resolution {
    let mut race = Pickable::new("Race".to_string());
    let mut dwarf = PickableOption::new_struct("Dwarf".to_string());
    dwarf.add_field(Field::pick(name("subrace"), "DwarfSubrace".to_string()));
    dwarf.add_field(Field::pick(name("tool"), "ToolProficiency".to_string()));
    race.add_option(dwarf);
    let mut elf = PickableOption::new_struct("Elf".to_string());
    elf.add_field(Field::sculpt(name("subrace"), "ElfSubrace".to_string()));
    race.add_option(elf);
    let mut elf_subrace = Pickable::new("ElfSubrace".to_string());
    elf_subrace.add_option(PickableOption::new_raw("DarkElf".to_string()));
    elf_subrace.add_option(PickableOption::new_raw("HighElf".to_string()));
    let mut wood_elf = PickableOption::new_tuple("WoodElf".to_string());
    wood_elf.add_field(Field::sculpt(None, "Cantrip".to_string()));
    elf_subrace.add_option(wood_elf);
    let declarations = vec![
        product(
            "Sheet",
            true,
            vec![
                Field::sculpt(name("race"), "Race".to_string()),
                Field::pick(name("class"), "Class".to_string()),
            ],
        ),
        Declaration::Sum(race),
        tags("Class", &["Bard", "Paladin"]),
        tags("DwarfSubrace", &["HillDwarf", "MountainDwarf"]),
        tags("ToolProficiency", &["Hammer", "Saw"]),
        Declaration::Sum(elf_subrace),
        product("Cantrip", false, vec![Field::pick(name("cantrip"), "BaseCantrip".to_string())]),
        tags("BaseCantrip", &["Prestidigitation", "Guidance"]),
    ];
    resolve(&build(declarations).ok().unwrap()).ok().unwrap()
}

fn dwarf_sheet() -> Value {
    Value::Record {
        ty_name: "Sheet".to_string(),
        names: vec![name("race"), name("class")],
        values: vec![
            Value::Variant {
                ty_name: "Race".to_string(),
                tag: "Dwarf".to_string(),
                names: vec![name("subrace"), name("tool")],
                values: vec![tag("DwarfSubrace", "HillDwarf"), tag("ToolProficiency", "Hammer")],
            },
            tag("Class", "Bard"),
        ],
    }
}

fn wood_elf_sheet() -> Value {
    Value::Record {
        ty_name: "Sheet".to_string(),
        names: vec![name("race"), name("class")],
        values: vec![
            Value::Variant {
                ty_name: "Race".to_string(),
                tag: "Elf".to_string(),
                names: vec![name("subrace")],
                values: vec![Value::Variant {
                    ty_name: "ElfSubrace".to_string(),
                    tag: "WoodElf".to_string(),
                    names: vec![None],
                    values: vec![Value::Record {
                        ty_name: "Cantrip".to_string(),
                        names: vec![name("cantrip")],
                        values: vec![tag("BaseCantrip", "Prestidigitation")],
                    }],
                }],
            },
            tag("Class", "Bard"),
        ],
    }
}

/// Callbacks that keep a record of the decisions they were asked for.
struct Recorder {
    asked: RefCell<Vec<String>>,
    race: usize,
    elf_subrace: usize,
}

impl Callbacks for Recorder {
    fn pick(&self, node: &String, _options: &Vec<String>) -> usize {
        self.asked.borrow_mut().push(node.clone());
        if node == "Race" {
            self.race
        } else if node == "ElfSubrace" {
            self.elf_subrace
        } else {
            0
        }
    }
}

#[test]
fn unmodified_callbacks_build_the_first_of_everything() {
    let table = sheet();
    assert_eq!(drive(&table, &FirstOption), Ok(dwarf_sheet()));
}

#[test]
fn the_default_answer_is_the_first_option() {
    let options = vec!["Dwarf".to_string(), "Elf".to_string()];
    assert_eq!(FirstOption.pick(&"Race".to_string(), &options), 0);
    assert_eq!(FirstOption.pick(&"Only".to_string(), &vec!["One".to_string()]), 0);
}

#[test]
fn the_defaults_build_without_a_driver() {
    let table = sheet();
    assert_eq!(build_default(&table), Ok(dwarf_sheet()));
    assert_eq!(build_default(&table), drive(&table, &FirstOption));
}

#[test]
fn the_defaults_fail_on_a_bare_tag_with_a_payload() {
    let mut kind = Pickable::new("Kind".to_string());
    let mut dog = PickableOption::new_tuple("Dog".to_string());
    dog.add_field(Field::pick(None, "Size".to_string()));
    kind.add_option(dog);
    kind.add_option(PickableOption::new_raw("Cat".to_string()));
    let declarations = vec![
        product("Pet", true, vec![Field::pick(name("kind"), "Kind".to_string())]),
        Declaration::Sum(kind),
        tags("Size", &["Small"]),
    ];
    let table = resolve(&build(declarations).ok().unwrap()).ok().unwrap();
    assert_eq!(
        build_default(&table),
        Err(BuildError::PayloadVariant { node: "Kind".to_string(), tag: "Dog".to_string() })
    );
}

#[test]
fn wood_elf_asks_for_the_cantrip_before_the_class() {
    let table = sheet();
    let callbacks = Recorder { asked: RefCell::new(vec![]), race: 1, elf_subrace: 2 };
    assert_eq!(drive(&table, &callbacks), Ok(wood_elf_sheet()));
    assert_eq!(
        *callbacks.asked.borrow(),
        vec!["Race".to_string(), "ElfSubrace".to_string(), "BaseCantrip".to_string(), "Class".to_string()]
    );
}

#[test]
fn the_class_is_asked_once_whatever_the_race() {
    let table = sheet();
    for race in 0..2 {
        for elf_subrace in 0..3 {
            let callbacks = Recorder { asked: RefCell::new(vec![]), race, elf_subrace };
            assert!(drive(&table, &callbacks).is_ok());
            let asked = callbacks.asked.borrow();
            assert_eq!(asked.iter().filter(|n| n.as_str() == "Class").count(), 1);
            let mut distinct = asked.clone();
            distinct.sort();
            distinct.dedup();
            assert_eq!(distinct.len(), asked.len());
        }
    }
}

#[test]
fn fulfill_reports_the_linked_decision() {
    let table = sheet();
    let mut wizard = Wizard::new(&table);
    assert_eq!(wizard.pending(), Some(0));
    assert_eq!(wizard.pending_row().unwrap().node, "Race");
    // Dwarf is linked to the decision on the dwarf's subrace.
    assert_eq!(wizard.fulfill(0), Ok(Some(1)));
    assert_eq!(wizard.pending(), Some(1));
    // The subrace is linked to nothing; the wizard goes on to the tool.
    assert_eq!(wizard.fulfill(1), Ok(None));
    assert_eq!(wizard.pending(), Some(2));
    assert_eq!(wizard.fulfill(1), Ok(None));
    // The branch is complete; the class is the next open sibling.
    assert_eq!(wizard.pending(), Some(5));
    assert!(!wizard.is_complete());
    assert_eq!(wizard.fulfill(1), Ok(None));
    assert_eq!(wizard.pending(), None);
    assert!(wizard.is_complete());
    let sheet = wizard.finish().unwrap();
    assert_eq!(
        sheet,
        Value::Record {
            ty_name: "Sheet".to_string(),
            names: vec![name("race"), name("class")],
            values: vec![
                Value::Variant {
                    ty_name: "Race".to_string(),
                    tag: "Dwarf".to_string(),
                    names: vec![name("subrace"), name("tool")],
                    values: vec![
                        tag("DwarfSubrace", "MountainDwarf"),
                        tag("ToolProficiency", "Saw")
                    ],
                },
                tag("Class", "Paladin"),
            ],
        }
    );
}

#[test]
fn elf_skips_the_decisions_of_the_dwarf() {
    let table = sheet();
    let mut wizard = Wizard::new(&table);
    assert_eq!(wizard.fulfill(1), Ok(Some(3)));
    assert_eq!(wizard.pending(), Some(3));
    assert_eq!(wizard.fulfill(2), Ok(Some(4)));
    assert_eq!(wizard.pending(), Some(4));
    assert_eq!(wizard.fulfill(0), Ok(None));
    assert_eq!(wizard.pending(), Some(5));
}

#[test]
fn a_choice_that_is_no_option_is_refused() {
    let table = sheet();
    let mut wizard = Wizard::new(&table);
    assert_eq!(wizard.fulfill(2), Err(WizardError::UnknownOption));
    assert_eq!(wizard.pending(), Some(0));
}

#[test]
fn a_complete_wizard_takes_no_choice() {
    let table = sheet();
    let mut wizard = Wizard::new(&table);
    for _ in 0..4 {
        wizard.fulfill(0).unwrap();
    }
    assert!(wizard.is_complete());
    assert_eq!(wizard.fulfill(0), Err(WizardError::NothingPending));
}

#[test]
fn finishing_early_names_the_open_decision() {
    let table = sheet();
    let mut wizard = Wizard::new(&table);
    assert_eq!(wizard.finish(), Err(BuildError::Unfulfilled("Race".to_string())));
    wizard.fulfill(0).unwrap();
    assert_eq!(wizard.finish(), Err(BuildError::Unfulfilled("DwarfSubrace".to_string())));
    wizard.fulfill(0).unwrap();
    wizard.fulfill(0).unwrap();
    assert_eq!(wizard.finish(), Err(BuildError::Unfulfilled("Class".to_string())));
}

#[test]
fn a_single_variant_still_takes_one_answer() {
    let declarations = vec![
        product("Root", true, vec![Field::pick(name("only"), "Only".to_string())]),
        tags("Only", &["One"]),
    ];
    let table = resolve(&build(declarations).ok().unwrap()).ok().unwrap();
    assert_eq!(table.decisions().len(), 1);
    let mut wizard = Wizard::new(&table);
    assert_eq!(wizard.pending(), Some(0));
    assert_eq!(wizard.finish(), Err(BuildError::Unfulfilled("Only".to_string())));
    assert_eq!(wizard.fulfill(0), Ok(None));
    assert!(wizard.is_complete());
    assert_eq!(wizard.fulfill(0), Err(WizardError::NothingPending));
    assert_eq!(
        wizard.finish(),
        Ok(Value::Record {
            ty_name: "Root".to_string(),
            names: vec![name("only")],
            values: vec![tag("Only", "One")],
        })
    );
    let callbacks = Recorder { asked: RefCell::new(vec![]), race: 0, elf_subrace: 0 };
    assert!(drive(&table, &callbacks).is_ok());
    assert_eq!(*callbacks.asked.borrow(), vec!["Only".to_string()]);
}

#[test]
fn a_bare_tag_cannot_stand_for_a_variant_with_fields() {
    // The subrace is a plain slot here, so the wood elf cannot be finished.
    let mut elf_subrace = Pickable::new("ElfSubrace".to_string());
    elf_subrace.add_option(PickableOption::new_raw("DarkElf".to_string()));
    let mut wood_elf = PickableOption::new_tuple("WoodElf".to_string());
    wood_elf.add_field(Field::pick(None, "Cantrip".to_string()));
    elf_subrace.add_option(wood_elf);
    let declarations = vec![
        product("Elf", true, vec![Field::pick(name("subrace"), "ElfSubrace".to_string())]),
        Declaration::Sum(elf_subrace),
        tags("Cantrip", &["Prestidigitation", "Guidance"]),
    ];
    let table = resolve(&build(declarations).ok().unwrap()).ok().unwrap();
    let row = &table.decisions()[0];
    assert_eq!(convert_tag(row, 0), Ok(tag("ElfSubrace", "DarkElf")));
    assert_eq!(
        convert_tag(row, 1),
        Err(BuildError::PayloadVariant {
            node: "ElfSubrace".to_string(),
            tag: "WoodElf".to_string()
        })
    );
    assert_eq!(
        replay(&table, &vec![1]),
        Err(BuildError::PayloadVariant {
            node: "ElfSubrace".to_string(),
            tag: "WoodElf".to_string()
        })
    );
    assert!(replay(&table, &vec![0]).is_ok());
}

#[test]
fn replay_gives_the_recorded_answers_in_order() {
    let table = sheet();
    assert_eq!(replay(&table, &vec![0, 0, 0, 0]), Ok(dwarf_sheet()));
    assert_eq!(replay(&table, &vec![1, 2, 0, 0]), Ok(wood_elf_sheet()));
    // Answers beyond the last decision are left over.
    assert_eq!(replay(&table, &vec![0, 0, 0, 0, 7, 7]), Ok(dwarf_sheet()));
    // An answer that is no option ends the replay.
    assert_eq!(
        replay(&table, &vec![0, 5, 0, 0]),
        Err(BuildError::Unfulfilled("DwarfSubrace".to_string()))
    );
    assert_eq!(replay(&table, &vec![]), Err(BuildError::Unfulfilled("Race".to_string())));
}

#[test]
fn an_answer_that_is_no_option_fails_the_build() {
    struct Wrong;
    impl Callbacks for Wrong {
        fn pick(&self, _node: &String, options: &Vec<String>) -> usize {
            options.len()
        }
    }
    let table = sheet();
    assert_eq!(drive(&table, &Wrong), Err(BuildError::Unfulfilled("Race".to_string())));
}

#[test]
fn leaves_are_opaque_in_the_finished_value() {
    let declarations = vec![
        product(
            "Sheet",
            true,
            vec![
                Field::pick(name("home"), "Place".to_string()),
                Field::pick(name("class"), "Class".to_string()),
            ],
        ),
        product("Place", false, vec![Field::pick(name("class"), "Class".to_string())]),
        tags("Class", &["Bard"]),
    ];
    let table = resolve(&build(declarations).ok().unwrap()).ok().unwrap();
    assert_eq!(
        drive(&table, &FirstOption),
        Ok(Value::Record {
            ty_name: "Sheet".to_string(),
            names: vec![name("home"), name("class")],
            values: vec![Value::Opaque { ty_name: "Place".to_string() }, tag("Class", "Bard")],
        })
    );
}
