use std::cell::RefCell;

use sculpt::sheet::{
    build_unmodified, decision_of, Cantrip, CantripOptions, CantripPicker, Choice, Class,
    ClassOptions, ClassPicker, Decision, DwarfBuilder, DwarfSubrace, DwarfSubraceOptions,
    DwarfSubracePicker, ElfBuilder, ElfSubrace, ElfSubraceOptions, ElfSubracePicker, Race,
    RaceOptions, RacePicker, Sheet, SheetBuilder, SheetBuilderCallbacks, ToolProficiency,
    ToolProficiencyOptions, ToolProficiencyPicker, Unmodified, WoodElfBuilder,
};
use sculpt::value::BuildError;

struct Defaults;

impl SheetBuilderCallbacks for Defaults {}

/// Callbacks that pick the wood elf and keep a record of what was asked.
struct WoodElf {
    asked: RefCell<Vec<&'static str>>,
}

impl SheetBuilderCallbacks for WoodElf {
    fn pick_race<P: RacePicker>(&self, picker: &mut P) {
        self.asked.borrow_mut().push("race");
        picker.fulfill(&RaceOptions::Elf);
    }

    fn pick_elfsubrace<P: ElfSubracePicker>(&self, picker: &mut P) {
        self.asked.borrow_mut().push("elfsubrace");
        picker.fulfill(&ElfSubraceOptions::WoodElf);
    }

    fn pick_cantrip<P: CantripPicker>(&self, picker: &mut P) {
        self.asked.borrow_mut().push("cantrip");
        let choice = picker.options()[0];
        picker.fulfill(&choice);
    }

    fn pick_class<P: ClassPicker>(&self, picker: &mut P) {
        self.asked.borrow_mut().push("class");
        let choice = picker.options()[0];
        picker.fulfill(&choice);
    }

    fn pick_dwarfsubrace<P: DwarfSubracePicker>(&self, picker: &mut P) {
        self.asked.borrow_mut().push("dwarfsubrace");
        let choice = picker.options()[0];
        picker.fulfill(&choice);
    }
}

#[test]
fn wood_elf_gets_a_cantrip_before_the_class() {
    let mut callbacks = WoodElf { asked: RefCell::new(vec![]) };
    let sheet = Sheet::build(&mut callbacks).unwrap();
    assert_eq!(
        sheet,
        Sheet {
            race: Race::Elf { subrace: ElfSubrace::WoodElf(Cantrip::Prestidigitation) },
            class: Class::Bard,
        }
    );
    assert_eq!(*callbacks.asked.borrow(), vec!["race", "elfsubrace", "cantrip", "class"]);
}

#[test]
fn a_default_callback_stores_the_first_option() {
    let callbacks = Defaults;
    let mut builder = SheetBuilder::new(&callbacks);
    callbacks.pick_race(&mut builder);
    assert_eq!(builder.pending(), Some(Decision::DwarfSubrace));
    callbacks.pick_dwarfsubrace(&mut builder);
    callbacks.pick_toolproficiency(&mut builder);
    callbacks.pick_class(&mut builder);
    callbacks.pick_elfsubrace(&mut builder);
    callbacks.pick_cantrip(&mut builder);
    assert_eq!(
        builder.finish(),
        Ok(Sheet {
            race: Race::Dwarf {
                subrace: DwarfSubrace::HillDwarf,
                tool_proficiency: ToolProficiency::Hammer
            },
            class: Class::Bard,
        })
    );
    let mut elf = SheetBuilder::new(&callbacks);
    RacePicker::fulfill(&mut elf, &RaceOptions::Elf);
    callbacks.pick_elfsubrace(&mut elf);
    callbacks.pick_class(&mut elf);
    assert_eq!(
        elf.finish(),
        Ok(Sheet { race: Race::Elf { subrace: ElfSubrace::DarkElf }, class: Class::Bard })
    );
}

#[test]
fn a_new_builder_awaits_the_race() {
    let callbacks = Defaults;
    let builder = SheetBuilder::new(&callbacks);
    assert_eq!(builder.pending(), Some(Decision::Race));
    assert_eq!(builder.finish(), Err(BuildError::Unfulfilled("Race".to_string())));
}

#[test]
fn fulfill_stores_and_the_next_decision_is_pending() {
    let callbacks = Defaults;
    let mut builder = SheetBuilder::new(&callbacks);
    // The dwarf is linked to the decision on the dwarf's subrace.
    assert_eq!(
        RacePicker::fulfill(&mut builder, &RaceOptions::Dwarf),
        Some(Decision::DwarfSubrace)
    );
    assert_eq!(builder.pending(), Some(Decision::DwarfSubrace));
    assert_eq!(
        DwarfSubracePicker::fulfill(&mut builder, &DwarfSubraceOptions::MountainDwarf),
        None
    );
    assert_eq!(builder.pending(), Some(Decision::ToolProficiency));
    assert_eq!(ToolProficiencyPicker::fulfill(&mut builder, &ToolProficiencyOptions::Saw), None);
    assert_eq!(builder.pending(), Some(Decision::Class));
    assert_eq!(ClassPicker::fulfill(&mut builder, &ClassOptions::Paladin), None);
    assert_eq!(builder.pending(), None);
    assert_eq!(
        builder.finish(),
        Ok(Sheet {
            race: Race::Dwarf {
                subrace: DwarfSubrace::MountainDwarf,
                tool_proficiency: ToolProficiency::Saw
            },
            class: Class::Paladin,
        })
    );
}

#[test]
fn the_elf_branch_asks_for_the_subrace() {
    let callbacks = Defaults;
    let mut builder = SheetBuilder::new(&callbacks);
    assert_eq!(RacePicker::fulfill(&mut builder, &RaceOptions::Elf), Some(Decision::ElfSubrace));
    assert_eq!(builder.pending(), Some(Decision::ElfSubrace));
    assert_eq!(ElfSubracePicker::fulfill(&mut builder, &ElfSubraceOptions::HighElf), None);
    assert_eq!(builder.pending(), Some(Decision::Class));
    // The wood elf is linked to the decision on the cantrip.
    assert_eq!(
        ElfSubracePicker::fulfill(&mut builder, &ElfSubraceOptions::WoodElf),
        Some(Decision::Cantrip)
    );
    assert_eq!(builder.pending(), Some(Decision::Cantrip));
    assert_eq!(CantripPicker::fulfill(&mut builder, &CantripOptions::Guidance), None);
    assert_eq!(builder.pending(), Some(Decision::Class));
    ClassPicker::fulfill(&mut builder, &ClassOptions::Bard);
    assert_eq!(
        builder.finish(),
        Ok(Sheet {
            race: Race::Elf { subrace: ElfSubrace::WoodElf(Cantrip::Guidance) },
            class: Class::Bard,
        })
    );
}

#[test]
fn options_list_every_variant_in_declaration_order() {
    let callbacks = Defaults;
    let builder = SheetBuilder::new(&callbacks);
    assert_eq!(RacePicker::options(&builder), vec![RaceOptions::Dwarf, RaceOptions::Elf]);
    assert_eq!(ClassPicker::options(&builder), vec![ClassOptions::Bard, ClassOptions::Paladin]);
    assert_eq!(
        ElfSubracePicker::options(&builder),
        vec![ElfSubraceOptions::DarkElf, ElfSubraceOptions::HighElf, ElfSubraceOptions::WoodElf]
    );
    assert_eq!(
        CantripPicker::options(&builder),
        vec![CantripOptions::Prestidigitation, CantripOptions::Guidance]
    );
}

#[test]
fn a_callback_that_leaves_its_decision_open_fails_the_build() {
    struct Idle;
    impl SheetBuilderCallbacks for Idle {
        fn pick_class<P: ClassPicker>(&self, _picker: &mut P) {}
    }
    let mut callbacks = Idle;
    assert_eq!(Sheet::build(&mut callbacks), Err(BuildError::Unfulfilled("Class".to_string())));
}

#[test]
fn bare_tags_stand_for_their_variants() {
    assert_eq!(ElfSubraceOptions::DarkElf.into_value(), ElfSubrace::DarkElf);
    assert_eq!(ElfSubraceOptions::HighElf.into_value(), ElfSubrace::HighElf);
    assert_eq!(ClassOptions::Paladin.into_value(), Class::Paladin);
    assert_eq!(CantripOptions::Guidance.into_value(), Cantrip::Guidance);
    assert_eq!(DwarfSubraceOptions::HillDwarf.into_value(), DwarfSubrace::HillDwarf);
    assert_eq!(ToolProficiencyOptions::Saw.into_value(), ToolProficiency::Saw);
}

#[test]
fn sub_builders_collapse_into_their_variant() {
    let dwarf = DwarfBuilder {
        subrace: Some(DwarfSubraceOptions::HillDwarf),
        tool_proficiency: Some(ToolProficiencyOptions::Saw),
    };
    assert_eq!(
        dwarf.build(),
        Race::Dwarf { subrace: DwarfSubrace::HillDwarf, tool_proficiency: ToolProficiency::Saw }
    );
    let wood_elf = WoodElfBuilder { cantrip: Some(CantripOptions::Guidance) };
    assert_eq!(wood_elf.build(), ElfSubrace::WoodElf(Cantrip::Guidance));
    let elf = ElfBuilder { subrace: Some(ElfSubraceOptions::WoodElf), woodelf_builder: wood_elf };
    assert_eq!(elf.build(), Race::Elf { subrace: ElfSubrace::WoodElf(Cantrip::Guidance) });
    let dark = ElfBuilder {
        subrace: Some(ElfSubraceOptions::DarkElf),
        woodelf_builder: WoodElfBuilder { cantrip: None },
    };
    assert_eq!(dark.build(), Race::Elf { subrace: ElfSubrace::DarkElf });
}

#[test]
fn unmodified_callbacks_give_the_first_of_everything() {
    let first = Sheet {
        race: Race::Dwarf {
            subrace: DwarfSubrace::HillDwarf,
            tool_proficiency: ToolProficiency::Hammer,
        },
        class: Class::Bard,
    };
    assert_eq!(build_unmodified(), first);
    let mut callbacks = Unmodified;
    assert_eq!(Sheet::build(&mut callbacks), Ok(first));
}

#[test]
fn replay_stores_the_answers_in_the_pending_order() {
    let callbacks = Unmodified;
    let answers = vec![
        Choice::Race(RaceOptions::Elf),
        Choice::ElfSubrace(ElfSubraceOptions::WoodElf),
        Choice::Cantrip(CantripOptions::Prestidigitation),
        Choice::Class(ClassOptions::Bard),
    ];
    assert_eq!(
        SheetBuilder::new(&callbacks).replay(&answers),
        Ok(Sheet {
            race: Race::Elf { subrace: ElfSubrace::WoodElf(Cantrip::Prestidigitation) },
            class: Class::Bard,
        })
    );
    // An answer to a decision that is not pending ends the replay.
    let out_of_turn = vec![Choice::Race(RaceOptions::Elf), Choice::Class(ClassOptions::Bard)];
    assert_eq!(
        SheetBuilder::new(&callbacks).replay(&out_of_turn),
        Err(BuildError::Unfulfilled("ElfSubrace".to_string()))
    );
    assert_eq!(
        SheetBuilder::new(&callbacks).replay(&vec![]),
        Err(BuildError::Unfulfilled("Race".to_string()))
    );
}

#[test]
fn store_reports_the_linked_decision() {
    let callbacks = Unmodified;
    let mut builder = SheetBuilder::new(&callbacks);
    assert_eq!(builder.store(Choice::Race(RaceOptions::Elf)), Some(Decision::ElfSubrace));
    assert_eq!(builder.store(Choice::ElfSubrace(ElfSubraceOptions::DarkElf)), None);
    assert_eq!(builder.store(Choice::Class(ClassOptions::Paladin)), None);
    assert_eq!(decision_of(Choice::Cantrip(CantripOptions::Guidance)), Decision::Cantrip);
    assert_eq!(
        builder.finish(),
        Ok(Sheet { race: Race::Elf { subrace: ElfSubrace::DarkElf }, class: Class::Paladin })
    );
}

#[test]
fn complete_slots_build_without_the_callbacks() {
    struct Loud;
    impl SheetBuilderCallbacks for Loud {
        fn pick_race<P: RacePicker>(&self, _picker: &mut P) {
            panic!("asked for the race");
        }
        fn pick_class<P: ClassPicker>(&self, _picker: &mut P) {
            panic!("asked for the class");
        }
    }
    let callbacks = Loud;
    let mut builder = SheetBuilder::new(&callbacks);
    builder.store(Choice::Race(RaceOptions::Elf));
    builder.store(Choice::ElfSubrace(ElfSubraceOptions::HighElf));
    builder.store(Choice::Class(ClassOptions::Bard));
    assert_eq!(
        builder.build(),
        Ok(Sheet { race: Race::Elf { subrace: ElfSubrace::HighElf }, class: Class::Bard })
    );
}

#[test]
fn a_callback_that_leaves_the_race_open_fails_the_build() {
    struct Idle;
    impl SheetBuilderCallbacks for Idle {
        fn pick_race<P: RacePicker>(&self, _picker: &mut P) {}
    }
    let mut callbacks = Idle;
    assert_eq!(Sheet::build(&mut callbacks), Err(BuildError::Unfulfilled("Race".to_string())));
}

#[test]
fn the_last_answer_of_a_callback_counts() {
    struct Twice;
    impl SheetBuilderCallbacks for Twice {
        fn pick_class<P: ClassPicker>(&self, picker: &mut P) {
            picker.fulfill(&ClassOptions::Bard);
            picker.fulfill(&ClassOptions::Paladin);
        }
    }
    let mut callbacks = Twice;
    assert_eq!(Sheet::build(&mut callbacks).map(|sheet| sheet.class), Ok(Class::Paladin));
}
