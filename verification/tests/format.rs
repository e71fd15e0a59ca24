use sculpt::field::Field;
use sculpt::format::SculptFormatter;
use sculpt::pickable::{Pickable, PickableOption};
use sculpt::sculptable_struct::{
    generate_builder, generate_root_builder, generate_root_struct_build_impl, SculptableStruct,
};

#[test]
fn names_derived_from_a_type_name() {
    let formatter = SculptFormatter::from("ElfSubrace".to_string());
    assert_eq!(formatter.format_builder_type(), "ElfSubraceBuilder");
    assert_eq!(formatter.format_options_type(), "ElfSubraceOptions");
    assert_eq!(formatter.format_picker_name(), "ElfSubracePicker");
    assert_eq!(formatter.format_builder_field_name(), "elfsubrace_builder");
    assert_eq!(formatter.format_option_field(), "elfsubrace");
    assert_eq!(formatter.format_pick_method(), "pick_elfsubrace");
    assert_eq!(formatter.format_type(), "ElfSubrace");
}

#[test]
fn lower_case_is_that_of_the_standard_library() {
    let formatter = SculptFormatter::from("ÄÖ_Race9".to_string());
    assert_eq!(formatter.format_option_field(), "äö_race9");
    assert_eq!(formatter.format_builder_field_name(), "äö_race9_builder");
}

#[test]
fn a_plain_field_is_a_slot() {
    let field = Field::pick(Some("toolProficiency".to_string()), "ToolProficiency".to_string());
    assert_eq!(field.name(), Some(&"toolProficiency".to_string()));
    assert_eq!(field.ty_name(), "ToolProficiency");
    assert!(!field.is_sculpt());
    assert_eq!(field.format_field_name(), "toolproficiency");
    assert_eq!(field.format_type(), "ToolProficiency");
    assert_eq!(field.to_builder_field(), "toolproficiency: Option<ToolProficiencyOptions>");
    assert_eq!(field.tokenize_field_initializer(), "toolproficiency: None");
    assert_eq!(
        field.to_builder_call("DwarfBuilder"),
        "let toolproficiency = self.toolproficiency.expect(\"Field toolproficiency not set in DwarfBuilder.\").into()"
    );
}

#[test]
fn an_expandable_field_is_a_sub_builder() {
    let field = Field::sculpt(Some("race".to_string()), "Race".to_string());
    assert!(field.is_sculpt());
    assert_eq!(field.format_field_name(), "race");
    assert_eq!(field.to_builder_field(), "race_builder: RaceBuilder");
    assert_eq!(field.tokenize_field_initializer(), "race_builder: RaceBuilder::default()");
    assert_eq!(field.to_builder_call("Sheet"), "let race = self.race_builder.build()");
}

#[test]
fn a_field_without_a_name_goes_by_its_type() {
    let field = Field::pick(None, "Cantrip".to_string());
    assert_eq!(field.name(), None);
    assert_eq!(field.format_field_name(), "cantrip");
    assert_eq!(field.to_builder_field(), "cantrip: Option<CantripOptions>");
}

#[test]
fn variants_know_their_shape() {
    let mut dwarf = PickableOption::new_struct("Dwarf".to_string());
    dwarf.add_field(Field::pick(Some("subrace".to_string()), "DwarfSubrace".to_string()));
    let mut wood_elf = PickableOption::new_tuple("WoodElf".to_string());
    wood_elf.add_field(Field::pick(None, "Cantrip".to_string()));
    let mut dark_elf = PickableOption::new_raw("DarkElf".to_string());
    dark_elf.add_field(Field::pick(None, "Cantrip".to_string()));
    assert_eq!(dwarf.name(), "Dwarf");
    assert!(dwarf.is_sculptable());
    assert!(wood_elf.is_sculptable());
    assert!(!dark_elf.is_sculptable());
    assert_eq!(dwarf.fields().map(|f| f.len()), Some(1));
    assert_eq!(wood_elf.fields().map(|f| f.len()), Some(1));
    assert!(dark_elf.fields().is_none());
    assert_eq!(dwarf.to_pickable_builder_field(), Some("dwarf_builder: DwarfBuilder".to_string()));
    assert_eq!(dark_elf.to_pickable_builder_field(), None);
    assert_eq!(
        dwarf.to_builder_calls("race", "RaceOptions"),
        "RaceOptions::Dwarf => self.dwarf_builder.build()"
    );
    assert_eq!(
        dark_elf.to_builder_calls("elfsubrace", "ElfSubraceOptions"),
        "ElfSubraceOptions::DarkElf => self.elfsubrace.expect(\"Field elfsubrace not set in ElfSubraceOptionsBuilder\").into()"
    );
    assert_eq!(dwarf.generate_constructor_call("Race"), "Race::Dwarf { subrace, }");
    assert_eq!(wood_elf.generate_constructor_call("ElfSubrace"), "ElfSubrace::WoodElf(cantrip, )");
    assert_eq!(
        dwarf.generate_builder(),
        "#[derive(Default)]\nstruct DwarfBuilder {\n    subrace: Option<DwarfSubraceOptions>,\n}\n"
    );
    assert_eq!(
        wood_elf.generate_builder_impl("ElfSubrace"),
        "impl WoodElfBuilder {\n    pub fn build(self) -> ElfSubrace {\n        let cantrip = self.cantrip.expect(\"Field cantrip not set in WoodElfBuilder.\").into();\n        ElfSubrace::WoodElf(cantrip, )\n    }\n}\n"
    );
    assert_eq!(dark_elf.generate_variant_builder_and_impl("ElfSubrace"), "");
    assert_eq!(
        dwarf.generate_variant_builder_and_impl("Race"),
        format!("{}{}", dwarf.generate_builder(), dwarf.generate_builder_impl("Race"))
    );
}

#[test]
fn a_sum_type_writes_trait_builder_and_impl() {
    let mut class = Pickable::new("Class".to_string());
    class.add_option(PickableOption::new_raw("Bard".to_string()));
    assert!(class.is_decision_point());
    assert!(!Pickable::new_opaque("Class".to_string()).is_decision_point());
    assert_eq!(class.name(), "Class");
    assert_eq!(class.options().len(), 1);
    assert_eq!(
        class.generate_picker_trait(),
        "pub trait ClassPicker {\n    fn options(&self) -> Vec<ClassOptions> {\n        ClassOptions::VARIANTS.to_vec()\n    }\n    fn fulfill(&mut self, requirement: &ClassOptions);\n}\n"
    );
    assert_eq!(
        class.generate_pickable_builder(),
        "#[derive(Default)]\nstruct ClassBuilder {\n    class: Option<ClassOptions>,\n}\n"
    );
    assert_eq!(
        class.impl_pickable_builder(),
        "impl ClassBuilder {\n    fn build(self) -> Class {\n        match self.class.unwrap() {\n            ClassOptions::Bard => self.class.expect(\"Field class not set in ClassOptionsBuilder\").into(),\n        }\n    }\n}\n"
    );
    assert_eq!(
        class.generate(),
        format!(
            "{}{}{}",
            class.generate_picker_trait(),
            class.generate_pickable_builder(),
            class.impl_pickable_builder()
        )
    );
}

#[test]
fn a_product_type_writes_its_builder() {
    let mut cantrip = SculptableStruct::new("Cantrip".to_string(), false);
    cantrip.add_field(Field::pick(Some("cantrip".to_string()), "BaseCantrip".to_string()));
    let expected = "#[derive(Default)]\nstruct CantripBuilder {\n    cantrip: Option<BaseCantripOptions>,\n}\n\nimpl CantripBuilder {\n    pub fn build(self) -> Cantrip {\n        let cantrip = self.cantrip.expect(\"Field cantrip not set in CantripBuilder.\").into();\n        Cantrip { cantrip, }\n    }\n}\n";
    assert_eq!(cantrip.generate_builder(), expected);
    assert_eq!(cantrip.generate(), expected);
    assert_eq!(generate_builder(&cantrip), expected);
    assert_eq!(cantrip.first_field_pick_method(), "pick_basecantrip");
    assert_eq!(
        cantrip.generate_root_struct_build_impl(),
        "impl Cantrip {\n    pub fn build<T: CantripBuilderCallbacks>(t: &mut T) -> Cantrip {\n        CantripBuilder::<T>::new(t).build()\n    }\n}\n"
    );
    assert_eq!(generate_root_struct_build_impl(&cantrip), cantrip.generate_root_struct_build_impl());
    assert_eq!(generate_root_builder(&cantrip), cantrip.generate_root_builder());
}
