use sculpt::sheet::{
    Class, DwarfSubrace, Race, Sheet, SheetBuilderCallbacks, ToolProficiency,
};

struct SheetBuilderCallbacksImpl();

impl SheetBuilderCallbacks for SheetBuilderCallbacksImpl {}

#[test]
fn default() {
    let mut callbacks = SheetBuilderCallbacksImpl();
    let sheet = Sheet::build(&mut callbacks).unwrap();
    println!("{:?}", sheet);
    assert_eq!(
        sheet.race,
        Race::Dwarf { subrace: DwarfSubrace::HillDwarf, tool_proficiency: ToolProficiency::Hammer }
    );
    assert_eq!(sheet.class, Class::Bard);
}
