use sculpt::emit::{emit, EmitError};
use sculpt::field::Field;
use sculpt::generate::generate;
use sculpt::graph::{build, Declaration, GraphError};
use sculpt::pickable::{Pickable, PickableOption};
use sculpt::resolve::resolve;
use sculpt::schema::{compile, BuilderSchema, PickerContract, Requirement};
use sculpt::sculptable_struct::SculptableStruct;
use sculpt::table::PathSegment;

/// Pet { kind: Kind (expandable) }, Kind = Cat | Dog(Size), Size = Small.
fn pet() -> Vec<Declaration> {
    let mut root = SculptableStruct::new("Pet".to_string(), true);
    root.add_field(Field::sculpt(Some("kind".to_string()), "Kind".to_string()));
    let mut kind = Pickable::new("Kind".to_string());
    kind.add_option(PickableOption::new_raw("Cat".to_string()));
    let mut dog = PickableOption::new_tuple("Dog".to_string());
    dog.add_field(Field::pick(None, "Size".to_string()));
    kind.add_option(dog);
    let mut size = Pickable::new("Size".to_string());
    size.add_option(PickableOption::new_raw("Small".to_string()));
    vec![Declaration::Product(root), Declaration::Sum(kind), Declaration::Sum(size)]
}

const PET: &str = r#"pub struct PetBuilder<'a, T: PetBuilderCallbacks> {
    kind_builder: KindBuilder,
    callbacks: &'a T,
}

impl<'a, T: PetBuilderCallbacks> PetBuilder<'a, T> {
    pub fn new(t: &'a mut T) -> PetBuilder<'a, T> {
        PetBuilder {
            kind_builder: KindBuilder::default(),
            callbacks: t,
        }
    }

    pub fn build(mut self) -> Pet {
        self.callbacks.pick_kind(&mut self);
        while self.ask_pending() {}
        let kind = self.kind_builder.build();
        Pet { kind, }
    }
}
impl Pet {
    pub fn build<T: PetBuilderCallbacks>(t: &mut T) -> Pet {
        PetBuilder::<T>::new(t).build()
    }
}
"#;

const KIND: &str = r#"pub trait KindPicker {
    fn options(&self) -> Vec<KindOptions> {
        KindOptions::VARIANTS.to_vec()
    }
    fn fulfill(&mut self, requirement: &KindOptions);
}
#[derive(Default)]
struct KindBuilder {
    kind: Option<KindOptions>,
    dog_builder: DogBuilder,
}
impl KindBuilder {
    fn build(self) -> Kind {
        match self.kind.unwrap() {
            KindOptions::Cat => self.kind.expect("Field kind not set in KindOptionsBuilder").into(),
            KindOptions::Dog => self.dog_builder.build(),
        }
    }
}
#[derive(Default)]
struct DogBuilder {
    size: Option<SizeOptions>,
}
impl DogBuilder {
    pub fn build(self) -> Kind {
        let size = self.size.expect("Field size not set in DogBuilder.").into();
        Kind::Dog(size, )
    }
}
"#;

const SIZE: &str = r#"pub trait SizePicker {
    fn options(&self) -> Vec<SizeOptions> {
        SizeOptions::VARIANTS.to_vec()
    }
    fn fulfill(&mut self, requirement: &SizeOptions);
}
#[derive(Default)]
struct SizeBuilder {
    size: Option<SizeOptions>,
}
impl SizeBuilder {
    fn build(self) -> Size {
        match self.size.unwrap() {
            SizeOptions::Small => self.size.expect("Field size not set in SizeOptionsBuilder").into(),
        }
    }
}
"#;

const KIND_OPTIONS: &str = r#"#[derive(Clone, Copy, Debug, PartialEq)]
pub enum KindOptions {
    Cat,
    Dog,
}

impl KindOptions {
    pub const VARIANTS: &'static [KindOptions] = &[KindOptions::Cat, KindOptions::Dog, ];
}
"#;

const KIND_CONVERSION: &str = r#"impl From<KindOptions> for Kind {
    fn from(tag: KindOptions) -> Kind {
        match tag {
            KindOptions::Cat => Kind::Cat,
            KindOptions::Dog => panic!("Cannot turn Dog into Kind without dependencies."),
        }
    }
}
"#;

const KIND_PICKER: &str = r#"impl<'a, T: PetBuilderCallbacks> KindPicker for PetBuilder<'a, T> {
    fn fulfill(&mut self, requirement: &KindOptions) {
        self.kind_builder.kind = Some(requirement.clone());
        match requirement {
            KindOptions::Cat => {},
            KindOptions::Dog => self.callbacks.pick_size(self),
        }
    }
}
"#;

const SIZE_CONTRACT: &str = r#"#[derive(Clone, Copy, Debug, PartialEq)]
pub enum SizeOptions {
    Small,
}

impl SizeOptions {
    pub const VARIANTS: &'static [SizeOptions] = &[SizeOptions::Small, ];
}
impl From<SizeOptions> for Size {
    fn from(tag: SizeOptions) -> Size {
        match tag {
            SizeOptions::Small => Size::Small,
        }
    }
}
impl<'a, T: PetBuilderCallbacks> SizePicker for PetBuilder<'a, T> {
    fn fulfill(&mut self, requirement: &SizeOptions) {
        self.kind_builder.dog_builder.size = Some(requirement.clone());
        match requirement {
            SizeOptions::Small => {},
        }
    }
}
"#;

const CALLBACKS: &str = r#"pub trait PetBuilderCallbacks {
    fn pick_kind(&self, picker: &mut impl KindPicker) where Self: Sized {
        let choice = picker.options()[0];
        picker.fulfill(&choice);
    }
    fn pick_size(&self, picker: &mut impl SizePicker) where Self: Sized {
        let choice = picker.options()[0];
        picker.fulfill(&choice);
    }
}
"#;

const DISPATCHER: &str = r#"impl<'a, T: PetBuilderCallbacks> PetBuilder<'a, T> {
    fn ask_pending(&mut self) -> bool {
        if self.kind_builder.kind.is_none() {
            self.callbacks.pick_kind(self);
            return true;
        }
        if self.kind_builder.kind == Some(KindOptions::Dog) && self.kind_builder.dog_builder.size.is_none() {
            self.callbacks.pick_size(self);
            return true;
        }
        false
    }
}
"#;

#[test]
fn the_text_of_a_small_wizard() {
    let text = generate(pet()).ok().unwrap();
    let expected = format!(
        "{}{}{}{}{}{}{}{}{}",
        PET, KIND, SIZE, KIND_OPTIONS, KIND_CONVERSION, KIND_PICKER, SIZE_CONTRACT, CALLBACKS,
        DISPATCHER
    );
    assert_eq!(text, expected);
}

#[test]
fn each_declaration_writes_its_own_part() {
    let declarations = pet();
    match &declarations[0] {
        Declaration::Product(p) => assert_eq!(p.generate(), PET),
        _ => unreachable!(),
    }
    match &declarations[1] {
        Declaration::Sum(s) => assert_eq!(s.generate(), KIND),
        _ => unreachable!(),
    }
    match &declarations[2] {
        Declaration::Sum(s) => assert_eq!(s.generate(), SIZE),
        _ => unreachable!(),
    }
}

#[test]
fn each_contract_writes_its_own_part() {
    let graph = build(pet()).ok().unwrap();
    let table = resolve(&graph).ok().unwrap();
    let (schema, contracts) = compile(&graph, &table);
    assert_eq!(schema.root, "Pet");
    assert_eq!(schema.nodes.len(), 3);
    assert_eq!(&schema.layouts, table.layouts());
    let owners: Vec<&str> = schema.layouts.iter().map(|l| l.owner.as_str()).collect();
    assert_eq!(owners, vec!["Cat", "Dog", "Pet"]);
    assert_eq!(contracts.len(), 2);
    assert_eq!(contracts[0].options_enum(), KIND_OPTIONS);
    assert_eq!(contracts[0].conversion(), KIND_CONVERSION);
    assert_eq!(contracts[0].picker_impl("Pet"), KIND_PICKER);
    assert_eq!(
        contracts[1].dispatch(),
        "        if self.kind_builder.kind == Some(KindOptions::Dog) && self.kind_builder.dog_builder.size.is_none() {\n            self.callbacks.pick_size(self);\n            return true;\n        }\n"
    );
    assert_eq!(
        contracts[0].callback_method(),
        "    fn pick_kind(&self, picker: &mut impl KindPicker) where Self: Sized {\n        let choice = picker.options()[0];\n        picker.fulfill(&choice);\n    }\n"
    );
}

#[test]
fn contracts_hold_what_the_table_holds() {
    let graph = build(pet()).ok().unwrap();
    let table = resolve(&graph).ok().unwrap();
    let (_, contracts) = compile(&graph, &table);
    let kind_builder = PathSegment::FieldStep {
        field_builder_id: "kind_builder".to_string(),
        owning_node_id: "Pet".to_string(),
    };
    assert_eq!(
        contracts[0],
        PickerContract {
            node: "Kind".to_string(),
            options: vec!["Cat".to_string(), "Dog".to_string()],
            payload: vec![false, true],
            path: vec![kind_builder.clone()],
            slot: "kind".to_string(),
            links: vec![None, Some("Size".to_string())],
            conditions: vec![],
        }
    );
    assert_eq!(
        contracts[1],
        PickerContract {
            node: "Size".to_string(),
            options: vec!["Small".to_string()],
            payload: vec![false],
            path: vec![
                kind_builder.clone(),
                PathSegment::VariantStep { variant_tag: "Dog".to_string() }
            ],
            slot: "size".to_string(),
            links: vec![None],
            conditions: vec![Requirement {
                path: vec![kind_builder],
                slot: "kind".to_string(),
                node: "Kind".to_string(),
                tag: "Dog".to_string(),
            }],
        }
    );
}

#[test]
fn only_what_takes_part_is_in_the_schema() {
    let mut declarations = pet();
    let mut stray = Pickable::new("Stray".to_string());
    stray.add_option(PickableOption::new_raw("Lost".to_string()));
    declarations.insert(1, Declaration::Sum(stray));
    declarations.push(Declaration::Product(SculptableStruct::new("Unused".to_string(), false)));
    let graph = build(declarations).ok().unwrap();
    let table = resolve(&graph).ok().unwrap();
    let (schema, contracts) = compile(&graph, &table);
    let names: Vec<&str> = schema.nodes.iter().map(|n| n.name().as_str()).collect();
    assert_eq!(names, vec!["Pet", "Kind", "Size"]);
    assert_eq!(contracts.len(), 2);
}

#[test]
fn one_contract_per_type() {
    let mut root = SculptableStruct::new("Root".to_string(), true);
    root.add_field(Field::pick(Some("field1".to_string()), "Enum".to_string()));
    root.add_field(Field::pick(Some("field2".to_string()), "Enum".to_string()));
    let mut e = Pickable::new("Enum".to_string());
    e.add_option(PickableOption::new_raw("A".to_string()));
    e.add_option(PickableOption::new_raw("B".to_string()));
    let graph = build(vec![Declaration::Product(root), Declaration::Sum(e)]).ok().unwrap();
    let table = resolve(&graph).ok().unwrap();
    assert_eq!(table.decisions().len(), 2);
    let (_, contracts) = compile(&graph, &table);
    assert_eq!(contracts.len(), 1);
    assert_eq!(contracts[0].slot, "field1");
}

#[test]
fn generation_is_repeatable() {
    let first = generate(pet());
    let second = generate(pet());
    assert!(first.is_ok());
    assert_eq!(first, second);
}

#[test]
fn generation_fails_with_the_first_error() {
    assert_eq!(generate(vec![]), Err(GraphError::NoRoot));
    let mut declarations = pet();
    declarations.pop();
    assert_eq!(generate(declarations), Err(GraphError::UnresolvedReference("Size".to_string())));
    let mut declarations = pet();
    declarations[2] = Declaration::Sum(Pickable::new("Size".to_string()));
    assert_eq!(generate(declarations), Err(GraphError::InvalidFieldShape("Size".to_string())));
}

#[test]
fn a_root_without_fields_cannot_be_written() {
    let schema = BuilderSchema {
        root: "Pet".to_string(),
        nodes: vec![Declaration::Product(SculptableStruct::new("Pet".to_string(), true))],
        layouts: vec![],
    };
    assert_eq!(emit(&schema, &vec![]), Err(EmitError::RootWithoutFields("Pet".to_string())));
}

#[test]
fn a_contract_with_a_missing_link_cannot_be_written() {
    let schema = BuilderSchema { root: "Pet".to_string(), nodes: vec![], layouts: vec![] };
    let contract = PickerContract {
        node: "Kind".to_string(),
        options: vec!["Cat".to_string(), "Dog".to_string()],
        payload: vec![false, true],
        path: vec![],
        slot: "kind".to_string(),
        links: vec![None],
        conditions: vec![],
    };
    assert_eq!(
        emit(&schema, &vec![contract]),
        Err(EmitError::MalformedContract("Kind".to_string()))
    );
}

#[test]
fn an_empty_schema_writes_the_empty_traits() {
    let schema = BuilderSchema { root: "Pet".to_string(), nodes: vec![], layouts: vec![] };
    assert_eq!(
        emit(&schema, &vec![]),
        Ok("pub trait PetBuilderCallbacks {\n}\nimpl<'a, T: PetBuilderCallbacks> PetBuilder<'a, T> {\n    fn ask_pending(&mut self) -> bool {\n        false\n    }\n}\n".to_string())
    );
}
