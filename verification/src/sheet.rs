//! A wizard written by hand for one declaration set: a character sheet whose
//! race and class a driver picks. Its pickers store a choice and report the
//! decision that the choice is linked to; its build asks the callbacks for
//! one decision after the other, as the state machine of `wizard` does for
//! any declaration set.
//!
//! ```text
//! Sheet { race: Race (expandable), class: Class }
//! Race = Dwarf { subrace: DwarfSubrace, tool_proficiency: ToolProficiency }
//!      | Elf { subrace: ElfSubrace (expandable) }
//! ElfSubrace = DarkElf | HighElf | WoodElf(Cantrip)
//! ```

use vstd::prelude::*;
use crate::value::BuildError;

verus! {

#[derive(Debug, Clone, Copy, PartialEq, Eq, Structural)]
pub enum Class {
    Bard,
    Paladin,
}

#[derive(Debug, Clone, Copy, PartialEq, Eq, Structural)]
pub enum DwarfSubrace {
    HillDwarf,
    MountainDwarf,
}

#[derive(Debug, Clone, Copy, PartialEq, Eq, Structural)]
pub enum ToolProficiency {
    Hammer,
    Saw,
}

#[derive(Debug, Clone, Copy, PartialEq, Eq, Structural)]
pub enum Cantrip {
    Prestidigitation,
    Guidance,
}

#[derive(Debug, Clone, Copy, PartialEq, Eq, Structural)]
pub enum ElfSubrace {
    DarkElf,
    HighElf,
    WoodElf(Cantrip),
}

#[allow(inconsistent_fields)]
#[derive(Debug, Clone, Copy, PartialEq, Eq, Structural)]
pub enum Race {
    Dwarf { subrace: DwarfSubrace, tool_proficiency: ToolProficiency },
    Elf { subrace: ElfSubrace },
}

#[derive(Debug, Clone, Copy, PartialEq, Eq, Structural)]
pub struct Sheet {
    pub race: Race,
    pub class: Class,
}

/// The options of the decision on the race: one tag per variant.
#[derive(Debug, Clone, Copy, PartialEq, Eq, Structural)]
pub enum RaceOptions {
    Dwarf,
    Elf,
}

#[derive(Debug, Clone, Copy, PartialEq, Eq, Structural)]
pub enum ClassOptions {
    Bard,
    Paladin,
}

#[derive(Debug, Clone, Copy, PartialEq, Eq, Structural)]
pub enum DwarfSubraceOptions {
    HillDwarf,
    MountainDwarf,
}

#[derive(Debug, Clone, Copy, PartialEq, Eq, Structural)]
pub enum ToolProficiencyOptions {
    Hammer,
    Saw,
}

#[derive(Debug, Clone, Copy, PartialEq, Eq, Structural)]
pub enum ElfSubraceOptions {
    DarkElf,
    HighElf,
    WoodElf,
}

#[derive(Debug, Clone, Copy, PartialEq, Eq, Structural)]
pub enum CantripOptions {
    Prestidigitation,
    Guidance,
}

impl ClassOptions {
    /// The class that the tag stands for.
    pub open spec fn value(self) -> Class {
        match self {
            ClassOptions::Bard => Class::Bard,
            ClassOptions::Paladin => Class::Paladin,
        }
    }

    pub fn into_value(self) -> (r: Class)
        ensures
            r == self.value(),
    {
        match self {
            ClassOptions::Bard => Class::Bard,
            ClassOptions::Paladin => Class::Paladin,
        }
    }
}

impl DwarfSubraceOptions {
    pub open spec fn value(self) -> DwarfSubrace {
        match self {
            DwarfSubraceOptions::HillDwarf => DwarfSubrace::HillDwarf,
            DwarfSubraceOptions::MountainDwarf => DwarfSubrace::MountainDwarf,
        }
    }

    pub fn into_value(self) -> (r: DwarfSubrace)
        ensures
            r == self.value(),
    {
        match self {
            DwarfSubraceOptions::HillDwarf => DwarfSubrace::HillDwarf,
            DwarfSubraceOptions::MountainDwarf => DwarfSubrace::MountainDwarf,
        }
    }
}

impl ToolProficiencyOptions {
    pub open spec fn value(self) -> ToolProficiency {
        match self {
            ToolProficiencyOptions::Hammer => ToolProficiency::Hammer,
            ToolProficiencyOptions::Saw => ToolProficiency::Saw,
        }
    }

    pub fn into_value(self) -> (r: ToolProficiency)
        ensures
            r == self.value(),
    {
        match self {
            ToolProficiencyOptions::Hammer => ToolProficiency::Hammer,
            ToolProficiencyOptions::Saw => ToolProficiency::Saw,
        }
    }
}

impl CantripOptions {
    pub open spec fn value(self) -> Cantrip {
        match self {
            CantripOptions::Prestidigitation => Cantrip::Prestidigitation,
            CantripOptions::Guidance => Cantrip::Guidance,
        }
    }

    pub fn into_value(self) -> (r: Cantrip)
        ensures
            r == self.value(),
    {
        match self {
            CantripOptions::Prestidigitation => Cantrip::Prestidigitation,
            CantripOptions::Guidance => Cantrip::Guidance,
        }
    }
}

impl ElfSubraceOptions {
    /// The subrace that the tag alone stands for: none for the variant that
    /// carries a cantrip.
    pub open spec fn value(self) -> Option<ElfSubrace> {
        match self {
            ElfSubraceOptions::DarkElf => Some(ElfSubrace::DarkElf),
            ElfSubraceOptions::HighElf => Some(ElfSubrace::HighElf),
            ElfSubraceOptions::WoodElf => None,
        }
    }

    /// Turns the bare tag into a subrace. The variant that carries a
    /// cantrip is finished through its sub-builder only: its tag has no
    /// conversion.
    pub fn into_value(self) -> (r: ElfSubrace)
        requires
            self != ElfSubraceOptions::WoodElf,
        ensures
            self.value() == Some(r),
    {
        match self {
            ElfSubraceOptions::DarkElf => ElfSubrace::DarkElf,
            ElfSubraceOptions::HighElf => ElfSubrace::HighElf,
            ElfSubraceOptions::WoodElf => vstd::pervasive::unreached(),
        }
    }
}

impl RaceOptions {
    /// Every option, in declaration order.
    pub open spec fn every() -> Seq<RaceOptions> {
        seq![RaceOptions::Dwarf, RaceOptions::Elf]
    }

    /// Every option, in declaration order: what a picker offers by default.
    pub fn variants() -> (r: Vec<RaceOptions>)
        ensures
            r@ == Self::every(),
    {
        vec![RaceOptions::Dwarf, RaceOptions::Elf]
    }
}

impl ClassOptions {
    /// Every option, in declaration order.
    pub open spec fn every() -> Seq<ClassOptions> {
        seq![ClassOptions::Bard, ClassOptions::Paladin]
    }

    /// Every option, in declaration order: what a picker offers by default.
    pub fn variants() -> (r: Vec<ClassOptions>)
        ensures
            r@ == Self::every(),
    {
        vec![ClassOptions::Bard, ClassOptions::Paladin]
    }
}

impl DwarfSubraceOptions {
    /// Every option, in declaration order.
    pub open spec fn every() -> Seq<DwarfSubraceOptions> {
        seq![DwarfSubraceOptions::HillDwarf, DwarfSubraceOptions::MountainDwarf]
    }

    /// Every option, in declaration order: what a picker offers by default.
    pub fn variants() -> (r: Vec<DwarfSubraceOptions>)
        ensures
            r@ == Self::every(),
    {
        vec![DwarfSubraceOptions::HillDwarf, DwarfSubraceOptions::MountainDwarf]
    }
}

impl ElfSubraceOptions {
    /// Every option, in declaration order.
    pub open spec fn every() -> Seq<ElfSubraceOptions> {
        seq![ElfSubraceOptions::DarkElf, ElfSubraceOptions::HighElf, ElfSubraceOptions::WoodElf]
    }

    /// Every option, in declaration order: what a picker offers by default.
    pub fn variants() -> (r: Vec<ElfSubraceOptions>)
        ensures
            r@ == Self::every(),
    {
        vec![ElfSubraceOptions::DarkElf, ElfSubraceOptions::HighElf, ElfSubraceOptions::WoodElf]
    }
}

impl ToolProficiencyOptions {
    /// Every option, in declaration order.
    pub open spec fn every() -> Seq<ToolProficiencyOptions> {
        seq![ToolProficiencyOptions::Hammer, ToolProficiencyOptions::Saw]
    }

    /// Every option, in declaration order: what a picker offers by default.
    pub fn variants() -> (r: Vec<ToolProficiencyOptions>)
        ensures
            r@ == Self::every(),
    {
        vec![ToolProficiencyOptions::Hammer, ToolProficiencyOptions::Saw]
    }
}

impl CantripOptions {
    /// Every option, in declaration order.
    pub open spec fn every() -> Seq<CantripOptions> {
        seq![CantripOptions::Prestidigitation, CantripOptions::Guidance]
    }

    /// Every option, in declaration order: what a picker offers by default.
    pub fn variants() -> (r: Vec<CantripOptions>)
        ensures
            r@ == Self::every(),
    {
        vec![CantripOptions::Prestidigitation, CantripOptions::Guidance]
    }
}

/// A decision point of the sheet.
#[derive(Debug, Clone, Copy, PartialEq, Eq, Structural)]
pub enum Decision {
    Race,
    DwarfSubrace,
    ToolProficiency,
    ElfSubrace,
    Cantrip,
    Class,
}

/// The decision that an option of the race is linked to: the first decision
/// among the fields of its variant.
pub open spec fn race_link(o: RaceOptions) -> Option<Decision> {
    match o {
        RaceOptions::Dwarf => Some(Decision::DwarfSubrace),
        RaceOptions::Elf => Some(Decision::ElfSubrace),
    }
}

/// The decision that an option of the elf subrace is linked to.
pub open spec fn elfsubrace_link(o: ElfSubraceOptions) -> Option<Decision> {
    match o {
        ElfSubraceOptions::WoodElf => Some(Decision::Cantrip),
        _ => None,
    }
}

/// The decision on the race, as a builder offers it to the callbacks.
pub trait RacePicker: Sized {
    /// The options that the picker offers.
    spec fn offered(&self) -> Seq<RaceOptions>;

    /// The picker as it is once the option `requirement` is stored in the
    /// slot of the decision.
    spec fn stored(&self, requirement: RaceOptions) -> Self;

    /// The options to pick from, in the picker's order.
    fn options(&self) -> (r: Vec<RaceOptions>)
        ensures
            r@ == self.offered(),
    ;

    /// Stores the choice in the slot of the decision, and returns the
    /// decision that the choice is linked to: the one to take next.
    fn fulfill(&mut self, requirement: &RaceOptions) -> (triggered: Option<Decision>)
        ensures
            *final(self) == old(self).stored(*requirement),
            triggered == race_link(*requirement),
    ;
}

/// The decision on the type `Class`, as a builder offers it to the callbacks.
pub trait ClassPicker: Sized {
    /// The options that the picker offers.
    spec fn offered(&self) -> Seq<ClassOptions>;

    /// The picker as it is once the option `requirement` is stored in the
    /// slot of the decision.
    spec fn stored(&self, requirement: ClassOptions) -> Self;

    /// The options to pick from, in the picker's order.
    fn options(&self) -> (r: Vec<ClassOptions>)
        ensures
            r@ == self.offered(),
    ;

    /// Stores the choice in the slot of the decision, and returns the
    /// decision that the choice is linked to: the one to take next.
    fn fulfill(&mut self, requirement: &ClassOptions) -> (triggered: Option<Decision>)
        ensures
            *final(self) == old(self).stored(*requirement),
            triggered == None::<Decision>,
    ;
}

/// The decision on the type `DwarfSubrace`, as a builder offers it to the callbacks.
pub trait DwarfSubracePicker: Sized {
    /// The options that the picker offers.
    spec fn offered(&self) -> Seq<DwarfSubraceOptions>;

    /// The picker as it is once the option `requirement` is stored in the
    /// slot of the decision.
    spec fn stored(&self, requirement: DwarfSubraceOptions) -> Self;

    /// The options to pick from, in the picker's order.
    fn options(&self) -> (r: Vec<DwarfSubraceOptions>)
        ensures
            r@ == self.offered(),
    ;

    /// Stores the choice in the slot of the decision, and returns the
    /// decision that the choice is linked to: the one to take next.
    fn fulfill(&mut self, requirement: &DwarfSubraceOptions) -> (triggered: Option<Decision>)
        ensures
            *final(self) == old(self).stored(*requirement),
            triggered == None::<Decision>,
    ;
}

/// The decision on the type `ElfSubrace`, as a builder offers it to the callbacks.
pub trait ElfSubracePicker: Sized {
    /// The options that the picker offers.
    spec fn offered(&self) -> Seq<ElfSubraceOptions>;

    /// The picker as it is once the option `requirement` is stored in the
    /// slot of the decision.
    spec fn stored(&self, requirement: ElfSubraceOptions) -> Self;

    /// The options to pick from, in the picker's order.
    fn options(&self) -> (r: Vec<ElfSubraceOptions>)
        ensures
            r@ == self.offered(),
    ;

    /// Stores the choice in the slot of the decision, and returns the
    /// decision that the choice is linked to: the one to take next.
    fn fulfill(&mut self, requirement: &ElfSubraceOptions) -> (triggered: Option<Decision>)
        ensures
            *final(self) == old(self).stored(*requirement),
            triggered == elfsubrace_link(*requirement),
    ;
}

/// The decision on the type `ToolProficiency`, as a builder offers it to the callbacks.
pub trait ToolProficiencyPicker: Sized {
    /// The options that the picker offers.
    spec fn offered(&self) -> Seq<ToolProficiencyOptions>;

    /// The picker as it is once the option `requirement` is stored in the
    /// slot of the decision.
    spec fn stored(&self, requirement: ToolProficiencyOptions) -> Self;

    /// The options to pick from, in the picker's order.
    fn options(&self) -> (r: Vec<ToolProficiencyOptions>)
        ensures
            r@ == self.offered(),
    ;

    /// Stores the choice in the slot of the decision, and returns the
    /// decision that the choice is linked to: the one to take next.
    fn fulfill(&mut self, requirement: &ToolProficiencyOptions) -> (triggered: Option<Decision>)
        ensures
            *final(self) == old(self).stored(*requirement),
            triggered == None::<Decision>,
    ;
}

/// The decision on the type `Cantrip`, as a builder offers it to the callbacks.
pub trait CantripPicker: Sized {
    /// The options that the picker offers.
    spec fn offered(&self) -> Seq<CantripOptions>;

    /// The picker as it is once the option `requirement` is stored in the
    /// slot of the decision.
    spec fn stored(&self, requirement: CantripOptions) -> Self;

    /// The options to pick from, in the picker's order.
    fn options(&self) -> (r: Vec<CantripOptions>)
        ensures
            r@ == self.offered(),
    ;

    /// Stores the choice in the slot of the decision, and returns the
    /// decision that the choice is linked to: the one to take next.
    fn fulfill(&mut self, requirement: &CantripOptions) -> (triggered: Option<Decision>)
        ensures
            *final(self) == old(self).stored(*requirement),
            triggered == None::<Decision>,
    ;
}

/// The callbacks of a driver: one decision method per decision point. Left
/// as it is, a method picks the first option that the picker offers, which
/// it stores by the picker's `fulfill`; a driver overrides the decisions it
/// cares about. A picker that is handed to a callback offers an option.
pub trait SheetBuilderCallbacks {
    fn pick_race<P: RacePicker>(&self, picker: &mut P)
        requires
            old(picker).offered().len() > 0,
        default_ensures
            *final(picker) == old(picker).stored(old(picker).offered()[0]),
    {
        let choice = picker.options()[0];
        picker.fulfill(&choice);
    }

    fn pick_class<P: ClassPicker>(&self, picker: &mut P)
        requires
            old(picker).offered().len() > 0,
        default_ensures
            *final(picker) == old(picker).stored(old(picker).offered()[0]),
    {
        let choice = picker.options()[0];
        picker.fulfill(&choice);
    }

    fn pick_dwarfsubrace<P: DwarfSubracePicker>(&self, picker: &mut P)
        requires
            old(picker).offered().len() > 0,
        default_ensures
            *final(picker) == old(picker).stored(old(picker).offered()[0]),
    {
        let choice = picker.options()[0];
        picker.fulfill(&choice);
    }

    fn pick_elfsubrace<P: ElfSubracePicker>(&self, picker: &mut P)
        requires
            old(picker).offered().len() > 0,
        default_ensures
            *final(picker) == old(picker).stored(old(picker).offered()[0]),
    {
        let choice = picker.options()[0];
        picker.fulfill(&choice);
    }

    fn pick_toolproficiency<P: ToolProficiencyPicker>(&self, picker: &mut P)
        requires
            old(picker).offered().len() > 0,
        default_ensures
            *final(picker) == old(picker).stored(old(picker).offered()[0]),
    {
        let choice = picker.options()[0];
        picker.fulfill(&choice);
    }

    fn pick_cantrip<P: CantripPicker>(&self, picker: &mut P)
        requires
            old(picker).offered().len() > 0,
        default_ensures
            *final(picker) == old(picker).stored(old(picker).offered()[0]),
    {
        let choice = picker.options()[0];
        picker.fulfill(&choice);
    }
}

/// The sub-builder of the variant `Race::Dwarf`.
#[derive(Clone, Copy)]
pub struct DwarfBuilder {
    pub subrace: Option<DwarfSubraceOptions>,
    pub tool_proficiency: Option<ToolProficiencyOptions>,
}

impl DwarfBuilder {
    /// Every slot of the sub-builder is filled.
    pub open spec fn complete(self) -> bool {
        self.subrace is Some && self.tool_proficiency is Some
    }

    /// Collapses the sub-builder into the race.
    pub fn build(self) -> (r: Race)
        requires
            self.complete(),
        ensures
            r == (Race::Dwarf {
                subrace: self.subrace.unwrap().value(),
                tool_proficiency: self.tool_proficiency.unwrap().value(),
            }),
    {
        let subrace = self.subrace.unwrap().into_value();
        let tool_proficiency = self.tool_proficiency.unwrap().into_value();
        Race::Dwarf { subrace, tool_proficiency }
    }
}

/// The sub-builder of the variant `ElfSubrace::WoodElf`.
#[derive(Clone, Copy)]
pub struct WoodElfBuilder {
    pub cantrip: Option<CantripOptions>,
}

impl WoodElfBuilder {
    pub open spec fn complete(self) -> bool {
        self.cantrip is Some
    }

    /// Collapses the sub-builder into the subrace.
    pub fn build(self) -> (r: ElfSubrace)
        requires
            self.complete(),
        ensures
            r == ElfSubrace::WoodElf(self.cantrip.unwrap().value()),
    {
        let cantrip = self.cantrip.unwrap().into_value();
        ElfSubrace::WoodElf(cantrip)
    }
}

/// The sub-builder of the variant `Race::Elf`.
#[derive(Clone, Copy)]
pub struct ElfBuilder {
    pub subrace: Option<ElfSubraceOptions>,
    pub woodelf_builder: WoodElfBuilder,
}

impl ElfBuilder {
    /// The subrace is chosen, and so is the cantrip where the subrace
    /// carries one.
    pub open spec fn complete(self) -> bool {
        self.subrace is Some && (self.subrace == Some(ElfSubraceOptions::WoodElf)
            ==> self.woodelf_builder.complete())
    }

    /// The subrace that the sub-builder collapses into.
    pub open spec fn subrace_value(self) -> ElfSubrace {
        match self.subrace.unwrap().value() {
            Some(v) => v,
            None => ElfSubrace::WoodElf(self.woodelf_builder.cantrip.unwrap().value()),
        }
    }

    /// Collapses the sub-builder into the race: the subrace that carries a
    /// cantrip out of its sub-builder, any other out of its tag.
    pub fn build(self) -> (r: Race)
        requires
            self.complete(),
        ensures
            r == (Race::Elf { subrace: self.subrace_value() }),
    {
        let subrace = match self.subrace.unwrap() {
            ElfSubraceOptions::WoodElf => self.woodelf_builder.build(),
            tag => tag.into_value(),
        };
        Race::Elf { subrace }
    }
}

/// An answer to a decision: the decision and the option chosen for it.
#[derive(Debug, Clone, Copy, PartialEq, Eq, Structural)]
pub enum Choice {
    Race(RaceOptions),
    DwarfSubrace(DwarfSubraceOptions),
    ToolProficiency(ToolProficiencyOptions),
    ElfSubrace(ElfSubraceOptions),
    Cantrip(CantripOptions),
    Class(ClassOptions),
}

/// The slots of the root's builder, as plain values.
pub struct SheetSlots {
    pub race: Option<RaceOptions>,
    pub class: Option<ClassOptions>,
    pub dwarf_builder: DwarfBuilder,
    pub elf_builder: ElfBuilder,
}

/// The slots before any decision: every slot empty.
pub open spec fn empty_slots() -> SheetSlots {
    SheetSlots {
        race: None,
        class: None,
        dwarf_builder: DwarfBuilder { subrace: None, tool_proficiency: None },
        elf_builder: ElfBuilder { subrace: None, woodelf_builder: WoodElfBuilder { cantrip: None } },
    }
}

/// The decision that the slots still require, in the order of the walk: the
/// race, then what the chosen race carries, then the class.
pub open spec fn pending_decision(s: SheetSlots) -> Option<Decision> {
    match s.race {
        None => Some(Decision::Race),
        Some(RaceOptions::Dwarf) => {
            if s.dwarf_builder.subrace is None {
                Some(Decision::DwarfSubrace)
            } else if s.dwarf_builder.tool_proficiency is None {
                Some(Decision::ToolProficiency)
            } else if s.class is None {
                Some(Decision::Class)
            } else {
                None
            }
        },
        Some(RaceOptions::Elf) => {
            if s.elf_builder.subrace is None {
                Some(Decision::ElfSubrace)
            } else if s.elf_builder.subrace == Some(ElfSubraceOptions::WoodElf)
                && s.elf_builder.woodelf_builder.cantrip is None {
                Some(Decision::Cantrip)
            } else if s.class is None {
                Some(Decision::Class)
            } else {
                None
            }
        },
    }
}

/// The sheet that complete slots collapse into.
pub open spec fn collapsed(s: SheetSlots) -> Sheet {
    Sheet {
        race: match s.race.unwrap() {
            RaceOptions::Dwarf => Race::Dwarf {
                subrace: s.dwarf_builder.subrace.unwrap().value(),
                tool_proficiency: s.dwarf_builder.tool_proficiency.unwrap().value(),
            },
            RaceOptions::Elf => Race::Elf { subrace: s.elf_builder.subrace_value() },
        },
        class: s.class.unwrap().value(),
    }
}

/// The name of the type that a decision decides.
pub open spec fn decision_name(d: Decision) -> Seq<char> {
    match d {
        Decision::Race => "Race"@,
        Decision::DwarfSubrace => "DwarfSubrace"@,
        Decision::ToolProficiency => "ToolProficiency"@,
        Decision::ElfSubrace => "ElfSubrace"@,
        Decision::Cantrip => "Cantrip"@,
        Decision::Class => "Class"@,
    }
}

/// The decision that a choice answers.
pub open spec fn choice_decision(c: Choice) -> Decision {
    match c {
        Choice::Race(_) => Decision::Race,
        Choice::DwarfSubrace(_) => Decision::DwarfSubrace,
        Choice::ToolProficiency(_) => Decision::ToolProficiency,
        Choice::ElfSubrace(_) => Decision::ElfSubrace,
        Choice::Cantrip(_) => Decision::Cantrip,
        Choice::Class(_) => Decision::Class,
    }
}

/// The decision that a choice is linked to.
pub open spec fn choice_link(c: Choice) -> Option<Decision> {
    match c {
        Choice::Race(o) => race_link(o),
        Choice::ElfSubrace(o) => elfsubrace_link(o),
        _ => None,
    }
}

/// The answer that the slots hold for a decision.
pub open spec fn chosen(s: SheetSlots, d: Decision) -> Option<Choice> {
    match d {
        Decision::Race => match s.race {
            Some(o) => Some(Choice::Race(o)),
            None => None,
        },
        Decision::DwarfSubrace => match s.dwarf_builder.subrace {
            Some(o) => Some(Choice::DwarfSubrace(o)),
            None => None,
        },
        Decision::ToolProficiency => match s.dwarf_builder.tool_proficiency {
            Some(o) => Some(Choice::ToolProficiency(o)),
            None => None,
        },
        Decision::ElfSubrace => match s.elf_builder.subrace {
            Some(o) => Some(Choice::ElfSubrace(o)),
            None => None,
        },
        Decision::Cantrip => match s.elf_builder.woodelf_builder.cantrip {
            Some(o) => Some(Choice::Cantrip(o)),
            None => None,
        },
        Decision::Class => match s.class {
            Some(o) => Some(Choice::Class(o)),
            None => None,
        },
    }
}

/// The slots once a choice is stored in the slot of its decision.
pub open spec fn answered(s: SheetSlots, c: Choice) -> SheetSlots {
    match c {
        Choice::Race(o) => SheetSlots { race: Some(o), ..s },
        Choice::Class(o) => SheetSlots { class: Some(o), ..s },
        Choice::DwarfSubrace(o) => SheetSlots {
            dwarf_builder: DwarfBuilder { subrace: Some(o), ..s.dwarf_builder },
            ..s
        },
        Choice::ToolProficiency(o) => SheetSlots {
            dwarf_builder: DwarfBuilder { tool_proficiency: Some(o), ..s.dwarf_builder },
            ..s
        },
        Choice::ElfSubrace(o) => SheetSlots {
            elf_builder: ElfBuilder { subrace: Some(o), ..s.elf_builder },
            ..s
        },
        Choice::Cantrip(o) => SheetSlots {
            elf_builder: ElfBuilder {
                woodelf_builder: WoodElfBuilder { cantrip: Some(o) },
                ..s.elf_builder
            },
            ..s
        },
    }
}

/// How many of the six slots are empty.
pub open spec fn open_slots(s: SheetSlots) -> nat {
    (if s.race is None { 1nat } else { 0nat }) + (if s.class is None { 1nat } else { 0nat }) + (
    if s.dwarf_builder.subrace is None { 1nat } else { 0nat }) + (
    if s.dwarf_builder.tool_proficiency is None { 1nat } else { 0nat }) + (
    if s.elf_builder.subrace is None { 1nat } else { 0nat }) + (
    if s.elf_builder.woodelf_builder.cantrip is None { 1nat } else { 0nat })
}

/// The slots after the answers from place `k` on were stored, one per
/// pending decision, for as long as a decision is pending and the next
/// answer is an answer to it.
pub open spec fn sheet_run(s: SheetSlots, answers: Seq<Choice>, k: int) -> SheetSlots
    decreases answers.len() - k,
{
    if k < 0 || k >= answers.len() || pending_decision(s) != Some(choice_decision(answers[k])) {
        s
    } else {
        sheet_run(answered(s, answers[k]), answers, k + 1)
    }
}

/// What the slots collapse into: while a decision is pending, the error that
/// names it; else the sheet.
pub open spec fn sheet_outcome(s: SheetSlots) -> Result<Sheet, crate::value::BuildErrorView> {
    match pending_decision(s) {
        Some(d) => Err(crate::value::BuildErrorView::Unfulfilled(decision_name(d))),
        None => Ok(collapsed(s)),
    }
}

/// What a result says, as plain values.
pub open spec fn result_view(r: Result<Sheet, BuildError>) -> Result<
    Sheet,
    crate::value::BuildErrorView,
> {
    match r {
        Ok(sheet) => Ok(sheet),
        Err(e) => Err(e@),
    }
}

/// The outcome is what the slots `s` collapse into after some answers were
/// stored, each for the decision that was pending at its turn.
pub open spec fn sheet_replayed(
    s: SheetSlots,
    outcome: Result<Sheet, crate::value::BuildErrorView>,
) -> bool {
    exists|answers: Seq<Choice>| #[trigger] sheet_outcome(sheet_run(s, answers, 0)) == outcome
}

/// The slots were filled in the order of the walk: a slot is filled only
/// where the decisions before it on its branch are.
pub open spec fn orderly(s: SheetSlots) -> bool {
    &&& s.race is None ==> s.class is None
    &&& !(s.race == Some(RaceOptions::Dwarf)) ==> s.dwarf_builder.subrace is None
    &&& s.dwarf_builder.subrace is None ==> s.dwarf_builder.tool_proficiency is None
    &&& !(s.race == Some(RaceOptions::Elf)) ==> s.elf_builder.subrace is None
    &&& !(s.elf_builder.subrace == Some(ElfSubraceOptions::WoodElf))
        ==> s.elf_builder.woodelf_builder.cantrip is None
    &&& s.race == Some(RaceOptions::Dwarf) && s.dwarf_builder.tool_proficiency is None
        ==> s.class is None
    &&& s.race == Some(RaceOptions::Elf) && s.elf_builder.subrace is None ==> s.class is None
    &&& s.elf_builder.subrace == Some(ElfSubraceOptions::WoodElf)
        && s.elf_builder.woodelf_builder.cantrip is None ==> s.class is None
}

/// Every slot that is filled holds the first option of its decision.
pub open spec fn all_first(s: SheetSlots) -> bool {
    &&& s.race is Some ==> s.race == Some(RaceOptions::Dwarf)
    &&& s.class is Some ==> s.class == Some(ClassOptions::Bard)
    &&& s.dwarf_builder.subrace is Some ==> s.dwarf_builder.subrace == Some(
        DwarfSubraceOptions::HillDwarf,
    )
    &&& s.dwarf_builder.tool_proficiency is Some ==> s.dwarf_builder.tool_proficiency == Some(
        ToolProficiencyOptions::Hammer,
    )
    &&& s.elf_builder.subrace is Some ==> s.elf_builder.subrace == Some(ElfSubraceOptions::DarkElf)
    &&& s.elf_builder.woodelf_builder.cantrip is Some ==> s.elf_builder.woodelf_builder.cantrip
        == Some(CantripOptions::Prestidigitation)
}

/// The first option of a decision, as an answer to it.
pub open spec fn first_choice(d: Decision) -> Choice {
    match d {
        Decision::Race => Choice::Race(RaceOptions::Dwarf),
        Decision::DwarfSubrace => Choice::DwarfSubrace(DwarfSubraceOptions::HillDwarf),
        Decision::ToolProficiency => Choice::ToolProficiency(ToolProficiencyOptions::Hammer),
        Decision::ElfSubrace => Choice::ElfSubrace(ElfSubraceOptions::DarkElf),
        Decision::Cantrip => Choice::Cantrip(CantripOptions::Prestidigitation),
        Decision::Class => Choice::Class(ClassOptions::Bard),
    }
}

/// The sheet of the first option of every decision: a hill dwarf with a
/// hammer, a bard.
pub open spec fn first_sheet() -> Sheet {
    Sheet {
        race: Race::Dwarf {
            subrace: DwarfSubrace::HillDwarf,
            tool_proficiency: ToolProficiency::Hammer,
        },
        class: Class::Bard,
    }
}

/// Path-link correctness on the sheet: the pending decision has an empty
/// slot; once it is answered its slot holds the answer; and where the
/// answer is linked to a decision, that decision is pending next. Slots that
/// were filled in the order of the walk stay so.
pub proof fn lemma_answer_links(s: SheetSlots, c: Choice)
    requires
        orderly(s),
        pending_decision(s) == Some(choice_decision(c)),
    ensures
        chosen(s, choice_decision(c)) is None,
        chosen(answered(s, c), choice_decision(c)) == Some(c),
        orderly(answered(s, c)),
        open_slots(answered(s, c)) < open_slots(s),
        pending_decision(answered(s, c)) != Some(choice_decision(c)),
        choice_link(c) is Some ==> pending_decision(answered(s, c)) == choice_link(c),
        choice_link(c) is None ==> pending_decision(answered(s, c)) is None || pending_decision(
            answered(s, c),
        ) == Some(Decision::ToolProficiency) || pending_decision(answered(s, c)) == Some(
            Decision::Class,
        ),
{
}

/// Every run from empty slots leaves slots that were filled in the order of
/// the walk.
pub proof fn lemma_run_orderly(s: SheetSlots, answers: Seq<Choice>, k: int)
    requires
        orderly(s),
    ensures
        orderly(sheet_run(s, answers, k)),
        orderly(empty_slots()),
    decreases answers.len() - k,
{
    if k < 0 || k >= answers.len() || pending_decision(s) != Some(choice_decision(answers[k])) {
    } else {
        lemma_answer_links(s, answers[k]);
        lemma_run_orderly(answered(s, answers[k]), answers, k + 1);
    }
}

/// An answer to the pending decision fills an empty slot, whatever the
/// slots.
pub proof fn lemma_answer_fills(s: SheetSlots, c: Choice)
    requires
        pending_decision(s) == Some(choice_decision(c)),
    ensures
        open_slots(answered(s, c)) < open_slots(s),
        chosen(answered(s, c), choice_decision(c)) == Some(c),
        forall|d: Decision| d != choice_decision(c) ==> chosen(answered(s, c), d) == chosen(s, d),
{
}

/// No decision is asked twice: an answer that the slots hold is kept by
/// every run, and its decision is never pending again.
pub proof fn lemma_answer_kept(s: SheetSlots, answers: Seq<Choice>, k: int, d: Decision)
    requires
        chosen(s, d) is Some,
    ensures
        chosen(sheet_run(s, answers, k), d) == chosen(s, d),
        pending_decision(sheet_run(s, answers, k)) != Some(d),
    decreases answers.len() - k,
{
    if k < 0 || k >= answers.len() || pending_decision(s) != Some(choice_decision(answers[k])) {
    } else {
        lemma_answer_fills(s, answers[k]);
        lemma_answer_kept(answered(s, answers[k]), answers, k + 1, d);
    }
}

/// A run followed by one more answer is the run over the answers with that
/// one appended, where every answer of the run was an answer to the
/// decision pending at its turn.
pub proof fn lemma_sheet_run_append(s: SheetSlots, answers: Seq<Choice>, k: int, c: Choice)
    requires
        0 <= k <= answers.len(),
        answers_fit(s, answers, k),
    ensures
        sheet_run(s, answers.push(c), k) == sheet_run(sheet_run(s, answers, k), seq![c], 0),
        pending_decision(sheet_run(s, answers, k)) == Some(choice_decision(c)) ==> answers_fit(
            s,
            answers.push(c),
            k,
        ),
    decreases answers.len() - k,
{
    let more = answers.push(c);
    if k < answers.len() {
        assert(more[k] == answers[k]);
        lemma_sheet_run_append(answered(s, answers[k]), answers, k + 1, c);
    } else {
        assert(more[k] == c);
        assert(seq![c][0] == c);
        if pending_decision(s) == Some(choice_decision(c)) {
            assert(sheet_run(answered(s, c), more, k + 1) == answered(s, c));
            assert(sheet_run(answered(s, c), seq![c], 1) == answered(s, c));
            assert(answers_fit(answered(s, c), more, k + 1));
        }
    }
}

/// Every answer from place `k` on is an answer to the decision that is
/// pending at its turn.
pub open spec fn answers_fit(s: SheetSlots, answers: Seq<Choice>, k: int) -> bool
    decreases answers.len() - k,
{
    if k < 0 || k >= answers.len() {
        true
    } else {
        pending_decision(s) == Some(choice_decision(answers[k])) && answers_fit(
            answered(s, answers[k]),
            answers,
            k + 1,
        )
    }
}

/// The first option of every decision, stored from empty slots in the order
/// in which the decisions are pending, gives the hill dwarf with a hammer,
/// a bard: the race is asked first, the decisions of the elf never.
pub proof fn lemma_first_options()
    ensures
        sheet_outcome(
            sheet_run(
                empty_slots(),
                seq![
                    Choice::Race(RaceOptions::Dwarf),
                    Choice::DwarfSubrace(DwarfSubraceOptions::HillDwarf),
                    Choice::ToolProficiency(ToolProficiencyOptions::Hammer),
                    Choice::Class(ClassOptions::Bard),
                ],
                0,
            ),
        ) == Ok::<Sheet, crate::value::BuildErrorView>(first_sheet()),
        pending_decision(empty_slots()) == Some(Decision::Race),
{
    reveal_with_fuel(sheet_run, 6);
}

/// The wood elf: the race and the subrace answered with the elf and the wood
/// elf, every other decision with its first option. The cantrip is asked
/// before the class, the decisions of the dwarf never.
pub proof fn lemma_wood_elf()
    ensures
        sheet_outcome(
            sheet_run(
                empty_slots(),
                seq![
                    Choice::Race(RaceOptions::Elf),
                    Choice::ElfSubrace(ElfSubraceOptions::WoodElf),
                    Choice::Cantrip(CantripOptions::Prestidigitation),
                    Choice::Class(ClassOptions::Bard),
                ],
                0,
            ),
        ) == Ok::<Sheet, crate::value::BuildErrorView>(
            Sheet {
                race: Race::Elf { subrace: ElfSubrace::WoodElf(Cantrip::Prestidigitation) },
                class: Class::Bard,
            },
        ),
        pending_decision(
            answered(
                answered(empty_slots(), Choice::Race(RaceOptions::Elf)),
                Choice::ElfSubrace(ElfSubraceOptions::WoodElf),
            ),
        ) == Some(Decision::Cantrip),
{
    reveal_with_fuel(sheet_run, 6);
}

fn name_of(d: Decision) -> (r: String)
    ensures
        r@ == decision_name(d),
{
    match d {
        Decision::Race => "Race".to_string(),
        Decision::DwarfSubrace => "DwarfSubrace".to_string(),
        Decision::ToolProficiency => "ToolProficiency".to_string(),
        Decision::ElfSubrace => "ElfSubrace".to_string(),
        Decision::Cantrip => "Cantrip".to_string(),
        Decision::Class => "Class".to_string(),
    }
}

/// The builder of the root: the slot of each plain decision, the
/// sub-builder of each variant with fields, and the callbacks that decide.
pub struct SheetBuilder<'a, T: SheetBuilderCallbacks> {
    race: Option<RaceOptions>,
    class: Option<ClassOptions>,
    dwarf_builder: DwarfBuilder,
    elf_builder: ElfBuilder,
    callbacks: &'a T,
}

impl<'a, T: SheetBuilderCallbacks> View for SheetBuilder<'a, T> {
    type V = SheetSlots;

    closed spec fn view(&self) -> SheetSlots {
        SheetSlots {
            race: self.race,
            class: self.class,
            dwarf_builder: self.dwarf_builder,
            elf_builder: self.elf_builder,
        }
    }
}

impl<'a, T: SheetBuilderCallbacks> RacePicker for SheetBuilder<'a, T> {
    open spec fn offered(&self) -> Seq<RaceOptions> {
        RaceOptions::every()
    }

    closed spec fn stored(&self, requirement: RaceOptions) -> Self {
        SheetBuilder { race: Some(requirement), ..*self }
    }

    fn options(&self) -> (r: Vec<RaceOptions>) {
        RaceOptions::variants()
    }

    fn fulfill(&mut self, requirement: &RaceOptions) -> (triggered: Option<Decision>) {
        self.race = Some(*requirement);
        match requirement {
            RaceOptions::Dwarf => Some(Decision::DwarfSubrace),
            RaceOptions::Elf => Some(Decision::ElfSubrace),
        }
    }
}

impl<'a, T: SheetBuilderCallbacks> ClassPicker for SheetBuilder<'a, T> {
    open spec fn offered(&self) -> Seq<ClassOptions> {
        ClassOptions::every()
    }

    closed spec fn stored(&self, requirement: ClassOptions) -> Self {
        SheetBuilder { class: Some(requirement), ..*self }
    }

    fn options(&self) -> (r: Vec<ClassOptions>) {
        ClassOptions::variants()
    }

    fn fulfill(&mut self, requirement: &ClassOptions) -> (triggered: Option<Decision>) {
        self.class = Some(*requirement);
        None
    }
}

impl<'a, T: SheetBuilderCallbacks> DwarfSubracePicker for SheetBuilder<'a, T> {
    open spec fn offered(&self) -> Seq<DwarfSubraceOptions> {
        DwarfSubraceOptions::every()
    }

    closed spec fn stored(&self, requirement: DwarfSubraceOptions) -> Self {
        SheetBuilder {
            dwarf_builder: DwarfBuilder { subrace: Some(requirement), ..self.dwarf_builder },
            ..*self
        }
    }

    fn options(&self) -> (r: Vec<DwarfSubraceOptions>) {
        DwarfSubraceOptions::variants()
    }

    fn fulfill(&mut self, requirement: &DwarfSubraceOptions) -> (triggered: Option<Decision>) {
        self.dwarf_builder.subrace = Some(*requirement);
        None
    }
}

impl<'a, T: SheetBuilderCallbacks> ToolProficiencyPicker for SheetBuilder<'a, T> {
    open spec fn offered(&self) -> Seq<ToolProficiencyOptions> {
        ToolProficiencyOptions::every()
    }

    closed spec fn stored(&self, requirement: ToolProficiencyOptions) -> Self {
        SheetBuilder {
            dwarf_builder: DwarfBuilder {
                tool_proficiency: Some(requirement),
                ..self.dwarf_builder
            },
            ..*self
        }
    }

    fn options(&self) -> (r: Vec<ToolProficiencyOptions>) {
        ToolProficiencyOptions::variants()
    }

    fn fulfill(&mut self, requirement: &ToolProficiencyOptions) -> (triggered: Option<Decision>) {
        self.dwarf_builder.tool_proficiency = Some(*requirement);
        None
    }
}

impl<'a, T: SheetBuilderCallbacks> ElfSubracePicker for SheetBuilder<'a, T> {
    open spec fn offered(&self) -> Seq<ElfSubraceOptions> {
        ElfSubraceOptions::every()
    }

    closed spec fn stored(&self, requirement: ElfSubraceOptions) -> Self {
        SheetBuilder {
            elf_builder: ElfBuilder { subrace: Some(requirement), ..self.elf_builder },
            ..*self
        }
    }

    fn options(&self) -> (r: Vec<ElfSubraceOptions>) {
        ElfSubraceOptions::variants()
    }

    fn fulfill(&mut self, requirement: &ElfSubraceOptions) -> (triggered: Option<Decision>) {
        self.elf_builder.subrace = Some(*requirement);
        match requirement {
            ElfSubraceOptions::WoodElf => Some(Decision::Cantrip),
            _ => None,
        }
    }
}

impl<'a, T: SheetBuilderCallbacks> CantripPicker for SheetBuilder<'a, T> {
    open spec fn offered(&self) -> Seq<CantripOptions> {
        CantripOptions::every()
    }

    closed spec fn stored(&self, requirement: CantripOptions) -> Self {
        SheetBuilder {
            elf_builder: ElfBuilder {
                woodelf_builder: WoodElfBuilder { cantrip: Some(requirement) },
                ..self.elf_builder
            },
            ..*self
        }
    }

    fn options(&self) -> (r: Vec<CantripOptions>) {
        CantripOptions::variants()
    }

    fn fulfill(&mut self, requirement: &CantripOptions) -> (triggered: Option<Decision>) {
        self.elf_builder.woodelf_builder.cantrip = Some(*requirement);
        None
    }
}

/// The decision that a choice answers.
pub fn decision_of(choice: Choice) -> (r: Decision)
    ensures
        r == choice_decision(choice),
{
    match choice {
        Choice::Race(_) => Decision::Race,
        Choice::DwarfSubrace(_) => Decision::DwarfSubrace,
        Choice::ToolProficiency(_) => Decision::ToolProficiency,
        Choice::ElfSubrace(_) => Decision::ElfSubrace,
        Choice::Cantrip(_) => Decision::Cantrip,
        Choice::Class(_) => Decision::Class,
    }
}

impl<'a, T: SheetBuilderCallbacks> SheetBuilder<'a, T> {
    /// The callbacks that the builder asks.
    pub closed spec fn callbacks(&self) -> &'a T {
        self.callbacks
    }

    /// A builder with every slot empty, over the callbacks given.
    pub fn new(t: &'a T) -> (r: SheetBuilder<'a, T>)
        ensures
            r@ == empty_slots(),
            r.callbacks() == t,
    {
        SheetBuilder {
            race: None,
            class: None,
            dwarf_builder: DwarfBuilder { subrace: None, tool_proficiency: None },
            elf_builder: ElfBuilder {
                subrace: None,
                woodelf_builder: WoodElfBuilder { cantrip: None },
            },
            callbacks: t,
        }
    }

    /// A copy of the builder, for a callback to write its answer into.
    fn scratch(&self) -> (r: SheetBuilder<'a, T>)
        ensures
            r == *self,
    {
        SheetBuilder {
            race: self.race,
            class: self.class,
            dwarf_builder: self.dwarf_builder,
            elf_builder: self.elf_builder,
            callbacks: self.callbacks,
        }
    }

    /// Asks the callback of a decision: hands it a copy of the builder as
    /// the picker, and takes what the slot of the decision holds afterwards
    /// as the answer. Nothing else that the callback did is kept.
    fn ask(&self, d: Decision) -> (r: Option<Choice>)
        ensures
            r is Some ==> choice_decision(r.unwrap()) == d,
    {
        let mut scratch = self.scratch();
        let callbacks = self.callbacks;
        match d {
            Decision::Race => {
                callbacks.pick_race(&mut scratch);
                match scratch.race {
                    Some(o) => Some(Choice::Race(o)),
                    None => None,
                }
            },
            Decision::DwarfSubrace => {
                callbacks.pick_dwarfsubrace(&mut scratch);
                match scratch.dwarf_builder.subrace {
                    Some(o) => Some(Choice::DwarfSubrace(o)),
                    None => None,
                }
            },
            Decision::ToolProficiency => {
                callbacks.pick_toolproficiency(&mut scratch);
                match scratch.dwarf_builder.tool_proficiency {
                    Some(o) => Some(Choice::ToolProficiency(o)),
                    None => None,
                }
            },
            Decision::ElfSubrace => {
                callbacks.pick_elfsubrace(&mut scratch);
                match scratch.elf_builder.subrace {
                    Some(o) => Some(Choice::ElfSubrace(o)),
                    None => None,
                }
            },
            Decision::Cantrip => {
                callbacks.pick_cantrip(&mut scratch);
                match scratch.elf_builder.woodelf_builder.cantrip {
                    Some(o) => Some(Choice::Cantrip(o)),
                    None => None,
                }
            },
            Decision::Class => {
                callbacks.pick_class(&mut scratch);
                match scratch.class {
                    Some(o) => Some(Choice::Class(o)),
                    None => None,
                }
            },
        }
    }

    /// Stores a choice in the slot of its decision, by the picker of that
    /// decision, and returns the decision that the choice is linked to.
    pub fn store(&mut self, choice: Choice) -> (triggered: Option<Decision>)
        ensures
            final(self)@ == answered(old(self)@, choice),
            final(self).callbacks() == old(self).callbacks(),
            triggered == choice_link(choice),
    {
        match choice {
            Choice::Race(o) => RacePicker::fulfill(self, &o),
            Choice::DwarfSubrace(o) => DwarfSubracePicker::fulfill(self, &o),
            Choice::ToolProficiency(o) => ToolProficiencyPicker::fulfill(self, &o),
            Choice::ElfSubrace(o) => ElfSubracePicker::fulfill(self, &o),
            Choice::Cantrip(o) => CantripPicker::fulfill(self, &o),
            Choice::Class(o) => ClassPicker::fulfill(self, &o),
        }
    }

    /// The decision that awaits an answer; `None` once the slots are
    /// complete.
    pub fn pending(&self) -> (r: Option<Decision>)
        ensures
            r == pending_decision(self@),
    {
        match self.race {
            None => Some(Decision::Race),
            Some(RaceOptions::Dwarf) => {
                if self.dwarf_builder.subrace.is_none() {
                    Some(Decision::DwarfSubrace)
                } else if self.dwarf_builder.tool_proficiency.is_none() {
                    Some(Decision::ToolProficiency)
                } else if self.class.is_none() {
                    Some(Decision::Class)
                } else {
                    None
                }
            },
            Some(RaceOptions::Elf) => {
                match self.elf_builder.subrace {
                    None => Some(Decision::ElfSubrace),
                    Some(subrace) => {
                        if subrace == ElfSubraceOptions::WoodElf
                            && self.elf_builder.woodelf_builder.cantrip.is_none() {
                            Some(Decision::Cantrip)
                        } else if self.class.is_none() {
                            Some(Decision::Class)
                        } else {
                            None
                        }
                    },
                }
            },
        }
    }

    /// Collapses the slots into the sheet. Fails, naming the decision, where
    /// a required decision was not taken.
    pub fn finish(self) -> (r: Result<Sheet, BuildError>)
        ensures
            result_view(r) == sheet_outcome(self@),
    {
        match self.pending() {
            Some(d) => Err(BuildError::Unfulfilled(name_of(d))),
            None => {
                let race = match self.race.unwrap() {
                    RaceOptions::Dwarf => self.dwarf_builder.build(),
                    RaceOptions::Elf => self.elf_builder.build(),
                };
                let class = self.class.unwrap().into_value();
                Ok(Sheet { race, class })
            },
        }
    }

    /// Builds the sheet from recorded answers: stores each answer for as
    /// long as it answers the pending decision, and collapses the slots.
    pub fn replay(self, answers: &Vec<Choice>) -> (r: Result<Sheet, BuildError>)
        ensures
            result_view(r) == sheet_outcome(sheet_run(self@, answers@, 0)),
    {
        let mut builder = self;
        let mut k: usize = 0;
        while k < answers.len()
            invariant
                k <= answers.len(),
                sheet_run(self@, answers@, 0) == sheet_run(builder@, answers@, k as int),
            decreases answers.len() - k,
        {
            let fits = match builder.pending() {
                Some(d) => d == decision_of(answers[k]),
                None => false,
            };
            if !fits {
                return builder.finish();
            }
            builder.store(answers[k]);
            k += 1;
        }
        builder.finish()
    }

    /// Builds the sheet: asks the callbacks for the pending decision, one
    /// decision after the other, stores each answer, and collapses the
    /// slots. The race is asked first where it is open. A decision that its
    /// callback leaves open is not asked again: the build fails, naming it.
    /// Complete slots collapse without any callback. Whatever the callbacks
    /// answer, the outcome is that of the replay of their answers.
    pub fn build(self) -> (r: Result<Sheet, BuildError>)
        ensures
            pending_decision(self@) is None ==> r == Ok::<Sheet, BuildError>(collapsed(self@)),
            sheet_replayed(self@, result_view(r)),
    {
        let ghost start = self@;
        let mut builder = self;
        let ghost mut answers: Seq<Choice> = Seq::empty();
        loop
            invariant
                start == self@,
                answers_fit(start, answers, 0),
                sheet_run(start, answers, 0) == builder@,
                pending_decision(start) is None ==> builder@ == start,
            decreases open_slots(builder@),
        {
            match builder.pending() {
                None => {
                    let r = builder.finish();
                    proof {
                        assert(sheet_outcome(sheet_run(start, answers, 0)) == result_view(r));
                    }
                    return r;
                },
                Some(d) => {
                    match builder.ask(d) {
                        None => {
                            let r = Err(BuildError::Unfulfilled(name_of(d)));
                            proof {
                                assert(sheet_outcome(sheet_run(start, answers, 0)) == result_view(
                                    r,
                                ));
                            }
                            return r;
                        },
                        Some(choice) => {
                            proof {
                                lemma_sheet_run_append(start, answers, 0, choice);
                                lemma_answer_fills(builder@, choice);
                                assert(seq![choice][0] == choice);
                                assert(sheet_run(answered(builder@, choice), seq![choice], 1)
                                    == answered(builder@, choice));
                                answers = answers.push(choice);
                            }
                            builder.store(choice);
                        },
                    }
                },
            }
        }
    }
}

impl Sheet {
    /// Builds a sheet by driving the wizard against the callbacks: the
    /// outcome is that of the replay of their answers from empty slots.
    pub fn build<T: SheetBuilderCallbacks>(t: &mut T) -> (r: Result<Sheet, BuildError>)
        ensures
            sheet_replayed(empty_slots(), result_view(r)),
    {
        SheetBuilder::<T>::new(t).build()
    }
}

/// The callbacks that override nothing: every decision is left to its
/// default.
pub struct Unmodified;

impl SheetBuilderCallbacks for Unmodified {

}

/// Asks the unmodified callback of a decision, as `build` asks a callback:
/// the answer is the first option of the decision.
fn ask_unmodified(builder: &SheetBuilder<'_, Unmodified>, d: Decision) -> (r: Choice)
    ensures
        r == first_choice(d),
{
    let mut scratch = builder.scratch();
    let callbacks = builder.callbacks;
    match d {
        Decision::Race => {
            callbacks.pick_race(&mut scratch);
            match scratch.race {
                Some(o) => Choice::Race(o),
                None => vstd::pervasive::unreached(),
            }
        },
        Decision::DwarfSubrace => {
            callbacks.pick_dwarfsubrace(&mut scratch);
            match scratch.dwarf_builder.subrace {
                Some(o) => Choice::DwarfSubrace(o),
                None => vstd::pervasive::unreached(),
            }
        },
        Decision::ToolProficiency => {
            callbacks.pick_toolproficiency(&mut scratch);
            match scratch.dwarf_builder.tool_proficiency {
                Some(o) => Choice::ToolProficiency(o),
                None => vstd::pervasive::unreached(),
            }
        },
        Decision::ElfSubrace => {
            callbacks.pick_elfsubrace(&mut scratch);
            match scratch.elf_builder.subrace {
                Some(o) => Choice::ElfSubrace(o),
                None => vstd::pervasive::unreached(),
            }
        },
        Decision::Cantrip => {
            callbacks.pick_cantrip(&mut scratch);
            match scratch.elf_builder.woodelf_builder.cantrip {
                Some(o) => Choice::Cantrip(o),
                None => vstd::pervasive::unreached(),
            }
        },
        Decision::Class => {
            callbacks.pick_class(&mut scratch);
            match scratch.class {
                Some(o) => Choice::Class(o),
                None => vstd::pervasive::unreached(),
            }
        },
    }
}

/// Builds the sheet with unmodified callbacks, as `build` does with any:
/// every decision that comes up is answered with its first option, and the
/// outcome is the hill dwarf with a hammer, a bard.
pub fn build_unmodified() -> (r: Sheet)
    ensures
        r == first_sheet(),
{
    let callbacks = Unmodified;
    let mut builder = SheetBuilder::new(&callbacks);
    loop
        invariant
            all_first(builder@),
        decreases open_slots(builder@),
    {
        match builder.pending() {
            None => {
                return match builder.finish() {
                    Ok(sheet) => sheet,
                    Err(_) => vstd::pervasive::unreached(),
                };
            },
            Some(d) => {
                let choice = ask_unmodified(&builder, d);
                proof {
                    lemma_answer_fills(builder@, choice);
                }
                builder.store(choice);
            },
        }
    }
}

} // verus!
