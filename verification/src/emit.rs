//! The code emitter: writes the builder schema and the picker contracts out
//! as source text. The text is a function of the schema and the contracts
//! alone.

use vstd::prelude::*;
use vstd::string::StringExecFns;
use crate::format::{
    builder_field_name, builder_type_name, callbacks_trait_name, options_type_name,
    pick_method_name, picker_trait_name, SculptFormatter,
};
use crate::graph::{nodes_view, Declaration, NodeView};
use crate::pickable::pickable_text;
use crate::schema::{
    contracts_view, requirements_view, BuilderSchema, ContractView, PickerContract,
    RequirementView, SchemaView,
};
use crate::sculptable_struct::struct_text;
use crate::table::{path_view, strings_view, PathSegment, SegmentView};

verus! {

/// Why a schema cannot be written out. A schema and contracts that the
/// compiler made never give either.
#[derive(Debug, PartialEq, Eq)]
pub enum EmitError {
    /// The schema holds a root, named here, that has no field.
    RootWithoutFields(String),
    /// The contract of the sum type named here does not list a payload
    /// flag and a link for each of its options.
    MalformedContract(String),
}

/// An emit error, as plain values.
pub enum EmitErrorView {
    RootWithoutFields(Seq<char>),
    MalformedContract(Seq<char>),
}

impl View for EmitError {
    type V = EmitErrorView;

    open spec fn view(&self) -> EmitErrorView {
        match *self {
            EmitError::RootWithoutFields(n) => EmitErrorView::RootWithoutFields(n@),
            EmitError::MalformedContract(n) => EmitErrorView::MalformedContract(n@),
        }
    }
}

/// The node can be written out: a root has a field.
pub open spec fn node_ready(n: NodeView) -> bool {
    match n {
        NodeView::Product(p) => p.root ==> p.fields.len() > 0,
        NodeView::Sum(_) => true,
    }
}

/// The contract can be written out: it lists a payload flag and a link for
/// each option.
pub open spec fn contract_ready(c: ContractView) -> bool {
    c.payload.len() == c.options.len() && c.links.len() == c.options.len()
}

/// The first node from place `k` on that cannot be written out.
pub open spec fn first_unready_node(nodes: Seq<NodeView>, k: int) -> Option<Seq<char>>
    decreases nodes.len() - k,
{
    if k < 0 || k >= nodes.len() {
        None
    } else if !node_ready(nodes[k]) {
        Some(crate::graph::node_name(nodes[k]))
    } else {
        first_unready_node(nodes, k + 1)
    }
}

/// The first contract from place `k` on that cannot be written out.
pub open spec fn first_unready_contract(contracts: Seq<ContractView>, k: int) -> Option<Seq<char>>
    decreases contracts.len() - k,
{
    if k < 0 || k >= contracts.len() {
        None
    } else if !contract_ready(contracts[k]) {
        Some(contracts[k].node)
    } else {
        first_unready_contract(contracts, k + 1)
    }
}

/// Nodes that can all be written out have no first that cannot.
pub proof fn lemma_nodes_ready(nodes: Seq<NodeView>, k: int)
    requires
        0 <= k,
        forall|i: int| 0 <= i < nodes.len() ==> node_ready(#[trigger] nodes[i]),
    ensures
        first_unready_node(nodes, k) is None,
    decreases nodes.len() - k,
{
    if k < nodes.len() {
        lemma_nodes_ready(nodes, k + 1);
    }
}

/// Contracts that can all be written out have no first that cannot.
pub proof fn lemma_contracts_ready(contracts: Seq<ContractView>, k: int)
    requires
        0 <= k,
        forall|i: int| 0 <= i < contracts.len() ==> contract_ready(#[trigger] contracts[i]),
    ensures
        first_unready_contract(contracts, k) is None,
    decreases contracts.len() - k,
{
    if k < contracts.len() {
        lemma_contracts_ready(contracts, k + 1);
    }
}

/// All that is written for the first `k` nodes of the schema.
pub open spec fn definitions_block(nodes: Seq<NodeView>, k: int) -> Seq<char>
    decreases k,
{
    if k <= 0 || k > nodes.len() {
        Seq::empty()
    } else {
        definitions_block(nodes, k - 1) + match nodes[k - 1] {
            NodeView::Product(p) => struct_text(p),
            NodeView::Sum(s) => pickable_text(s),
        }
    }
}

/// The first `k` tags as the variants of an enumeration, one per line.
pub open spec fn tags_block(tags: Seq<Seq<char>>, k: int) -> Seq<char>
    decreases k,
{
    if k <= 0 || k > tags.len() {
        Seq::empty()
    } else {
        tags_block(tags, k - 1) + "    "@ + tags[k - 1] + ",\n"@
    }
}

/// The first `k` tags as values of the enumeration `options`, each followed
/// by a comma.
pub open spec fn variants_list(options: Seq<char>, tags: Seq<Seq<char>>, k: int) -> Seq<char>
    decreases k,
{
    if k <= 0 || k > tags.len() {
        Seq::empty()
    } else {
        variants_list(options, tags, k - 1) + options + "::"@ + tags[k - 1] + ", "@
    }
}

/// The options enumeration of a contract: one tag per variant, and the list
/// of all of them in declaration order.
pub open spec fn options_enum_text(c: ContractView) -> Seq<char> {
    "#[derive(Clone, Copy, Debug, PartialEq)]\npub enum "@ + options_type_name(c.node) + " {\n"@
        + tags_block(c.options, c.options.len() as int) + "}\n\nimpl "@ + options_type_name(c.node)
        + " {\n    pub const VARIANTS: &'static ["@ + options_type_name(c.node) + "] = &["@
        + variants_list(options_type_name(c.node), c.options, c.options.len() as int)
        + "];\n}\n"@
}

/// The arm of the conversion of one tag: to the variant of the same name
/// where the variant has no payload, and a loud failure where it has.
pub open spec fn conversion_arm(c: ContractView, j: int) -> Seq<char> {
    if c.payload[j] {
        "            "@ + options_type_name(c.node) + "::"@ + c.options[j]
            + " => panic!(\"Cannot turn "@ + c.options[j] + " into "@ + c.node
            + " without dependencies.\"),\n"@
    } else {
        "            "@ + options_type_name(c.node) + "::"@ + c.options[j] + " => "@ + c.node
            + "::"@ + c.options[j] + ",\n"@
    }
}

/// The arms of the conversion of the first `k` tags.
pub open spec fn conversion_arms(c: ContractView, k: int) -> Seq<char>
    decreases k,
{
    if k <= 0 || k > c.options.len() {
        Seq::empty()
    } else {
        conversion_arms(c, k - 1) + conversion_arm(c, k - 1)
    }
}

/// The conversion of a contract: from the bare tag into the value.
pub open spec fn conversion_text(c: ContractView) -> Seq<char> {
    "impl From<"@ + options_type_name(c.node) + "> for "@ + c.node + " {\n    fn from(tag: "@
        + options_type_name(c.node) + ") -> "@ + c.node + " {\n        match tag {\n"@
        + conversion_arms(c, c.options.len() as int) + "        }\n    }\n}\n"@
}

/// The way through the first `k` segments of a path, as field accesses.
pub open spec fn path_text(path: Seq<SegmentView>, k: int) -> Seq<char>
    decreases k,
{
    if k <= 0 || k > path.len() {
        Seq::empty()
    } else {
        path_text(path, k - 1) + match path[k - 1] {
            SegmentView::FieldStep { field_builder_id, owning_node_id } => field_builder_id,
            SegmentView::VariantStep { variant_tag } => builder_field_name(variant_tag),
        } + "."@
    }
}

/// The slot at the end of a path, as an expression on the root's builder.
pub open spec fn store_text(path: Seq<SegmentView>, slot: Seq<char>) -> Seq<char> {
    "self."@ + path_text(path, path.len() as int) + slot
}

/// The arm of `fulfill` for one option: the callback of the decision that
/// the option triggers, or nothing.
pub open spec fn fulfill_arm(c: ContractView, j: int) -> Seq<char> {
    match c.links[j] {
        Some(next) => "            "@ + options_type_name(c.node) + "::"@ + c.options[j]
            + " => self.callbacks."@ + pick_method_name(next) + "(self),\n"@,
        None => "            "@ + options_type_name(c.node) + "::"@ + c.options[j] + " => {},\n"@,
    }
}

/// The arms of `fulfill` for the first `k` options.
pub open spec fn fulfill_arms(c: ContractView, k: int) -> Seq<char>
    decreases k,
{
    if k <= 0 || k > c.options.len() {
        Seq::empty()
    } else {
        fulfill_arms(c, k - 1) + fulfill_arm(c, k - 1)
    }
}

/// The impl of a picker contract on the builder of the root `root`:
/// `fulfill` stores the choice at its path and triggers the decision that
/// the choice is linked to.
pub open spec fn picker_impl_text(root: Seq<char>, c: ContractView) -> Seq<char> {
    "impl<'a, T: "@ + callbacks_trait_name(builder_type_name(root)) + "> "@ + picker_trait_name(
        c.node,
    ) + " for "@ + builder_type_name(root) + "<'a, T> {\n    fn fulfill(&mut self, requirement: &"@
        + options_type_name(c.node) + ") {\n        "@ + store_text(c.path, c.slot)
        + " = Some(requirement.clone());\n        match requirement {\n"@ + fulfill_arms(
        c,
        c.options.len() as int,
    ) + "        }\n    }\n}\n"@
}

/// The default decision method of a contract: pick the first option.
pub open spec fn callback_method_text(c: ContractView) -> Seq<char> {
    "    fn "@ + pick_method_name(c.node) + "(&self, picker: &mut impl "@ + picker_trait_name(
        c.node,
    )
        + ") where Self: Sized {\n        let choice = picker.options()[0];\n        picker.fulfill(&choice);\n    }\n"@
}

/// The default decision methods of the first `k` contracts.
pub open spec fn callback_methods(contracts: Seq<ContractView>, k: int) -> Seq<char>
    decreases k,
{
    if k <= 0 || k > contracts.len() {
        Seq::empty()
    } else {
        callback_methods(contracts, k - 1) + callback_method_text(contracts[k - 1])
    }
}

/// The callbacks trait of the root `root`: one default decision method per
/// contract.
pub open spec fn callbacks_trait_text(root: Seq<char>, contracts: Seq<ContractView>) -> Seq<char> {
    "pub trait "@ + callbacks_trait_name(builder_type_name(root)) + " {\n"@ + callback_methods(
        contracts,
        contracts.len() as int,
    ) + "}\n"@
}

/// The test that the first `k` requirements hold, each followed by `&&`.
pub open spec fn conditions_text(conditions: Seq<RequirementView>, k: int) -> Seq<char>
    decreases k,
{
    if k <= 0 || k > conditions.len() {
        Seq::empty()
    } else {
        conditions_text(conditions, k - 1) + store_text(
            conditions[k - 1].path,
            conditions[k - 1].slot,
        ) + " == Some("@ + options_type_name(conditions[k - 1].node) + "::"@ + conditions[k
            - 1].tag + ") && "@
    }
}

/// The step of the dispatcher for one contract: where the decision is
/// required and open, ask its callback.
pub open spec fn dispatch_step(c: ContractView) -> Seq<char> {
    "        if "@ + conditions_text(c.conditions, c.conditions.len() as int) + store_text(
        c.path,
        c.slot,
    ) + ".is_none() {\n            self.callbacks."@ + pick_method_name(c.node)
        + "(self);\n            return true;\n        }\n"@
}

/// The steps of the dispatcher for the first `k` contracts.
pub open spec fn dispatch_steps(contracts: Seq<ContractView>, k: int) -> Seq<char>
    decreases k,
{
    if k <= 0 || k > contracts.len() {
        Seq::empty()
    } else {
        dispatch_steps(contracts, k - 1) + dispatch_step(contracts[k - 1])
    }
}

/// The dispatcher on the builder of the root `root`: asks the callback of
/// the first decision that is required and open, and says whether there was
/// one.
pub open spec fn dispatcher_text(root: Seq<char>, contracts: Seq<ContractView>) -> Seq<char> {
    "impl<'a, T: "@ + callbacks_trait_name(builder_type_name(root)) + "> "@ + builder_type_name(
        root,
    ) + "<'a, T> {\n    fn ask_pending(&mut self) -> bool {\n"@ + dispatch_steps(
        contracts,
        contracts.len() as int,
    ) + "        false\n    }\n}\n"@
}

/// All that is written for one contract: the options enumeration, the
/// conversion, and the impl of the picker contract.
pub open spec fn contract_text(root: Seq<char>, c: ContractView) -> Seq<char> {
    options_enum_text(c) + conversion_text(c) + picker_impl_text(root, c)
}

/// All that is written for the first `k` contracts.
pub open spec fn contracts_block(root: Seq<char>, contracts: Seq<ContractView>, k: int) -> Seq<char>
    decreases k,
{
    if k <= 0 || k > contracts.len() {
        Seq::empty()
    } else {
        contracts_block(root, contracts, k - 1) + contract_text(root, contracts[k - 1])
    }
}

/// The emitted source text: the builder definitions of the schema, what is
/// written for each contract, the callbacks trait, and the dispatcher.
pub open spec fn emitted_text(s: SchemaView, contracts: Seq<ContractView>) -> Seq<char> {
    definitions_block(s.nodes, s.nodes.len() as int) + contracts_block(
        s.root,
        contracts,
        contracts.len() as int,
    ) + callbacks_trait_text(s.root, contracts) + dispatcher_text(s.root, contracts)
}

/// What the emitter makes of a schema and its contracts: the text, or the
/// first defect, the nodes judged before the contracts.
pub open spec fn emit_outcome(s: SchemaView, contracts: Seq<ContractView>) -> Result<
    Seq<char>,
    EmitErrorView,
> {
    match first_unready_node(s.nodes, 0) {
        Some(n) => Err(EmitErrorView::RootWithoutFields(n)),
        None => match first_unready_contract(contracts, 0) {
            Some(n) => Err(EmitErrorView::MalformedContract(n)),
            None => Ok(emitted_text(s, contracts)),
        },
    }
}

fn append_tags(out: &mut String, tags: &Vec<String>)
    ensures
        final(out)@ == old(out)@ + tags_block(strings_view(tags@), tags.len() as int),
{
    let ghost head = out@;
    let ghost tv = strings_view(tags@);
    let mut k: usize = 0;
    assert(out@ =~= head + tags_block(tv, 0));
    while k < tags.len()
        invariant
            k <= tags.len(),
            tv == strings_view(tags@),
            out@ == head + tags_block(tv, k as int),
        decreases tags.len() - k,
    {
        out.append("    ");
        out.append(tags[k].as_str());
        out.append(",\n");
        assert(out@ =~= head + tags_block(tv, k + 1));
        k += 1;
    }
}

fn append_variants(out: &mut String, options: &str, tags: &Vec<String>)
    ensures
        final(out)@ == old(out)@ + variants_list(options@, strings_view(tags@), tags.len() as int),
{
    let ghost head = out@;
    let ghost tv = strings_view(tags@);
    let mut k: usize = 0;
    assert(out@ =~= head + variants_list(options@, tv, 0));
    while k < tags.len()
        invariant
            k <= tags.len(),
            tv == strings_view(tags@),
            out@ == head + variants_list(options@, tv, k as int),
        decreases tags.len() - k,
    {
        out.append(options);
        out.append("::");
        out.append(tags[k].as_str());
        out.append(", ");
        assert(out@ =~= head + variants_list(options@, tv, k + 1));
        k += 1;
    }
}

fn append_path(out: &mut String, path: &Vec<PathSegment>)
    ensures
        final(out)@ == old(out)@ + path_text(path_view(path@), path.len() as int),
{
    let ghost head = out@;
    let ghost pv = path_view(path@);
    let mut k: usize = 0;
    assert(out@ =~= head + path_text(pv, 0));
    while k < path.len()
        invariant
            k <= path.len(),
            pv == path_view(path@),
            out@ == head + path_text(pv, k as int),
        decreases path.len() - k,
    {
        assert(pv[k as int] == path[k as int]@);
        match &path[k] {
            PathSegment::FieldStep { field_builder_id, .. } => {
                out.append(field_builder_id.as_str());
            },
            PathSegment::VariantStep { variant_tag } => {
                out.append(
                    SculptFormatter::from(variant_tag.clone()).format_builder_field_name().as_str(),
                );
            },
        }
        out.append(".");
        assert(out@ =~= head + path_text(pv, k + 1));
        k += 1;
    }
}

fn append_store(out: &mut String, path: &Vec<PathSegment>, slot: &str)
    ensures
        final(out)@ == old(out)@ + store_text(path_view(path@), slot@),
{
    let ghost head = out@;
    out.append("self.");
    append_path(out, path);
    out.append(slot);
    assert(out@ =~= head + store_text(path_view(path@), slot@));
}

impl PickerContract {
    /// Writes the options enumeration of the contract.
    pub fn options_enum(&self) -> (r: String)
        ensures
            r@ == options_enum_text(self@),
    {
        let options = SculptFormatter::from(self.node.clone()).format_options_type();
        let mut r = String::from_str("#[derive(Clone, Copy, Debug, PartialEq)]\npub enum ");
        r.append(options.as_str());
        r.append(" {\n");
        append_tags(&mut r, &self.options);
        r.append("}\n\nimpl ");
        r.append(options.as_str());
        r.append(" {\n    pub const VARIANTS: &'static [");
        r.append(options.as_str());
        r.append("] = &[");
        append_variants(&mut r, options.as_str(), &self.options);
        r.append("];\n}\n");
        r
    }

    /// Writes the conversion from the bare tag into the value.
    pub fn conversion(&self) -> (r: String)
        requires
            contract_ready(self@),
        ensures
            r@ == conversion_text(self@),
    {
        let options = SculptFormatter::from(self.node.clone()).format_options_type();
        let mut r = String::from_str("impl From<");
        r.append(options.as_str());
        r.append("> for ");
        r.append(self.node.as_str());
        r.append(" {\n    fn from(tag: ");
        r.append(options.as_str());
        r.append(") -> ");
        r.append(self.node.as_str());
        r.append(" {\n        match tag {\n");
        let ghost head = r@;
        let ghost c = self@;
        let mut k: usize = 0;
        assert(r@ =~= head + conversion_arms(c, 0));
        while k < self.options.len()
            invariant
                k <= self.options.len(),
                c == self@,
                contract_ready(c),
                options@ == options_type_name(c.node),
                r@ == head + conversion_arms(c, k as int),
            decreases self.options.len() - k,
        {
            assert(c.options[k as int] == self.options[k as int]@);
            r.append("            ");
            r.append(options.as_str());
            r.append("::");
            r.append(self.options[k].as_str());
            if self.payload[k] {
                r.append(" => panic!(\"Cannot turn ");
                r.append(self.options[k].as_str());
                r.append(" into ");
                r.append(self.node.as_str());
                r.append(" without dependencies.\"),\n");
            } else {
                r.append(" => ");
                r.append(self.node.as_str());
                r.append("::");
                r.append(self.options[k].as_str());
                r.append(",\n");
            }
            assert(r@ =~= head + conversion_arms(c, k + 1));
            k += 1;
        }
        r.append("        }\n    }\n}\n");
        r
    }

    /// Writes the impl of the picker contract on the builder of the root.
    pub fn picker_impl(&self, root: &str) -> (r: String)
        requires
            contract_ready(self@),
        ensures
            r@ == picker_impl_text(root@, self@),
    {
        let formatter = SculptFormatter::from(self.node.clone());
        let options = formatter.format_options_type();
        let builder = SculptFormatter::from(String::from_str(root)).format_builder_type();
        let mut r = String::from_str("impl<'a, T: ");
        r.append(builder.as_str());
        r.append("Callbacks");
        r.append("> ");
        r.append(formatter.format_picker_name().as_str());
        r.append(" for ");
        r.append(builder.as_str());
        r.append("<'a, T> {\n    fn fulfill(&mut self, requirement: &");
        r.append(options.as_str());
        r.append(") {\n        ");
        append_store(&mut r, &self.path, self.slot.as_str());
        r.append(" = Some(requirement.clone());\n        match requirement {\n");
        let ghost head = r@;
        let ghost c = self@;
        let mut k: usize = 0;
        assert(r@ =~= head + fulfill_arms(c, 0));
        while k < self.options.len()
            invariant
                k <= self.options.len(),
                c == self@,
                contract_ready(c),
                options@ == options_type_name(c.node),
                r@ == head + fulfill_arms(c, k as int),
            decreases self.options.len() - k,
        {
            assert(c.options[k as int] == self.options[k as int]@);
            assert(c.links[k as int] == crate::field::name_view(self.links[k as int]));
            r.append("            ");
            r.append(options.as_str());
            r.append("::");
            r.append(self.options[k].as_str());
            match &self.links[k] {
                Some(next) => {
                    r.append(" => self.callbacks.");
                    r.append(SculptFormatter::from(next.clone()).format_pick_method().as_str());
                    r.append("(self),\n");
                },
                None => {
                    r.append(" => {},\n");
                },
            }
            assert(r@ =~= head + fulfill_arms(c, k + 1));
            k += 1;
        }
        r.append("        }\n    }\n}\n");
        proof {
            assert(r@ =~= picker_impl_text(root@, c));
        }
        r
    }

    /// Writes the default decision method of the contract.
    pub fn callback_method(&self) -> (r: String)
        ensures
            r@ == callback_method_text(self@),
    {
        let formatter = SculptFormatter::from(self.node.clone());
        let mut r = String::from_str("    fn ");
        r.append(formatter.format_pick_method().as_str());
        r.append("(&self, picker: &mut impl ");
        r.append(formatter.format_picker_name().as_str());
        r.append(
            ") where Self: Sized {\n        let choice = picker.options()[0];\n        picker.fulfill(&choice);\n    }\n",
        );
        r
    }

    /// Writes the step of the dispatcher for the contract.
    pub fn dispatch(&self) -> (r: String)
        ensures
            r@ == dispatch_step(self@),
    {
        let mut r = String::from_str("        if ");
        let ghost head = r@;
        let ghost cv = requirements_view(self.conditions@);
        let mut k: usize = 0;
        assert(r@ =~= head + conditions_text(cv, 0));
        while k < self.conditions.len()
            invariant
                k <= self.conditions.len(),
                cv == requirements_view(self.conditions@),
                r@ == head + conditions_text(cv, k as int),
            decreases self.conditions.len() - k,
        {
            let condition = &self.conditions[k];
            assert(cv[k as int] == condition@);
            append_store(&mut r, &condition.path, condition.slot.as_str());
            r.append(" == Some(");
            r.append(SculptFormatter::from(condition.node.clone()).format_options_type().as_str());
            r.append("::");
            r.append(condition.tag.as_str());
            r.append(") && ");
            assert(r@ =~= head + conditions_text(cv, k + 1));
            k += 1;
        }
        append_store(&mut r, &self.path, self.slot.as_str());
        r.append(".is_none() {\n            self.callbacks.");
        r.append(SculptFormatter::from(self.node.clone()).format_pick_method().as_str());
        r.append("(self);\n            return true;\n        }\n");
        r
    }
}

fn check_nodes(nodes: &Vec<Declaration>) -> (r: Option<String>)
    ensures
        match r {
            Some(n) => first_unready_node(nodes_view(nodes@), 0) == Some(n@),
            None => first_unready_node(nodes_view(nodes@), 0) is None && forall|k: int|
                0 <= k < nodes.len() ==> node_ready(#[trigger] nodes_view(nodes@)[k]),
        },
{
    let ghost nv = nodes_view(nodes@);
    let mut k: usize = 0;
    while k < nodes.len()
        invariant
            k <= nodes.len(),
            nv == nodes_view(nodes@),
            first_unready_node(nv, 0) == first_unready_node(nv, k as int),
            forall|i: int| 0 <= i < k ==> node_ready(#[trigger] nv[i]),
        decreases nodes.len() - k,
    {
        assert(nv[k as int] == nodes[k as int]@);
        match &nodes[k] {
            Declaration::Product(p) => {
                if p.root && p.fields.len() == 0 {
                    return Some(p.name.clone());
                }
            },
            Declaration::Sum(_) => {},
        }
        k += 1;
    }
    None
}

fn check_contracts(contracts: &Vec<PickerContract>) -> (r: Option<String>)
    ensures
        match r {
            Some(n) => first_unready_contract(contracts_view(contracts@), 0) == Some(n@),
            None => first_unready_contract(contracts_view(contracts@), 0) is None && forall|k: int|
                0 <= k < contracts.len() ==> contract_ready(#[trigger] contracts_view(contracts@)[k]),
        },
{
    let ghost cv = contracts_view(contracts@);
    let mut k: usize = 0;
    while k < contracts.len()
        invariant
            k <= contracts.len(),
            cv == contracts_view(contracts@),
            first_unready_contract(cv, 0) == first_unready_contract(cv, k as int),
            forall|i: int| 0 <= i < k ==> contract_ready(#[trigger] cv[i]),
        decreases contracts.len() - k,
    {
        let c = &contracts[k];
        assert(cv[k as int] == c@);
        if c.payload.len() != c.options.len() || c.links.len() != c.options.len() {
            return Some(c.node.clone());
        }
        k += 1;
    }
    None
}

fn append_definitions(out: &mut String, nodes: &Vec<Declaration>)
    requires
        forall|i: int| 0 <= i < nodes.len() ==> node_ready(#[trigger] nodes_view(nodes@)[i]),
    ensures
        final(out)@ == old(out)@ + definitions_block(nodes_view(nodes@), nodes.len() as int),
{
    let ghost head = out@;
    let ghost nv = nodes_view(nodes@);
    let mut k: usize = 0;
    assert(out@ =~= head + definitions_block(nv, 0));
    while k < nodes.len()
        invariant
            k <= nodes.len(),
            nv == nodes_view(nodes@),
            forall|i: int| 0 <= i < nodes.len() ==> node_ready(#[trigger] nv[i]),
            out@ == head + definitions_block(nv, k as int),
        decreases nodes.len() - k,
    {
        assert(nv[k as int] == nodes[k as int]@);
        assert(node_ready(nv[k as int]));
        match &nodes[k] {
            Declaration::Product(p) => {
                out.append(p.generate().as_str());
            },
            Declaration::Sum(s) => {
                out.append(s.generate().as_str());
            },
        }
        assert(out@ =~= head + definitions_block(nv, k + 1));
        k += 1;
    }
}

fn append_contracts(out: &mut String, root: &str, contracts: &Vec<PickerContract>)
    requires
        forall|n: int|
            0 <= n < contracts.len() ==> contract_ready(#[trigger] contracts_view(contracts@)[n]),
    ensures
        final(out)@ == old(out)@ + contracts_block(
            root@,
            contracts_view(contracts@),
            contracts.len() as int,
        ),
{
    let ghost head = out@;
    let ghost cv = contracts_view(contracts@);
    let mut i: usize = 0;
    assert(out@ =~= head + contracts_block(root@, cv, 0));
    while i < contracts.len()
        invariant
            i <= contracts.len(),
            cv == contracts_view(contracts@),
            forall|n: int| 0 <= n < contracts.len() ==> contract_ready(#[trigger] cv[n]),
            out@ == head + contracts_block(root@, cv, i as int),
        decreases contracts.len() - i,
    {
        let c = &contracts[i];
        assert(cv[i as int] == c@);
        assert(contract_ready(cv[i as int]));
        out.append(c.options_enum().as_str());
        out.append(c.conversion().as_str());
        out.append(c.picker_impl(root).as_str());
        assert(out@ =~= head + contracts_block(root@, cv, i + 1));
        i += 1;
    }
}

fn append_callbacks_trait(out: &mut String, root: &str, contracts: &Vec<PickerContract>)
    ensures
        final(out)@ == old(out)@ + callbacks_trait_text(root@, contracts_view(contracts@)),
{
    let ghost before = out@;
    let ghost cv = contracts_view(contracts@);
    let builder = SculptFormatter::from(String::from_str(root)).format_builder_type();
    out.append("pub trait ");
    out.append(builder.as_str());
    out.append("Callbacks");
    out.append(" {\n");
    let ghost head = out@;
    let mut m: usize = 0;
    assert(out@ =~= head + callback_methods(cv, 0));
    while m < contracts.len()
        invariant
            m <= contracts.len(),
            cv == contracts_view(contracts@),
            out@ == head + callback_methods(cv, m as int),
        decreases contracts.len() - m,
    {
        assert(cv[m as int] == contracts[m as int]@);
        out.append(contracts[m].callback_method().as_str());
        assert(out@ =~= head + callback_methods(cv, m + 1));
        m += 1;
    }
    out.append("}\n");
    assert(out@ =~= before + callbacks_trait_text(root@, cv));
}

fn append_dispatcher(out: &mut String, root: &str, contracts: &Vec<PickerContract>)
    ensures
        final(out)@ == old(out)@ + dispatcher_text(root@, contracts_view(contracts@)),
{
    let ghost before = out@;
    let ghost cv = contracts_view(contracts@);
    let builder = SculptFormatter::from(String::from_str(root)).format_builder_type();
    out.append("impl<'a, T: ");
    out.append(builder.as_str());
    out.append("Callbacks");
    out.append("> ");
    out.append(builder.as_str());
    out.append("<'a, T> {\n    fn ask_pending(&mut self) -> bool {\n");
    let ghost head = out@;
    let mut n: usize = 0;
    assert(out@ =~= head + dispatch_steps(cv, 0));
    while n < contracts.len()
        invariant
            n <= contracts.len(),
            cv == contracts_view(contracts@),
            out@ == head + dispatch_steps(cv, n as int),
        decreases contracts.len() - n,
    {
        assert(cv[n as int] == contracts[n as int]@);
        out.append(contracts[n].dispatch().as_str());
        assert(out@ =~= head + dispatch_steps(cv, n + 1));
        n += 1;
    }
    out.append("        false\n    }\n}\n");
    assert(out@ =~= before + dispatcher_text(root@, cv));
}

/// Writes the schema and the contracts out as source text.
pub fn emit(schema: &BuilderSchema, contracts: &Vec<PickerContract>) -> (r: Result<String, EmitError>)
    ensures
        match r {
            Ok(text) => emit_outcome(schema@, contracts_view(contracts@)) == Ok::<
                Seq<char>,
                EmitErrorView,
            >(text@),
            Err(e) => emit_outcome(schema@, contracts_view(contracts@)) == Err::<
                Seq<char>,
                EmitErrorView,
            >(e@),
        },
{
    match check_nodes(&schema.nodes) {
        Some(n) => {
            return Err(EmitError::RootWithoutFields(n));
        },
        None => {},
    }
    match check_contracts(contracts) {
        Some(n) => {
            return Err(EmitError::MalformedContract(n));
        },
        None => {},
    }
    let mut r = String::new();
    append_definitions(&mut r, &schema.nodes);
    append_contracts(&mut r, schema.root.as_str(), contracts);
    append_callbacks_trait(&mut r, schema.root.as_str(), contracts);
    append_dispatcher(&mut r, schema.root.as_str(), contracts);
    assert(r@ =~= emitted_text(schema@, contracts_view(contracts@)));
    Ok(r)
}

} // verus!
