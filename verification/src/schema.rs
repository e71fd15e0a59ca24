//! The builder schema compiler: from the graph and the resolved tables to
//! the declarations that take part in the construction and to one picker
//! contract per decision-point type.

use vstd::prelude::*;
use crate::graph::{find, find_node, node_name, nodes_view, Declaration, DependencyGraph, NodeView};
use crate::resolve::{Resolution, ResolutionView};
use crate::table::{
    clone_layouts, clone_path, clone_strings, decisions_view, layouts_view, path_view, row_wf,
    slots_view, strings_view, tables_wf, DecisionPoint, DecisionView, Layout, LayoutView,
    PathSegment, SegmentView, SlotKind, SlotView, Tables,
};

verus! {

/// A choice that a decision depends on: the variant `tag` of the sum type
/// `node`, stored in `slot` at the end of `path`.
#[derive(Debug, PartialEq, Eq)]
pub struct Requirement {
    pub path: Vec<PathSegment>,
    pub slot: String,
    pub node: String,
    pub tag: String,
}

/// A requirement, as plain values.
pub struct RequirementView {
    pub path: Seq<SegmentView>,
    pub slot: Seq<char>,
    pub node: Seq<char>,
    pub tag: Seq<char>,
}

impl View for Requirement {
    type V = RequirementView;

    open spec fn view(&self) -> RequirementView {
        RequirementView {
            path: path_view(self.path@),
            slot: self.slot@,
            node: self.node@,
            tag: self.tag@,
        }
    }
}

/// The requirements of a list, each as plain values.
pub open spec fn requirements_view(s: Seq<Requirement>) -> Seq<RequirementView> {
    s.map_values(|r: Requirement| r@)
}

/// The picker contract of a decision-point type: its options, where the
/// chosen option is stored, which decision each option triggers, and the
/// choices that make the decision required.
#[derive(Debug, PartialEq, Eq)]
pub struct PickerContract {
    /// The sum type that is decided.
    pub node: String,
    /// The tags of the options, in declaration order.
    pub options: Vec<String>,
    /// For each option, whether its variant carries fields.
    pub payload: Vec<bool>,
    /// The path from the root's builder to the builder that holds the slot.
    pub path: Vec<PathSegment>,
    /// The slot that stores the chosen option.
    pub slot: String,
    /// For each option, the sum type whose decision it triggers.
    pub links: Vec<Option<String>>,
    /// The choices under which the decision is required, innermost first.
    pub conditions: Vec<Requirement>,
}

/// A picker contract, as plain values.
pub struct ContractView {
    pub node: Seq<char>,
    pub options: Seq<Seq<char>>,
    pub payload: Seq<bool>,
    pub path: Seq<SegmentView>,
    pub slot: Seq<char>,
    pub links: Seq<Option<Seq<char>>>,
    pub conditions: Seq<RequirementView>,
}

impl View for PickerContract {
    type V = ContractView;

    open spec fn view(&self) -> ContractView {
        ContractView {
            node: self.node@,
            options: strings_view(self.options@),
            payload: self.payload@,
            path: path_view(self.path@),
            slot: self.slot@,
            links: crate::value::names_view(self.links@),
            conditions: requirements_view(self.conditions@),
        }
    }
}

/// The contracts of a list, each as plain values.
pub open spec fn contracts_view(s: Seq<PickerContract>) -> Seq<ContractView> {
    s.map_values(|c: PickerContract| c@)
}

/// The builder schema: the root type; in declaration order, the
/// declarations that get a builder state; and the layout of each builder,
/// with the path that leads to it.
pub struct BuilderSchema {
    pub root: String,
    pub nodes: Vec<Declaration>,
    pub layouts: Vec<Layout>,
}

/// A builder schema, as plain values.
pub struct SchemaView {
    pub root: Seq<char>,
    pub nodes: Seq<NodeView>,
    pub layouts: Seq<LayoutView>,
}

impl View for BuilderSchema {
    type V = SchemaView;

    open spec fn view(&self) -> SchemaView {
        SchemaView {
            root: self.root@,
            nodes: nodes_view(self.nodes@),
            layouts: layouts_view(self.layouts@),
        }
    }
}

/// The choice of variant `j` of the row at place `p`, as a requirement.
pub open spec fn requirement(t: Tables, p: int, j: int) -> RequirementView {
    RequirementView {
        path: t.decisions[p].path,
        slot: t.decisions[p].slot,
        node: t.decisions[p].node,
        tag: t.decisions[p].options[j],
    }
}

/// The choices under which the row at place `d` is required, innermost
/// first, appended to `acc`.
pub open spec fn chain_from(t: Tables, d: int, acc: Seq<RequirementView>) -> Seq<RequirementView>
    decreases d,
{
    if d < 0 || d >= t.decisions.len() {
        acc
    } else {
        match t.decisions[d].parent {
            None => acc,
            Some(p) => if p.0 < d {
                chain_from(t, p.0 as int, acc.push(requirement(t, p.0 as int, p.1 as int)))
            } else {
                acc
            },
        }
    }
}

/// The sum types that the links lead to.
pub open spec fn link_names(t: Tables, links: Seq<Option<usize>>) -> Seq<Option<Seq<char>>> {
    Seq::new(
        links.len(),
        |i: int|
            match links[i] {
                Some(q) => Some(t.decisions[q as int].node),
                None => None,
            },
    )
}

/// The picker contract that the row at place `d` gives.
pub open spec fn contract_of(t: Tables, d: int) -> ContractView {
    let row = t.decisions[d];
    ContractView {
        node: row.node,
        options: row.options,
        payload: row.payload,
        path: row.path,
        slot: row.slot,
        links: link_names(t, row.links),
        conditions: chain_from(t, d, Seq::empty()),
    }
}

/// The place of the first row at or after place `k` that decides the sum
/// type `name`.
pub open spec fn first_named(rows: Seq<DecisionView>, name: Seq<char>, k: int) -> Option<int>
    decreases rows.len() - k,
{
    if k < 0 || k >= rows.len() {
        None
    } else if rows[k].node == name {
        Some(k)
    } else {
        first_named(rows, name, k + 1)
    }
}

/// The contracts of the rows from place `d` on, appended to `acc`: one per
/// sum type, from the first row that decides it.
pub open spec fn contracts_from(t: Tables, d: int, acc: Seq<ContractView>) -> Seq<ContractView>
    decreases t.decisions.len() - d,
{
    if d < 0 || d >= t.decisions.len() {
        acc
    } else if first_named(t.decisions, t.decisions[d].node, 0) == Some(d) {
        contracts_from(t, d + 1, acc.push(contract_of(t, d)))
    } else {
        contracts_from(t, d + 1, acc)
    }
}

/// Whether one of the slots from place `k` on is a sub-builder of the type
/// `name`.
pub open spec fn nested_in_slots(slots: Seq<SlotView>, name: Seq<char>, k: int) -> bool
    decreases slots.len() - k,
{
    if k < 0 || k >= slots.len() {
        false
    } else if slots[k].kind is Nested && slots[k].ty_name == name {
        true
    } else {
        nested_in_slots(slots, name, k + 1)
    }
}

/// Whether one of the layouts from place `l` on holds a sub-builder of the
/// type `name`.
pub open spec fn nested_named(layouts: Seq<LayoutView>, name: Seq<char>, l: int) -> bool
    decreases layouts.len() - l,
{
    if l < 0 || l >= layouts.len() {
        false
    } else if nested_in_slots(layouts[l].slots, name, 0) {
        true
    } else {
        nested_named(layouts, name, l + 1)
    }
}

/// Whether the node at place `i` takes part in the construction: the root,
/// a sum type that a row decides, a product type that a slot nests. Of
/// several declarations of one name only the first takes part.
pub open spec fn participates(g: Seq<NodeView>, t: Tables, root: int, i: int) -> bool {
    find(g, node_name(g[i])) == Some(i) && (i == root || match g[i] {
        NodeView::Sum(s) => first_named(t.decisions, s.name, 0) is Some,
        NodeView::Product(p) => nested_named(t.layouts, p.name, 0),
    })
}

/// The nodes from place `i` on that take part, appended to `acc`.
pub open spec fn schema_nodes(g: Seq<NodeView>, t: Tables, root: int, i: int, acc: Seq<NodeView>) -> Seq<
    NodeView,
>
    decreases g.len() - i,
{
    if i < 0 || i >= g.len() {
        acc
    } else if participates(g, t, root, i) {
        schema_nodes(g, t, root, i + 1, acc.push(g[i]))
    } else {
        schema_nodes(g, t, root, i + 1, acc)
    }
}

/// The builder schema of a graph and its tables.
pub open spec fn compiled_schema(g: crate::graph::GraphView, r: ResolutionView) -> SchemaView {
    SchemaView {
        root: node_name(g.nodes[g.root]),
        nodes: schema_nodes(g.nodes, r.tables, g.root, 0, Seq::empty()),
        layouts: r.tables.layouts,
    }
}

/// The picker contracts of the tables.
pub open spec fn compiled_contracts(r: ResolutionView) -> Seq<ContractView> {
    contracts_from(r.tables, 0, Seq::empty())
}

fn find_row(rows: &Vec<DecisionPoint>, name: &String) -> (r: Option<usize>)
    ensures
        match r {
            Some(d) => d < rows.len() && first_named(decisions_view(rows@), name@, 0) == Some(
                d as int,
            ),
            None => first_named(decisions_view(rows@), name@, 0) is None,
        },
{
    let ghost view = decisions_view(rows@);
    let mut k: usize = 0;
    while k < rows.len()
        invariant
            k <= rows.len(),
            view == decisions_view(rows@),
            first_named(view, name@, 0) == first_named(view, name@, k as int),
        decreases rows.len() - k,
    {
        if rows[k].node == *name {
            return Some(k);
        }
        k += 1;
    }
    None
}

fn nests(layouts: &Vec<Layout>, name: &String) -> (r: bool)
    ensures
        r == nested_named(layouts_view(layouts@), name@, 0),
{
    let ghost view = layouts_view(layouts@);
    let mut l: usize = 0;
    while l < layouts.len()
        invariant
            l <= layouts.len(),
            view == layouts_view(layouts@),
            nested_named(view, name@, 0) == nested_named(view, name@, l as int),
        decreases layouts.len() - l,
    {
        let slots = &layouts[l].slots;
        let ghost sv = slots_view(slots@);
        assert(sv == view[l as int].slots);
        let mut k: usize = 0;
        let mut found = false;
        while k < slots.len() && !found
            invariant
                k <= slots.len(),
                sv == slots_view(slots@),
                found ==> nested_in_slots(sv, name@, 0),
                !found ==> nested_in_slots(sv, name@, 0) == nested_in_slots(sv, name@, k as int),
            decreases slots.len() - k + if found { 0int } else { 1int },
        {
            let nested = match slots[k].kind {
                SlotKind::Nested(_) => true,
                _ => false,
            };
            if nested && slots[k].ty_name == *name {
                found = true;
            } else {
                k += 1;
            }
        }
        if found {
            return true;
        }
        l += 1;
    }
    false
}

fn clone_flags(s: &Vec<bool>) -> (r: Vec<bool>)
    ensures
        r@ == s@,
{
    let mut r: Vec<bool> = Vec::new();
    let mut i: usize = 0;
    while i < s.len()
        invariant
            i <= s.len(),
            r.len() == i,
            forall|k: int| 0 <= k < i ==> r[k] == s[k],
        decreases s.len() - i,
    {
        r.push(s[i]);
        i += 1;
    }
    assert(r@ =~= s@);
    r
}

fn contract_for(rows: &Vec<DecisionPoint>, d: usize, Ghost(t): Ghost<Tables>) -> (r: PickerContract)
    requires
        tables_wf(t),
        t.decisions == decisions_view(rows@),
        d < rows.len(),
    ensures
        r@ == contract_of(t, d as int),
{
    let row = &rows[d];
    assert(row@ == t.decisions[d as int]);
    assert(row_wf(t, d as int));
    let mut links: Vec<Option<String>> = Vec::new();
    let mut i: usize = 0;
    while i < row.links.len()
        invariant
            i <= row.links.len(),
            links.len() == i,
            tables_wf(t),
            t.decisions == decisions_view(rows@),
            d < rows.len(),
            row@ == t.decisions[d as int],
            row_wf(t, d as int),
            forall|k: int|
                0 <= k < i ==> crate::field::name_view(#[trigger] links[k]) == link_names(
                    t,
                    row@.links,
                )[k],
        decreases row.links.len() - i,
    {
        assert(crate::table::link_ok(t, d as int, row@.links[i as int]));
        let link = match row.links[i] {
            Some(q) => {
                assert(rows[q as int]@ == t.decisions[q as int]);
                Some(rows[q].node.clone())
            },
            None => None,
        };
        links.push(link);
        i += 1;
    }
    assert(crate::value::names_view(links@) =~= link_names(t, row@.links));
    let mut conditions: Vec<Requirement> = Vec::new();
    assert(requirements_view(conditions@) =~= Seq::empty());
    let mut cur: usize = d;
    let mut parent = rows[d].parent;
    while parent.is_some()
        invariant
            tables_wf(t),
            t.decisions == decisions_view(rows@),
            cur < rows.len(),
            parent == t.decisions[cur as int].parent,
            chain_from(t, d as int, Seq::empty()) == chain_from(
                t,
                cur as int,
                requirements_view(conditions@),
            ),
        decreases cur,
    {
        assert(row_wf(t, cur as int));
        let p = parent.unwrap();
        assert(rows[p.0 as int]@ == t.decisions[p.0 as int]);
        let above = &rows[p.0];
        assert(above@.options[p.1 as int] == above.options[p.1 as int]@);
        let requirement = Requirement {
            path: clone_path(&above.path),
            slot: above.slot.clone(),
            node: above.node.clone(),
            tag: above.options[p.1].clone(),
        };
        let ghost before = conditions@;
        conditions.push(requirement);
        assert(requirements_view(conditions@) =~= requirements_view(before).push(requirement@));
        cur = p.0;
        parent = rows[cur].parent;
    }
    PickerContract {
        node: row.node.clone(),
        options: clone_strings(&row.options),
        payload: clone_flags(&row.payload),
        path: clone_path(&row.path),
        slot: row.slot.clone(),
        links,
        conditions,
    }
}

/// Compiles the builder schema and the picker contracts of a graph and the
/// tables resolved from it.
pub fn compile(graph: &DependencyGraph, resolution: &Resolution) -> (r: (
    BuilderSchema,
    Vec<PickerContract>,
))
    requires
        graph.wf(),
        resolution.wf(),
    ensures
        r.0@ == compiled_schema(graph@, resolution@),
        contracts_view(r.1@) == compiled_contracts(resolution@),
        forall|k: int| 0 <= k < r.0.nodes.len() ==> crate::emit::node_ready(#[trigger] r.0@.nodes[k]),
        forall|k: int|
            0 <= k < r.1.len() ==> crate::emit::contract_ready(#[trigger] contracts_view(r.1@)[k]),
{
    proof {
        graph.lemma_root();
    }
    let ghost t = resolution@.tables;
    let ghost g = graph@.nodes;
    let nodes = graph.nodes();
    let rows = resolution.decisions();
    let layouts = resolution.layouts();
    let root = graph.root();
    let mut taking_part: Vec<Declaration> = Vec::new();
    assert(nodes_view(taking_part@) =~= Seq::empty());
    assert forall|n: int| 0 <= n < g.len() implies crate::emit::node_ready(#[trigger] g[n]) by {
        if crate::graph::is_root(g[n]) {
            assert(n == graph@.root);
        }
    }
    let mut i: usize = 0;
    while i < nodes.len()
        invariant
            i <= nodes.len(),
            g == nodes_view(nodes@),
            t.decisions == decisions_view(rows@),
            t.layouts == layouts_view(layouts@),
            root == graph@.root,
            forall|n: int| 0 <= n < g.len() ==> crate::emit::node_ready(#[trigger] g[n]),
            forall|n: int|
                0 <= n < taking_part.len() ==> crate::emit::node_ready(
                    #[trigger] nodes_view(taking_part@)[n],
                ),
            schema_nodes(g, t, root as int, 0, Seq::empty()) == schema_nodes(
                g,
                t,
                root as int,
                i as int,
                nodes_view(taking_part@),
            ),
        decreases nodes.len() - i,
    {
        let node = &nodes[i];
        assert(node@ == g[i as int]);
        let first = match find_node(nodes, node.name()) {
            Some(k) => k == i,
            None => false,
        };
        let reached = i == root || match node {
            Declaration::Sum(s) => find_row(rows, s.name()).is_some(),
            Declaration::Product(p) => nests(layouts, &p.name),
        };
        if first && reached {
            let ghost before = taking_part@;
            taking_part.push(node.clone());
            assert(nodes_view(taking_part@) =~= nodes_view(before).push(node@));
        }
        i += 1;
    }
    let mut contracts: Vec<PickerContract> = Vec::new();
    assert(contracts_view(contracts@) =~= Seq::empty());
    let mut d: usize = 0;
    while d < rows.len()
        invariant
            d <= rows.len(),
            tables_wf(t),
            t.decisions == decisions_view(rows@),
            forall|n: int|
                0 <= n < contracts.len() ==> crate::emit::contract_ready(
                    #[trigger] contracts_view(contracts@)[n],
                ),
            contracts_from(t, 0, Seq::empty()) == contracts_from(
                t,
                d as int,
                contracts_view(contracts@),
            ),
        decreases rows.len() - d,
    {
        assert(rows[d as int]@ == t.decisions[d as int]);
        let first = match find_row(rows, &rows[d].node) {
            Some(k) => k == d,
            None => false,
        };
        if first {
            let contract = contract_for(rows, d, Ghost(t));
            assert(row_wf(t, d as int));
            assert(crate::emit::contract_ready(contract@));
            let ghost before = contracts@;
            contracts.push(contract);
            assert(contracts_view(contracts@) =~= contracts_view(before).push(contract@));
        }
        d += 1;
    }
    (
        BuilderSchema {
            root: nodes[root].name().clone(),
            nodes: taking_part,
            layouts: clone_layouts(layouts),
        },
        contracts,
    )
}

} // verus!
