//! The dependency graph of a declaration set: one node per declared type,
//! references between nodes by name, and the one root.

use vstd::prelude::*;
use crate::field::{Field, FieldView};
use crate::pickable::{OptionView, Pickable, PickableOption, PickableView};
use crate::sculptable_struct::{SculptableStruct, StructView};

verus! {

/// A declared type: a product type or a sum type.
pub enum Declaration {
    Product(SculptableStruct),
    Sum(Pickable),
}

/// What a declared type is, as plain values.
pub enum NodeView {
    Product(StructView),
    Sum(PickableView),
}

impl View for Declaration {
    type V = NodeView;

    open spec fn view(&self) -> NodeView {
        match *self {
            Declaration::Product(p) => NodeView::Product(p@),
            Declaration::Sum(s) => NodeView::Sum(s@),
        }
    }
}

impl Clone for Declaration {
    fn clone(&self) -> (r: Declaration)
        ensures
            r@ == self@,
    {
        match self {
            Declaration::Product(p) => Declaration::Product(p.clone()),
            Declaration::Sum(s) => Declaration::Sum(s.clone()),
        }
    }
}

impl Declaration {
    pub fn name(&self) -> (r: &String)
        ensures
            r@ == node_name(self@),
    {
        match self {
            Declaration::Product(p) => &p.name,
            Declaration::Sum(s) => s.name(),
        }
    }
}

/// Why a declaration set is not a graph that a wizard can be made for.
#[derive(Debug, PartialEq, Eq)]
pub enum GraphError {
    /// No product type carries the root marker.
    NoRoot,
    /// More than one product type carries the root marker.
    MultipleRoots,
    /// A field refers to a type, named here, that is not declared.
    UnresolvedReference(String),
    /// The type named here has a shape that no wizard can be made for.
    InvalidFieldShape(String),
}

/// A graph error, as plain values.
pub enum GraphErrorView {
    NoRoot,
    MultipleRoots,
    UnresolvedReference(Seq<char>),
    InvalidFieldShape(Seq<char>),
}

impl View for GraphError {
    type V = GraphErrorView;

    open spec fn view(&self) -> GraphErrorView {
        match *self {
            GraphError::NoRoot => GraphErrorView::NoRoot,
            GraphError::MultipleRoots => GraphErrorView::MultipleRoots,
            GraphError::UnresolvedReference(n) => GraphErrorView::UnresolvedReference(n@),
            GraphError::InvalidFieldShape(n) => GraphErrorView::InvalidFieldShape(n@),
        }
    }
}

/// The declared types of a list, each as plain values.
pub open spec fn nodes_view(nodes: Seq<Declaration>) -> Seq<NodeView> {
    nodes.map_values(|d: Declaration| d@)
}

pub open spec fn node_name(n: NodeView) -> Seq<char> {
    match n {
        NodeView::Product(p) => p.name,
        NodeView::Sum(s) => s.name,
    }
}

pub open spec fn is_root(n: NodeView) -> bool {
    n matches NodeView::Product(p) && p.root
}

/// The place of the first node at or after place `k` that is named `name`.
pub open spec fn find_from(nodes: Seq<NodeView>, name: Seq<char>, k: int) -> Option<int>
    decreases nodes.len() - k,
{
    if k < 0 || k >= nodes.len() {
        None
    } else if node_name(nodes[k]) == name {
        Some(k)
    } else {
        find_from(nodes, name, k + 1)
    }
}

/// The place of the node that the name `name` refers to: the first
/// declaration of that name.
pub open spec fn find(nodes: Seq<NodeView>, name: Seq<char>) -> Option<int> {
    find_from(nodes, name, 0)
}

/// How many of the first `k` nodes carry the root marker.
pub open spec fn count_roots(nodes: Seq<NodeView>, k: int) -> nat
    decreases k,
{
    if k <= 0 || k > nodes.len() {
        0
    } else {
        count_roots(nodes, k - 1) + if is_root(nodes[k - 1]) {
            1nat
        } else {
            0nat
        }
    }
}

/// The place of the first node at or after place `k` that carries the root
/// marker; the number of nodes where there is none.
pub open spec fn first_root_from(nodes: Seq<NodeView>, k: int) -> int
    decreases nodes.len() - k,
{
    if k < 0 || k >= nodes.len() {
        nodes.len() as int
    } else if is_root(nodes[k]) {
        k
    } else {
        first_root_from(nodes, k + 1)
    }
}

/// The first type name, among those that the fields from place `k` on refer
/// to, that is not declared.
pub open spec fn unresolved_in_fields(nodes: Seq<NodeView>, fields: Seq<FieldView>, k: int) -> Option<
    Seq<char>,
>
    decreases fields.len() - k,
{
    if k < 0 || k >= fields.len() {
        None
    } else if find(nodes, fields[k].ty_name) is None {
        Some(fields[k].ty_name)
    } else {
        unresolved_in_fields(nodes, fields, k + 1)
    }
}

/// The first undeclared type name among the fields of the variants from
/// place `j` on.
pub open spec fn unresolved_in_options(nodes: Seq<NodeView>, options: Seq<OptionView>, j: int) -> Option<
    Seq<char>,
>
    decreases options.len() - j,
{
    if j < 0 || j >= options.len() {
        None
    } else {
        match unresolved_in_fields(nodes, options[j].fields, 0) {
            Some(n) => Some(n),
            None => unresolved_in_options(nodes, options, j + 1),
        }
    }
}

/// The first undeclared type name that a node refers to.
pub open spec fn unresolved_in_node(nodes: Seq<NodeView>, n: NodeView) -> Option<Seq<char>> {
    match n {
        NodeView::Product(p) => unresolved_in_fields(nodes, p.fields, 0),
        NodeView::Sum(s) => unresolved_in_options(nodes, s.options, 0),
    }
}

/// The first undeclared type name that the nodes from place `k` on refer to,
/// in declaration order.
pub open spec fn unresolved_from(nodes: Seq<NodeView>, k: int) -> Option<Seq<char>>
    decreases nodes.len() - k,
{
    if k < 0 || k >= nodes.len() {
        None
    } else {
        match unresolved_in_node(nodes, nodes[k]) {
            Some(n) => Some(n),
            None => unresolved_from(nodes, k + 1),
        }
    }
}

/// What becomes of a declaration set: the place of its root, or the reason
/// why it is refused. The number of roots is judged first, then the shape of
/// the root, then the references.
pub open spec fn build_outcome(nodes: Seq<NodeView>) -> Result<int, GraphErrorView> {
    let roots = count_roots(nodes, nodes.len() as int);
    let root = first_root_from(nodes, 0);
    if roots == 0 {
        Err(GraphErrorView::NoRoot)
    } else if roots >= 2 {
        Err(GraphErrorView::MultipleRoots)
    } else if nodes[root]->Product_0.fields.len() == 0 {
        Err(GraphErrorView::InvalidFieldShape(node_name(nodes[root])))
    } else {
        match unresolved_from(nodes, 0) {
            Some(n) => Err(GraphErrorView::UnresolvedReference(n)),
            None => Ok(root),
        }
    }
}

/// The single-root rule: a declaration set without a root is refused for
/// having none, one with two or more roots for having several; one with
/// exactly one root is accepted where that root has a field and every
/// reference names a declared type.
pub proof fn lemma_single_root(nodes: Seq<NodeView>)
    ensures
        count_roots(nodes, nodes.len() as int) == 0 ==> build_outcome(nodes) == Err::<
            int,
            GraphErrorView,
        >(GraphErrorView::NoRoot),
        count_roots(nodes, nodes.len() as int) >= 2 ==> build_outcome(nodes) == Err::<
            int,
            GraphErrorView,
        >(GraphErrorView::MultipleRoots),
        count_roots(nodes, nodes.len() as int) == 1 && nodes[first_root_from(
            nodes,
            0,
        )]->Product_0.fields.len() > 0 && unresolved_from(nodes, 0) is None ==> build_outcome(nodes)
            == Ok::<int, GraphErrorView>(first_root_from(nodes, 0)),
{
}

/// What a dependency graph is, as plain values.
pub struct GraphView {
    pub nodes: Seq<NodeView>,
    pub root: int,
}

/// The graph of a declaration set that has exactly one root, whose root has
/// fields and whose every reference names a declared type.
pub struct DependencyGraph {
    nodes: Vec<Declaration>,
    root: usize,
}

impl View for DependencyGraph {
    type V = GraphView;

    closed spec fn view(&self) -> GraphView {
        GraphView { nodes: nodes_view(self.nodes@), root: self.root as int }
    }
}

/// Looks a type name up among the declarations.
pub fn find_node(nodes: &Vec<Declaration>, name: &String) -> (r: Option<usize>)
    ensures
        match r {
            Some(i) => i < nodes.len() && find(nodes_view(nodes@), name@) == Some(i as int),
            None => find(nodes_view(nodes@), name@) is None,
        },
{
    let ghost view = nodes_view(nodes@);
    let mut k: usize = 0;
    while k < nodes.len()
        invariant
            k <= nodes.len(),
            view == nodes_view(nodes@),
            find(view, name@) == find_from(view, name@, k as int),
        decreases nodes.len() - k,
    {
        if *nodes[k].name() == *name {
            return Some(k);
        }
        k += 1;
    }
    None
}

fn fields_unresolved(nodes: &Vec<Declaration>, fields: &Vec<Field>) -> (r: Option<String>)
    ensures
        match r {
            Some(n) => unresolved_in_fields(nodes_view(nodes@), crate::field::fields_view(fields@), 0)
                == Some(n@),
            None => unresolved_in_fields(nodes_view(nodes@), crate::field::fields_view(fields@), 0)
                is None,
        },
{
    let ghost view = nodes_view(nodes@);
    let ghost fv = crate::field::fields_view(fields@);
    let mut k: usize = 0;
    while k < fields.len()
        invariant
            k <= fields.len(),
            view == nodes_view(nodes@),
            fv == crate::field::fields_view(fields@),
            unresolved_in_fields(view, fv, 0) == unresolved_in_fields(view, fv, k as int),
        decreases fields.len() - k,
    {
        let name = fields[k].ty_name();
        if find_node(nodes, name).is_none() {
            return Some(name.clone());
        }
        k += 1;
    }
    None
}

fn options_unresolved(nodes: &Vec<Declaration>, options: &Vec<PickableOption>) -> (r: Option<String>)
    ensures
        match r {
            Some(n) => unresolved_in_options(
                nodes_view(nodes@),
                crate::pickable::options_view(options@),
                0,
            ) == Some(n@),
            None => unresolved_in_options(
                nodes_view(nodes@),
                crate::pickable::options_view(options@),
                0,
            ) is None,
        },
{
    let ghost view = nodes_view(nodes@);
    let ghost ov = crate::pickable::options_view(options@);
    let mut j: usize = 0;
    while j < options.len()
        invariant
            j <= options.len(),
            view == nodes_view(nodes@),
            ov == crate::pickable::options_view(options@),
            unresolved_in_options(view, ov, 0) == unresolved_in_options(view, ov, j as int),
        decreases options.len() - j,
    {
        match options[j].fields() {
            Some(fields) => {
                match fields_unresolved(nodes, fields) {
                    Some(n) => {
                        return Some(n);
                    },
                    None => {},
                }
            },
            None => {
                assert(ov[j as int].fields.len() == 0);
            },
        }
        j += 1;
    }
    None
}

/// Builds the graph of a declaration set, or says why there is none.
pub fn build(declarations: Vec<Declaration>) -> (r: Result<DependencyGraph, GraphError>)
    ensures
        match r {
            Ok(g) => g@.nodes == nodes_view(declarations@) && g.wf() && build_outcome(g@.nodes)
                == Ok::<int, GraphErrorView>(g@.root),
            Err(e) => build_outcome(nodes_view(declarations@)) == Err::<int, GraphErrorView>(e@),
        },
{
    let ghost view = nodes_view(declarations@);
    let mut roots: usize = 0;
    let mut root: usize = 0;
    let mut k: usize = 0;
    while k < declarations.len()
        invariant
            k <= declarations.len(),
            view == nodes_view(declarations@),
            roots == count_roots(view, k as int),
            roots <= k,
            roots == 0 ==> first_root_from(view, 0) == first_root_from(view, k as int),
            roots > 0 ==> root < k && first_root_from(view, 0) == root && is_root(view[root as int]),
            roots <= 1 ==> forall|i: int|
                0 <= i < k && is_root(#[trigger] view[i]) ==> i == root && roots == 1,
        decreases declarations.len() - k,
    {
        let marked = match &declarations[k] {
            Declaration::Product(p) => p.root,
            Declaration::Sum(_) => false,
        };
        if marked {
            if roots == 0 {
                root = k;
            }
            roots += 1;
        }
        k += 1;
    }
    if roots == 0 {
        return Err(GraphError::NoRoot);
    }
    if roots >= 2 {
        return Err(GraphError::MultipleRoots);
    }
    match &declarations[root] {
        Declaration::Product(p) => {
            if p.fields.len() == 0 {
                return Err(GraphError::InvalidFieldShape(p.name.clone()));
            }
        },
        Declaration::Sum(_) => {},
    }
    assert(view[root as int]->Product_0.fields.len() > 0);
    assert(forall|i: int| 0 <= i < view.len() && is_root(#[trigger] view[i]) ==> i == root);
    let mut i: usize = 0;
    while i < declarations.len()
        invariant
            i <= declarations.len(),
            view == nodes_view(declarations@),
            count_roots(view, view.len() as int) == 1,
            first_root_from(view, 0) == root,
            view[root as int]->Product_0.fields.len() > 0,
            forall|i: int| 0 <= i < view.len() && is_root(#[trigger] view[i]) ==> i == root,
            unresolved_from(view, 0) == unresolved_from(view, i as int),
        decreases declarations.len() - i,
    {
        let found = match &declarations[i] {
            Declaration::Product(p) => fields_unresolved(&declarations, &p.fields),
            Declaration::Sum(s) => options_unresolved(&declarations, s.options()),
        };
        match found {
            Some(n) => {
                return Err(GraphError::UnresolvedReference(n));
            },
            None => {},
        }
        i += 1;
    }
    Ok(DependencyGraph { nodes: declarations, root })
}

impl DependencyGraph {
    /// The graph stands for a declaration set that `build` accepts.
    pub closed spec fn wf(&self) -> bool {
        &&& self.root < self.nodes.len()
        &&& is_root(nodes_view(self.nodes@)[self.root as int])
        &&& forall|i: int|
            0 <= i < self.nodes.len() && is_root(#[trigger] nodes_view(self.nodes@)[i]) ==> i
                == self.root
        &&& build_outcome(nodes_view(self.nodes@)) == Ok::<int, GraphErrorView>(self.root as int)
    }

    /// The root of a graph is one of its nodes, and a product type.
    pub proof fn lemma_root(&self)
        requires
            self.wf(),
        ensures
            0 <= self@.root < self@.nodes.len(),
            is_root(self@.nodes[self@.root]),
            self@.nodes[self@.root]->Product_0.fields.len() > 0,
            forall|i: int|
                0 <= i < self@.nodes.len() && is_root(#[trigger] self@.nodes[i]) ==> i
                    == self@.root,
            build_outcome(self@.nodes) == Ok::<int, GraphErrorView>(self@.root),
    {
    }

    pub fn nodes(&self) -> (r: &Vec<Declaration>)
        ensures
            nodes_view(r@) == self@.nodes,
    {
        &self.nodes
    }

    pub fn root(&self) -> (r: usize)
        ensures
            r == self@.root,
    {
        self.root
    }
}

} // verus!
