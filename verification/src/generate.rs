//! The whole generation run: from a declaration set to the source text of
//! its wizard.

use vstd::prelude::*;
use crate::emit::{emit, emitted_text, lemma_contracts_ready, lemma_nodes_ready};
use crate::graph::{
    build, build_outcome, nodes_view, Declaration, GraphError, GraphErrorView, GraphView, NodeView,
};
use crate::resolve::{resolve, resolve_outcome};
use crate::schema::{compile, compiled_contracts, compiled_schema, contracts_view};

verus! {

/// What a generation run makes of a declaration set: the graph is built,
/// its decisions are resolved, the schema and the contracts are compiled,
/// and the text is emitted. The first error ends the run.
pub open spec fn generation(declarations: Seq<NodeView>) -> Result<Seq<char>, GraphErrorView> {
    match build_outcome(declarations) {
        Err(e) => Err(e),
        Ok(root) => {
            let g = GraphView { nodes: declarations, root };
            match resolve_outcome(g) {
                Err(e) => Err(e),
                Ok(r) => Ok(emitted_text(compiled_schema(g, r), compiled_contracts(r))),
            }
        },
    }
}

/// Generates the source text of the wizard of a declaration set.
pub fn generate(declarations: Vec<Declaration>) -> (r: Result<String, GraphError>)
    ensures
        match r {
            Ok(text) => generation(nodes_view(declarations@)) == Ok::<Seq<char>, GraphErrorView>(
                text@,
            ),
            Err(e) => generation(nodes_view(declarations@)) == Err::<Seq<char>, GraphErrorView>(
                e@,
            ),
        },
{
    let graph = match build(declarations) {
        Ok(graph) => graph,
        Err(e) => {
            return Err(e);
        },
    };
    assert(graph@ == (GraphView { nodes: graph@.nodes, root: graph@.root }));
    let table = match resolve(&graph) {
        Ok(table) => table,
        Err(e) => {
            return Err(e);
        },
    };
    let (schema, contracts) = compile(&graph, &table);
    proof {
        lemma_nodes_ready(schema@.nodes, 0);
        lemma_contracts_ready(contracts_view(contracts@), 0);
    }
    match emit(&schema, &contracts) {
        Ok(text) => Ok(text),
        Err(_) => vstd::pervasive::unreached(),
    }
}

/// Determinism: a generation run is a function of the declaration set.
/// Declaration sets that hold the same declarations in the same order give
/// the same outcome, character for character.
pub proof fn lemma_generation_deterministic(a: Seq<NodeView>, b: Seq<NodeView>)
    requires
        a.len() == b.len(),
        forall|i: int| 0 <= i < a.len() ==> a[i] == b[i],
    ensures
        generation(a) == generation(b),
{
    assert(a =~= b);
}

} // verus!
