//! The header dependency graph, kept in a graph collection of the
//! `petgraph` crate behind trusted wrappers.
//!
//! Nodes are headers, numbered by insertion order; an edge `(a, b)` says the
//! header of node `b` uses a type that the header of node `a` declares, so
//! `a` has to be included first. The ghost functions `graph_node_count` and
//! `graph_edge_seq` name what the collection holds; `toposort_of` names the
//! order the sort returns, which depends on the graph alone.

use vstd::prelude::*;

use petgraph::graph::{Graph, NodeIndex};

verus! {

/// The dependency graph between headers: unweighted nodes and directed
/// unweighted edges, indexed by `usize` so that no index limit is reachable.
#[verifier::external_type_specification]
#[verifier::external_body]
#[verifier::reject_recursive_types(N)]
#[verifier::reject_recursive_types(E)]
#[verifier::reject_recursive_types(Ty)]
#[verifier::reject_recursive_types(Ix)]
pub struct ExGraph<N, E, Ty, Ix>(Graph<N, E, Ty, Ix>);

/// The marker type petgraph uses for graphs with directed edges.
#[verifier::external_type_specification]
#[verifier::external_body]
pub struct ExDirected(petgraph::Directed);

/// How many nodes the graph holds.
pub uninterp spec fn graph_node_count(g: Graph<(), (), petgraph::Directed, usize>) -> nat;

/// The directed edges of the graph, as pairs of node indices, in insertion
/// order.
pub uninterp spec fn graph_edge_seq(g: Graph<(), (), petgraph::Directed, usize>) -> Seq<
    (usize, usize),
>;

/// What the topological sort of the graph with `n` nodes (numbered `0..n`,
/// in insertion order) and the given edge list returns: `None` exactly when
/// the edges close a cycle, otherwise every node once, dependencies first.
/// The sort is deterministic, so its result is a function of the graph
/// alone.
pub uninterp spec fn toposort_of(n: int, edges: Seq<(usize, usize)>) -> Option<Seq<usize>>;

/// A non-empty node sequence that runs along edges and closes on itself.
pub open spec fn is_cycle(edges: Seq<(usize, usize)>, p: Seq<usize>) -> bool {
    &&& p.len() >= 1
    &&& forall|i: int| 0 <= i < p.len() - 1 ==> edges.contains((#[trigger] p[i], p[i + 1]))
    &&& edges.contains((p.last(), p.first()))
}

/// The edge list closes at least one cycle.
pub open spec fn has_cycle(edges: Seq<(usize, usize)>) -> bool {
    exists|p: Seq<usize>| is_cycle(edges, p)
}

/// `order` enumerates the nodes `0..n` exactly once each, and never places
/// the target of an edge at or before its source.
pub open spec fn is_topo_order(n: int, edges: Seq<(usize, usize)>, order: Seq<usize>) -> bool {
    &&& order.len() == n
    &&& forall|i: int| 0 <= i < n ==> (#[trigger] order[i]) < n
    &&& forall|i: int, j: int| 0 <= i < j < n ==> order[i] != order[j]
    &&& forall|i: int, j: int| 0 <= i <= j < n ==> !edges.contains((#[trigger] order[j], #[trigger] order[i]))
}

/// Relies on petgraph's `Graph::with_capacity`: creates a graph with no
/// nodes and no edges.
#[verifier::external_body]
pub(crate) fn graph_new() -> (g: Graph<(), (), petgraph::Directed, usize>)
    ensures
        graph_node_count(g) == 0,
        graph_edge_seq(g) == Seq::<(usize, usize)>::empty(),
{
    Graph::with_capacity(0, 0)
}

/// Relies on petgraph's `Graph::add_node`: appends one node and returns its
/// index, which petgraph assigns consecutively from zero; with `usize`
/// indices the index limit is unreachable, so the call cannot panic.
#[verifier::external_body]
pub(crate) fn graph_add_node(g: &mut Graph<(), (), petgraph::Directed, usize>) -> (ix: usize)
    ensures
        graph_node_count(*final(g)) == graph_node_count(*old(g)) + 1,
        graph_edge_seq(*final(g)) == graph_edge_seq(*old(g)),
        ix == graph_node_count(*old(g)),
{
    g.add_node(()).index()
}

/// Relies on petgraph's `Graph::add_edge`: appends one directed edge from
/// `a` to `b`; it panics only when an endpoint is no node of the graph,
/// which the precondition rules out.
#[verifier::external_body]
pub(crate) fn graph_add_edge(g: &mut Graph<(), (), petgraph::Directed, usize>, a: usize, b: usize)
    requires
        a < graph_node_count(*old(g)),
        b < graph_node_count(*old(g)),
    ensures
        graph_node_count(*final(g)) == graph_node_count(*old(g)),
        graph_edge_seq(*final(g)) == graph_edge_seq(*old(g)).push((a, b)),
{
    let _ = g.add_edge(NodeIndex::new(a), NodeIndex::new(b), ());
}

/// Relies on petgraph's `algo::toposort`: it returns `Err` exactly on a
/// cyclic graph, and otherwise a vector that holds every node once, each
/// node placed before its successors; the sort walks the graph
/// deterministically, so the result is a function of the graph alone, which
/// `toposort_of` names.
#[verifier::external_body]
pub(crate) fn graph_toposort(g: &Graph<(), (), petgraph::Directed, usize>) -> (r: Option<
    Vec<usize>,
>)
    ensures
        match r {
            Some(v) => toposort_of(graph_node_count(*g) as int, graph_edge_seq(*g)) == Some(v@)
                && is_topo_order(graph_node_count(*g) as int, graph_edge_seq(*g), v@),
            None => toposort_of(graph_node_count(*g) as int, graph_edge_seq(*g)) is None,
        },
        r is None <==> has_cycle(graph_edge_seq(*g)),
{
    match petgraph::algo::toposort(g, None) {
        Ok(v) => Some(v.into_iter().map(|ix| ix.index()).collect()),
        Err(_) => None,
    }
}

} // verus!
