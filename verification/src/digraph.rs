//! The directed graph and the breadth-first walk of the `petgraph` crate, as
//! far as the library uses them.
//!
//! Verus does not read `petgraph`. What this file says of it is taken from
//! its source and believed, not proved. The graphs here have `usize` node
//! and edge weights and the default `u32` indices.

use fixedbitset::FixedBitSet;
use petgraph::graph::Graph;
use petgraph::graph::NodeIndex;
use petgraph::visit::Bfs;
use petgraph::visit::EdgeRef;
use petgraph::Directed;
use petgraph::Direction;
use vstd::prelude::*;

verus! {

/// Declares `petgraph::graph::Graph`: a type that is carried along, and of
/// whose inside nothing is seen.
#[verifier::external_type_specification]
#[verifier::external_body]
#[verifier::reject_recursive_types(N)]
#[verifier::reject_recursive_types(E)]
#[verifier::reject_recursive_types(Ty)]
#[verifier::reject_recursive_types(Ix)]
pub struct ExGraph<N, E, Ty, Ix>(Graph<N, E, Ty, Ix>);

/// Declares `petgraph::Directed`, the marker of graphs with directed edges.
#[verifier::external_type_specification]
#[verifier::external_body]
pub struct ExDirected(Directed);

/// Declares `petgraph::graph::NodeIndex`, the index of a node.
#[verifier::external_type_specification]
#[verifier::external_body]
#[verifier::reject_recursive_types(Ix)]
pub struct ExNodeIndex<Ix>(NodeIndex<Ix>);

/// Declares `fixedbitset::FixedBitSet`, in which a walk marks the nodes it
/// has discovered.
#[verifier::external_type_specification]
#[verifier::external_body]
pub struct ExFixedBitSet(FixedBitSet);

/// Declares `petgraph::visit::Bfs`, the state of a breadth-first walk.
#[verifier::external_type_specification]
#[verifier::external_body]
#[verifier::reject_recursive_types(N)]
#[verifier::reject_recursive_types(VM)]
pub struct ExBfs<N, VM>(Bfs<N, VM>);

/// The graph that holds a stack: a node for each request, an edge from a
/// request to each request that merges into it.
pub type RequestGraph = Graph<usize, usize, Directed, u32>;

/// A breadth-first walk over a [`RequestGraph`].
pub type Walk = Bfs<NodeIndex<u32>, FixedBitSet>;

/// The weights of the nodes of a graph, by the index of the node.
pub uninterp spec fn graph_nodes(graph: RequestGraph) -> Seq<usize>;

/// The edges of a graph in the order in which they were added, each as the
/// index of its source and the index of its target.
pub uninterp spec fn graph_edges(graph: RequestGraph) -> Seq<(int, int)>;

/// The nodes that a walk has discovered and not yet visited, the one to
/// visit next first.
pub uninterp spec fn walk_queue(walk: Walk) -> Seq<int>;

/// The nodes that a walk has discovered.
pub uninterp spec fn walk_seen(walk: Walk) -> Set<int>;

/// The number of nodes that a walk can tell apart: that of the graph it was
/// made for, at that time.
pub uninterp spec fn walk_capacity(walk: Walk) -> nat;

/// The targets of the edges that leave `node`, the edge added last first.
pub open spec fn successors(edges: Seq<(int, int)>, node: int) -> Seq<int>
    decreases edges.len(),
{
    if edges.len() == 0 {
        Seq::empty()
    } else if edges.last().0 == node {
        seq![edges.last().1] + successors(edges.drop_last(), node)
    } else {
        successors(edges.drop_last(), node)
    }
}

/// The sources of the edges that enter `node`, the edge added last first.
pub open spec fn predecessors(edges: Seq<(int, int)>, node: int) -> Seq<int>
    decreases edges.len(),
{
    if edges.len() == 0 {
        Seq::empty()
    } else if edges.last().1 == node {
        seq![edges.last().0] + predecessors(edges.drop_last(), node)
    } else {
        predecessors(edges.drop_last(), node)
    }
}

/// Whether some edge enters `node`.
pub open spec fn is_target(edges: Seq<(int, int)>, node: int) -> bool {
    exists|k: int| 0 <= k < edges.len() && (#[trigger] edges[k]).1 == node
}

/// The nodes below `count` that no edge enters, in rising order.
pub open spec fn sources(edges: Seq<(int, int)>, count: int) -> Seq<int>
    decreases count,
{
    if count <= 0 {
        Seq::empty()
    } else if is_target(edges, count - 1) {
        sources(edges, count - 1)
    } else {
        sources(edges, count - 1).push(count - 1)
    }
}

/// The nodes of `nodes` that are not in `seen`, each at its first place
/// only, in their order.
pub open spec fn fresh(nodes: Seq<int>, seen: Set<int>) -> Seq<int>
    decreases nodes.len(),
{
    if nodes.len() == 0 {
        Seq::empty()
    } else if seen.contains(nodes[0]) {
        fresh(nodes.skip(1), seen)
    } else {
        seq![nodes[0]] + fresh(nodes.skip(1), seen.insert(nodes[0]))
    }
}

/// Whether every edge joins two nodes below `count`.
pub open spec fn edges_within(edges: Seq<(int, int)>, count: int) -> bool {
    forall|k: int|
        0 <= k < edges.len() ==> 0 <= (#[trigger] edges[k]).0 < count && 0 <= edges[k].1 < count
}

/// What a sequence of indices holds, as integers.
pub open spec fn indices(places: Seq<usize>) -> Seq<int> {
    Seq::new(places.len(), |i: int| places[i] as int)
}

/// Calls `Graph::new`, which makes a directed graph without nodes or edges.
#[verifier::external_body]
pub(crate) fn graph_new() -> (graph: RequestGraph)
    ensures
        graph_nodes(graph) == Seq::<usize>::empty(),
        graph_edges(graph) == Seq::<(int, int)>::empty(),
{
    Graph::new()
}

/// Calls `Graph::add_node`, which appends a node with the given weight and
/// returns its index, the number of nodes before. It panics when the graph
/// holds as many nodes as `u32` can count, which `requires` leaves out.
#[verifier::external_body]
pub(crate) fn graph_add_node(graph: &mut RequestGraph, weight: usize) -> (index: usize)
    requires
        graph_nodes(*old(graph)).len() < u32::MAX,
    ensures
        graph_nodes(*final(graph)) == graph_nodes(*old(graph)).push(weight),
        graph_edges(*final(graph)) == graph_edges(*old(graph)),
        index == graph_nodes(*old(graph)).len(),
{
    graph.add_node(weight).index()
}

/// Calls `Graph::add_edge`, which appends an edge from the node `source` to
/// the node `target`. It panics when one of the nodes does not exist or
/// when the graph holds as many edges as `u32` can count, which `requires`
/// leaves out.
#[verifier::external_body]
pub(crate) fn graph_add_edge(graph: &mut RequestGraph, source: usize, target: usize, weight: usize)
    requires
        source < graph_nodes(*old(graph)).len(),
        target < graph_nodes(*old(graph)).len(),
        graph_edges(*old(graph)).len() < u32::MAX,
    ensures
        graph_edges(*final(graph)) == graph_edges(*old(graph)).push((source as int, target as int)),
        graph_nodes(*final(graph)) == graph_nodes(*old(graph)),
{
    graph.add_edge(NodeIndex::new(source), NodeIndex::new(target), weight);
}

/// Calls `Graph::externals` with `Direction::Incoming`, which walks the
/// nodes by rising index and yields those that no edge enters.
#[verifier::external_body]
pub(crate) fn graph_roots(graph: &RequestGraph) -> (roots: Vec<usize>)
    ensures
        indices(roots@) == sources(graph_edges(*graph), graph_nodes(*graph).len() as int),
{
    graph.externals(Direction::Incoming).map(|node| node.index()).collect()
}

/// Calls `Graph::edges_directed` with `Direction::Incoming`, which yields
/// the edges that enter `node`, the edge added last first; the result
/// holds the source of each.
#[verifier::external_body]
pub(crate) fn graph_incoming(graph: &RequestGraph, node: usize) -> (from: Vec<usize>)
    requires
        node < graph_nodes(*graph).len(),
    ensures
        indices(from@) == predecessors(graph_edges(*graph), node as int),
{
    graph.edges_directed(NodeIndex::new(node), Direction::Incoming).map(|edge| edge.source().index()).collect()
}

/// Calls `Bfs::new`, which makes a walk that has discovered `start` and
/// nothing else, with room for the nodes that the graph has. It panics
/// when `start` is no node of the graph, which `requires` leaves out.
#[verifier::external_body]
pub(crate) fn walk_new(graph: &RequestGraph, start: usize) -> (walk: Walk)
    requires
        start < graph_nodes(*graph).len(),
    ensures
        walk_queue(walk) == seq![start as int],
        walk_seen(walk) == set![start as int],
        walk_capacity(walk) == graph_nodes(*graph).len(),
{
    Bfs::new(graph, NodeIndex::new(start))
}

/// Calls `Bfs::next`, which takes the first node off the queue, marks the
/// targets of the edges that leave it as discovered, the edge added last
/// first, puts those that were not discovered before at the end of the
/// queue, and returns the node; with an empty queue it returns `None`
/// and changes nothing. It panics when a target is beyond the room of
/// the walk, which `requires` leaves out.
#[verifier::external_body]
pub(crate) fn walk_next(walk: &mut Walk, graph: &RequestGraph) -> (node: Option<usize>)
    requires
        edges_within(graph_edges(*graph), walk_capacity(*old(walk)) as int),
    ensures
        match node {
            Some(node) => {
                &&& walk_queue(*old(walk)).len() > 0
                &&& node == walk_queue(*old(walk))[0]
                &&& walk_queue(*final(walk)) == walk_queue(*old(walk)).skip(1) + fresh(
                    successors(graph_edges(*graph), node as int),
                    walk_seen(*old(walk)),
                )
                &&& walk_seen(*final(walk)) == walk_seen(*old(walk)).union(
                    successors(graph_edges(*graph), node as int).to_set(),
                )
            },
            None => {
                &&& walk_queue(*old(walk)).len() == 0
                &&& walk_queue(*final(walk)) == walk_queue(*old(walk))
                &&& walk_seen(*final(walk)) == walk_seen(*old(walk))
            },
        },
        walk_capacity(*final(walk)) == walk_capacity(*old(walk)),
{
    walk.next(graph).map(|node| node.index())
}

/// Nodes that were not seen and are distinct are all fresh.
pub proof fn unseen_are_fresh(nodes: Seq<int>, seen: Set<int>)
    requires
        nodes.no_duplicates(),
        forall|k: int| 0 <= k < nodes.len() ==> !seen.contains(#[trigger] nodes[k]),
    ensures
        fresh(nodes, seen) == nodes,
    decreases nodes.len(),
{
    if nodes.len() > 0 {
        let rest = nodes.skip(1);
        assert forall|k: int| 0 <= k < rest.len() implies !seen.insert(nodes[0]).contains(
            #[trigger] rest[k],
        ) by {
            assert(rest[k] == nodes[k + 1]);
        }
        unseen_are_fresh(rest, seen.insert(nodes[0]));
        assert(seq![nodes[0]] + rest =~= nodes);
    }
}

} // verus!
