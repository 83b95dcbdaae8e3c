//! Ordering the nodes of a directed graph so that every edge points forward.

use vstd::prelude::*;

verus! {

/// Whether `edges` holds an edge from `from` to `to`.
pub open spec fn is_edge(edges: Seq<(usize, usize)>, from: int, to: int) -> bool {
    exists|k: int| 0 <= k < edges.len() && #[trigger] edges[k].0 == from && edges[k].1 == to
}

/// Adding an edge relates its ends and changes nothing else.
pub proof fn lemma_is_edge_push(edges: Seq<(usize, usize)>, edge: (usize, usize), from: int, to: int)
    ensures
        is_edge(edges.push(edge), from, to) <==> (is_edge(edges, from, to) || (edge.0 == from
            && edge.1 == to)),
{
    let longer = edges.push(edge);
    if is_edge(edges, from, to) {
        let k = choose|k: int| 0 <= k < edges.len() && #[trigger] edges[k].0 == from && edges[k].1 == to;
        assert(longer[k].0 == from && longer[k].1 == to);
    }
    if edge.0 == from && edge.1 == to {
        assert(longer[edges.len() as int].0 == from && longer[edges.len() as int].1 == to);
    }
    if is_edge(longer, from, to) {
        let k = choose|k: int|
            0 <= k < longer.len() && #[trigger] longer[k].0 == from && longer[k].1 == to;
        if k < edges.len() {
            assert(edges[k].0 == from && edges[k].1 == to);
        }
    }
}

/// The relation that a list of edges stands for.
pub open spec fn edge_relation(edges: Seq<(usize, usize)>) -> spec_fn(int, int) -> bool {
    |from: int, to: int| is_edge(edges, from, to)
}

/// Whether each node of `walk` is related to the next one. A walk has at
/// least one step.
pub open spec fn is_walk(related: spec_fn(int, int) -> bool, walk: Seq<int>) -> bool {
    &&& walk.len() >= 2
    &&& forall|k: int| 0 <= k < walk.len() - 1 ==> related(#[trigger] walk[k], walk[k + 1])
}

/// Whether a walk leads from `node` back to `node`.
pub open spec fn on_cycle(related: spec_fn(int, int) -> bool, node: int) -> bool {
    exists|walk: Seq<int>| #[trigger]
        is_walk(related, walk) && walk[0] == node && walk[walk.len() - 1] == node
}

/// Whether `node` stands somewhere in `order`.
pub open spec fn has_place(order: Seq<usize>, node: int) -> bool {
    exists|at: int| 0 <= at < order.len() && order[at] == node
}

/// Whether `order` lists each of the nodes `0..node_count` once, every node
/// before the nodes that it is related to.
pub open spec fn is_topological_order(
    order: Seq<usize>,
    node_count: nat,
    related: spec_fn(int, int) -> bool,
) -> bool {
    &&& order.len() == node_count
    &&& order.no_duplicates()
    &&& forall|at: int| 0 <= at < order.len() ==> #[trigger] order[at] < node_count
    &&& forall|node: int| 0 <= node < node_count ==> #[trigger] has_place(order, node)
    &&& forall|a: int, b: int|
        0 <= a < order.len() && 0 <= b < order.len() && related(
            #[trigger] order[a] as int,
            #[trigger] order[b] as int,
        ) ==> a < b
}

/// Along a walk over ordered nodes, every node stands after the first one.
proof fn lemma_walk_moves_forward(
    order: Seq<usize>,
    node_count: nat,
    related: spec_fn(int, int) -> bool,
    walk: Seq<int>,
    positions: Seq<int>,
    upto: int,
)
    requires
        is_topological_order(order, node_count, related),
        is_walk(related, walk),
        positions.len() == walk.len(),
        forall|k: int|
            0 <= k < walk.len() ==> 0 <= #[trigger] positions[k] < order.len() && order[positions[k]]
                == walk[k],
        1 <= upto < walk.len(),
    ensures
        positions[0] < positions[upto],
    decreases upto,
{
    assert(related(walk[upto - 1], walk[upto]));
    assert(order[positions[upto - 1]] as int == walk[upto - 1]);
    assert(order[positions[upto]] as int == walk[upto]);
    if upto > 1 {
        lemma_walk_moves_forward(order, node_count, related, walk, positions, upto - 1);
    }
}

/// Every node of a walk over `0..node_count` nodes that are related only
/// among themselves has a place in a topological order.
pub open spec fn relates_nodes_only(related: spec_fn(int, int) -> bool, node_count: nat) -> bool {
    forall|a: int, b: int| #[trigger]
        related(a, b) ==> 0 <= a < node_count && 0 <= b < node_count
}

/// A graph that has a topological order has no cycle.
pub proof fn lemma_ordered_graph_has_no_cycle(
    order: Seq<usize>,
    node_count: nat,
    related: spec_fn(int, int) -> bool,
    node: int,
)
    requires
        is_topological_order(order, node_count, related),
        relates_nodes_only(related, node_count),
    ensures
        !on_cycle(related, node),
{
    if on_cycle(related, node) {
        let walk = choose|walk: Seq<int>| #[trigger]
            is_walk(related, walk) && walk[0] == node && walk[walk.len() - 1] == node;
        assert forall|k: int| 0 <= k < walk.len() implies 0 <= #[trigger] walk[k] < node_count by {
            if k < walk.len() - 1 {
                assert(related(walk[k], walk[k + 1]));
            } else {
                assert(related(walk[k - 1], walk[k - 1 + 1]));
            }
        }
        let positions = Seq::new(
            walk.len(),
            |k: int| choose|at: int| 0 <= at < order.len() && order[at] == walk[k],
        );
        assert forall|k: int| 0 <= k < walk.len() implies 0 <= #[trigger] positions[k] < order.len()
            && order[positions[k]] == walk[k] by {
            assert(0 <= walk[k] < node_count);
            assert(has_place(order, walk[k]));
        }
        lemma_walk_moves_forward(order, node_count, related, walk, positions, walk.len() - 1);
        let last = walk.len() - 1;
        assert(order[positions[0]] == order[positions[last]]);
        assert(positions[0] == positions[last]);
    }
}

/// Calls `petgraph::algo::toposort` on the directed graph with the nodes
/// `0..node_count` and the given edges. The contract claims of it what its
/// documentation says: on success the nodes come back in topological order,
/// each node once and before its successors; on failure the node that comes
/// back lies on a cycle (a self loop counts). The graph is built with `usize`
/// indices, for which petgraph documents no limit on the number of nodes or
/// edges.
#[verifier::external_body]
pub(crate) fn toposort(node_count: usize, edges: &Vec<(usize, usize)>) -> (sorted: Result<
    Vec<usize>,
    usize,
>)
    requires
        forall|k: int|
            0 <= k < edges.len() ==> (#[trigger] edges[k]).0 < node_count && edges[k].1
                < node_count,
    ensures
        match sorted {
            Ok(order) => is_topological_order(order@, node_count as nat, edge_relation(edges@)),
            Err(node) => node < node_count && on_cycle(edge_relation(edges@), node as int),
        },
{
    let mut graph = petgraph::Graph::<(), (), petgraph::Directed, usize>::default();
    let nodes: Vec<_> = (0..node_count).map(|_| graph.add_node(())).collect();
    for (from, to) in edges.iter() {
        graph.add_edge(nodes[*from], nodes[*to], ());
    }
    match petgraph::algo::toposort(&graph, None) {
        Ok(order) => Ok(order.into_iter().map(|node| node.index()).collect()),
        Err(cycle) => Err(cycle.node_id().index()),
    }
}

} // verus!
