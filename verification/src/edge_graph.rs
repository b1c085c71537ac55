use vstd::prelude::*;
use terrain_graph::edge_attributed_undirected::EdgeAttributedUndirectedGraph;

verus! {

#[verifier::external_type_specification]
#[verifier::external_body]
#[verifier::reject_recursive_types(Attr)]
pub struct ExEdgeGraph<Attr: Copy + Clone + Default>(EdgeAttributedUndirectedGraph<Attr>);

/// What an edge-attributed undirected graph holds: one list per vertex, in
/// insertion order, of `(neighbor, attribute)` entries. Edge attributes are
/// carried as a small bit code so the stored items stay plain integers.
pub uninterp spec fn graph_adjacency(g: EdgeAttributedUndirectedGraph<u8>) -> Seq<Seq<(usize, u8)>>;

/// The graph's internal edge counter.
pub uninterp spec fn graph_size(g: EdgeAttributedUndirectedGraph<u8>) -> int;

/// Relies on EdgeAttributedUndirectedGraph::new: a graph of `order`
/// vertices, each with an empty adjacency list, and no edges.
#[verifier::external_body]
pub fn graph_new(order: usize) -> (g: EdgeAttributedUndirectedGraph<u8>)
    ensures
        graph_adjacency(g).len() == order,
        forall|v: int|
            0 <= v < order ==> #[trigger] graph_adjacency(g)[v] == Seq::<(usize, u8)>::empty(),
        graph_size(g) == 0,
{
    EdgeAttributedUndirectedGraph::new(order)
}

/// Relies on EdgeAttributedUndirectedGraph::add_edge: appends `(w, attr)`
/// to `v`'s adjacency list, then `(v, attr)` to `w`'s, and counts one more
/// edge.
#[verifier::external_body]
pub fn graph_add_edge(g: &mut EdgeAttributedUndirectedGraph<u8>, v: usize, w: usize, attr: u8)
    requires
        v < graph_adjacency(*old(g)).len(),
        w < graph_adjacency(*old(g)).len(),
        graph_size(*old(g)) < usize::MAX,
    ensures
        graph_adjacency(*final(g)) == ({
            let adj = graph_adjacency(*old(g));
            let adj1 = adj.update(v as int, adj[v as int].push((w, attr)));
            adj1.update(w as int, adj1[w as int].push((v, attr)))
        }),
        graph_size(*final(g)) == graph_size(*old(g)) + 1,
{
    g.add_edge(v, w, attr);
}

/// A vertex's adjacency list holds an entry for `w`.
pub open spec fn adjacency_holds(adj: Seq<(usize, u8)>, w: usize) -> bool {
    exists|k: int| 0 <= k < adj.len() && (#[trigger] adj[k]).0 == w
}

/// Relies on EdgeAttributedUndirectedGraph::has_edge: whether `v`'s
/// adjacency list holds an entry for `w`.
#[verifier::external_body]
pub fn graph_has_edge(g: &EdgeAttributedUndirectedGraph<u8>, v: usize, w: usize) -> (r: bool)
    requires
        v < graph_adjacency(*g).len(),
    ensures
        r == adjacency_holds(graph_adjacency(*g)[v as int], w),
{
    g.has_edge(v, w).0
}

/// Relies on EdgeAttributedUndirectedGraph::neighbors_of: `v`'s adjacency
/// list, in insertion order.
#[verifier::external_body]
pub fn graph_neighbors(g: &EdgeAttributedUndirectedGraph<u8>, v: usize) -> (r: Vec<(usize, u8)>)
    requires
        v < graph_adjacency(*g).len(),
    ensures
        r@ == graph_adjacency(*g)[v as int],
{
    g.neighbors_of(v).clone()
}

} // verus!
