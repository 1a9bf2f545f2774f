//! Walks, reachability and distances over the edges of a document.
//!
//! An edge joins its source to its target; read without direction it also
//! joins its target to its source. Distances are counted in edges.
use vstd::prelude::*;
use crate::model::{Edge, EdgeId, NodeId};

verus! {

/// Whether edge `e` leads from `u` to `v` (in either direction when `directed` is false).
pub open spec fn joins(e: Edge, directed: bool, u: NodeId, v: NodeId) -> bool {
    ||| (e.source.node_id == u && e.target.node_id == v)
    ||| (!directed && e.target.node_id == u && e.source.node_id == v)
}

/// Whether some edge of `edges` leads from `u` to `v`.
pub open spec fn step(edges: Seq<Edge>, directed: bool, u: NodeId, v: NodeId) -> bool {
    exists|i: int| 0 <= i < edges.len() && #[trigger] joins(edges[i], directed, u, v)
}

/// Whether `w` is a walk: a non-empty sequence of nodes, each joined to the next.
pub open spec fn is_walk(edges: Seq<Edge>, directed: bool, w: Seq<NodeId>) -> bool {
    &&& w.len() >= 1
    &&& forall|i: int| 0 <= i < w.len() - 1 ==> #[trigger] step(edges, directed, w[i], w[i + 1])
}

/// Whether a walk of exactly `k` edges leads from one of `sources` to `v`.
pub open spec fn reaches_in(
    edges: Seq<Edge>,
    directed: bool,
    sources: Set<NodeId>,
    v: NodeId,
    k: nat,
) -> bool {
    exists|w: Seq<NodeId>|
        #[trigger] is_walk(edges, directed, w) && w.len() == k + 1 && sources.contains(w[0])
            && w.last() == v
}

/// Whether some walk leads from one of `sources` to `v`.
pub open spec fn reachable(edges: Seq<Edge>, directed: bool, sources: Set<NodeId>, v: NodeId) -> bool {
    exists|k: nat| #[trigger] reaches_in(edges, directed, sources, v, k)
}

/// Whether `k` is the length of a shortest walk from `sources` to `v`.
pub open spec fn is_distance(
    edges: Seq<Edge>,
    directed: bool,
    sources: Set<NodeId>,
    v: NodeId,
    k: nat,
) -> bool {
    &&& reaches_in(edges, directed, sources, v, k)
    &&& forall|j: nat| j < k ==> !#[trigger] reaches_in(edges, directed, sources, v, j)
}

/// Whether the edge with identifier `eid` at some position of `edges` leads from `u` to `v`.
pub open spec fn edge_with_id_joins(
    edges: Seq<Edge>,
    directed: bool,
    eid: EdgeId,
    u: NodeId,
    v: NodeId,
) -> bool {
    exists|i: int| 0 <= i < edges.len() && edges[i].id == eid && #[trigger] joins(edges[i], directed, u, v)
}

/// Whether `ids` names, edge by edge, a walk through the nodes `w`.
pub open spec fn follows_edges(
    edges: Seq<Edge>,
    directed: bool,
    ids: Seq<EdgeId>,
    w: Seq<NodeId>,
) -> bool {
    &&& w.len() == ids.len() + 1
    &&& forall|i: int|
        0 <= i < ids.len() ==> #[trigger] edge_with_id_joins(edges, directed, ids[i], w[i], w[i + 1])
}

/// Every node that appears as an endpoint of an edge.
pub open spec fn endpoints(edges: Seq<Edge>) -> Set<NodeId> {
    edges.map_values(|e: Edge| e.source.node_id).to_set().union(
        edges.map_values(|e: Edge| e.target.node_id).to_set(),
    )
}

/// A breadth-first search tree over `edges` grown from `sources`: sources have depth 0,
/// only they do, and every other node records the node one level up and the edge to it.
pub open spec fn is_search_tree(
    edges: Seq<Edge>,
    directed: bool,
    sources: Set<NodeId>,
    depth: Map<NodeId, usize>,
    parent: Map<NodeId, (NodeId, EdgeId)>,
) -> bool {
    &&& forall|s: NodeId| #[trigger] sources.contains(s) ==> depth.contains_key(s) && depth[s] == 0
    &&& forall|v: NodeId| #[trigger] depth.contains_key(v) && depth[v] == 0 ==> sources.contains(v)
    &&& forall|v: NodeId|
        #[trigger] depth.contains_key(v) && depth[v] > 0 ==> {
            &&& parent.contains_key(v)
            &&& depth.contains_key(parent[v].0)
            &&& depth[parent[v].0] + 1 == depth[v]
            &&& edge_with_id_joins(edges, directed, parent[v].1, parent[v].0, v)
        }
}

/// Every step out of a node with a depth leads to a node with a depth at most one more.
pub open spec fn closed_under_steps(
    edges: Seq<Edge>,
    directed: bool,
    depth: Map<NodeId, usize>,
) -> bool {
    forall|u: NodeId, x: NodeId|
        #[trigger] step(edges, directed, u, x) && depth.contains_key(u) ==> depth.contains_key(x)
            && depth[x] <= depth[u] + 1
}

/// Following parents from a node of a search tree gives a walk from a source
/// whose length is the node's depth.
pub proof fn lemma_tree_walk(
    edges: Seq<Edge>,
    directed: bool,
    sources: Set<NodeId>,
    depth: Map<NodeId, usize>,
    parent: Map<NodeId, (NodeId, EdgeId)>,
    v: NodeId,
)
    requires
        is_search_tree(edges, directed, sources, depth, parent),
        depth.contains_key(v),
    ensures
        reaches_in(edges, directed, sources, v, depth[v] as nat),
    decreases depth[v],
{
    if depth[v] == 0 {
        let w = seq![v];
        assert(is_walk(edges, directed, w));
    } else {
        let p = parent[v].0;
        lemma_tree_walk(edges, directed, sources, depth, parent, p);
        let w = choose|w: Seq<NodeId>|
            #[trigger] is_walk(edges, directed, w) && w.len() == depth[p] as nat + 1
                && sources.contains(w[0]) && w.last() == p;
        let i = choose|i: int|
            0 <= i < edges.len() && edges[i].id == parent[v].1 && #[trigger] joins(
                edges[i],
                directed,
                p,
                v,
            );
        assert(step(edges, directed, p, v));
        let w2 = w.push(v);
        assert forall|j: int| 0 <= j < w2.len() - 1 implies #[trigger] step(
            edges,
            directed,
            w2[j],
            w2[j + 1],
        ) by {
            if j < w.len() - 1 {
                assert(w2[j] == w[j] && w2[j + 1] == w[j + 1]);
            } else {
                assert(w2[j] == p && w2[j + 1] == v);
            }
        }
        assert(is_walk(edges, directed, w2));
        assert(w2[0] == w[0]);
    }
}

/// In a depth map closed under steps that gives every source depth 0, every walk
/// from a source ends at a node with a depth no more than the walk's length.
pub proof fn lemma_closed_walk_bound(
    edges: Seq<Edge>,
    directed: bool,
    sources: Set<NodeId>,
    depth: Map<NodeId, usize>,
    w: Seq<NodeId>,
)
    requires
        closed_under_steps(edges, directed, depth),
        forall|s: NodeId| #[trigger] sources.contains(s) ==> depth.contains_key(s) && depth[s] == 0,
        is_walk(edges, directed, w),
        sources.contains(w[0]),
    ensures
        depth.contains_key(w.last()),
        depth[w.last()] <= w.len() - 1,
    decreases w.len(),
{
    if w.len() > 1 {
        let w1 = w.drop_last();
        assert forall|i: int| 0 <= i < w1.len() - 1 implies #[trigger] step(
            edges,
            directed,
            w1[i],
            w1[i + 1],
        ) by {
            assert(step(edges, directed, w[i], w[i + 1]));
        }
        lemma_closed_walk_bound(edges, directed, sources, depth, w1);
        let i = w.len() - 2;
        assert(step(edges, directed, w[i], w[i + 1]));
        assert(w1.last() == w[i]);
    }
}

/// A finished search: a search tree closed under steps gives each node its distance
/// from the sources, and gives no depth to nodes that cannot be reached.
pub proof fn lemma_search_distances(
    edges: Seq<Edge>,
    directed: bool,
    sources: Set<NodeId>,
    depth: Map<NodeId, usize>,
    parent: Map<NodeId, (NodeId, EdgeId)>,
)
    requires
        is_search_tree(edges, directed, sources, depth, parent),
        closed_under_steps(edges, directed, depth),
    ensures
        forall|v: NodeId|
            #[trigger] depth.contains_key(v) ==> is_distance(
                edges,
                directed,
                sources,
                v,
                depth[v] as nat,
            ),
        forall|v: NodeId|
            depth.contains_key(v) <==> #[trigger] reachable(edges, directed, sources, v),
{
    assert forall|v: NodeId| #[trigger] depth.contains_key(v) implies is_distance(
        edges,
        directed,
        sources,
        v,
        depth[v] as nat,
    ) by {
        lemma_tree_walk(edges, directed, sources, depth, parent, v);
        assert forall|j: nat| j < depth[v] as nat implies !#[trigger] reaches_in(
            edges,
            directed,
            sources,
            v,
            j,
        ) by {
            if reaches_in(edges, directed, sources, v, j) {
                let w = choose|w: Seq<NodeId>|
                    #[trigger] is_walk(edges, directed, w) && w.len() == j + 1 && sources.contains(
                        w[0],
                    ) && w.last() == v;
                lemma_closed_walk_bound(edges, directed, sources, depth, w);
            }
        }
    }
    assert forall|v: NodeId| depth.contains_key(v) <==> #[trigger] reachable(
        edges,
        directed,
        sources,
        v,
    ) by {
        if depth.contains_key(v) {
            lemma_tree_walk(edges, directed, sources, depth, parent, v);
            assert(reaches_in(edges, directed, sources, v, depth[v] as nat));
        }
        if reachable(edges, directed, sources, v) {
            let k = choose|k: nat| #[trigger] reaches_in(edges, directed, sources, v, k);
            let w = choose|w: Seq<NodeId>|
                #[trigger] is_walk(edges, directed, w) && w.len() == k + 1 && sources.contains(w[0])
                    && w.last() == v;
            lemma_closed_walk_bound(edges, directed, sources, depth, w);
        }
    }
}

/// A node has at most one distance from a set of sources.
pub proof fn lemma_distance_unique(
    edges: Seq<Edge>,
    directed: bool,
    sources: Set<NodeId>,
    v: NodeId,
    k1: nat,
    k2: nat,
)
    requires
        is_distance(edges, directed, sources, v, k1),
        is_distance(edges, directed, sources, v, k2),
    ensures
        k1 == k2,
{
    if k1 < k2 {
        assert(!reaches_in(edges, directed, sources, v, k1));
    } else if k2 < k1 {
        assert(!reaches_in(edges, directed, sources, v, k2));
    }
}

} // verus!
