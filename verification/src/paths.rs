//! Shortest connections between two nodes, with edges read in both directions.
use vstd::prelude::*;
use crate::model::{Edge, EdgeId, FlowchartDocument, NodeId};
use crate::graph::{
    edge_with_id_joins, follows_edges, is_distance, is_walk, joins, lemma_distance_unique, reachable,
    reaches_in, step,
};
use crate::search::breadth_first;

verus! {

broadcast use vstd::std_specs::hash::group_hash_axioms;

/// Whether `len` is the number of edges on a shortest connection from `from` to `to`,
/// edges read in both directions, or `None` exactly when there is no connection.
pub open spec fn is_shortest_length(edges: Seq<Edge>, from: NodeId, to: NodeId, len: Option<usize>) -> bool {
    match len {
        Some(k) => is_distance(edges, false, set![from], to, k as nat),
        None => !reachable(edges, false, set![from], to),
    }
}

/// Whether `path` lists, from `to` back to `from`, the edges of a shortest connection between
/// them (edges read in both directions); empty when they are the same node or not connected.
pub open spec fn is_shortest_edge_path(edges: Seq<Edge>, from: NodeId, to: NodeId, path: Seq<EdgeId>) -> bool {
    &&& from == to || !reachable(edges, false, set![from], to) ==> path.len() == 0
    &&& from != to && reachable(edges, false, set![from], to) ==> {
        &&& is_distance(edges, false, set![from], to, path.len())
        &&& exists|w: Seq<NodeId>|
            #[trigger] follows_edges(edges, false, path, w) && w[0] == to && w.last() == from
    }
}

/// Read in reverse, a walk along edges taken in both directions is again such a walk.
pub proof fn lemma_reverse_walk(edges: Seq<Edge>, w: Seq<NodeId>) -> (r: Seq<NodeId>)
    requires
        is_walk(edges, false, w),
    ensures
        is_walk(edges, false, r),
        r.len() == w.len(),
        r[0] == w.last(),
        r.last() == w[0],
{
    let n = w.len();
    let r = Seq::new(n, |i: int| w[n - 1 - i]);
    assert forall|i: int| 0 <= i < r.len() - 1 implies #[trigger] step(edges, false, r[i], r[i + 1]) by {
        let j = n - 2 - i;
        assert(step(edges, false, w[j], w[j + 1]));
        let e = choose|e: int| 0 <= e < edges.len() && #[trigger] joins(edges[e], false, w[j], w[j + 1]);
        assert(joins(edges[e], false, w[j + 1], w[j]));
        assert(r[i] == w[j + 1] && r[i + 1] == w[j]);
    }
    r
}

proof fn lemma_reaches_reversed(edges: Seq<Edge>, a: NodeId, b: NodeId, k: nat)
    requires
        reaches_in(edges, false, set![a], b, k),
    ensures
        reaches_in(edges, false, set![b], a, k),
{
    let w = choose|w: Seq<NodeId>|
        #[trigger] is_walk(edges, false, w) && w.len() == k + 1 && set![a].contains(w[0]) && w.last() == b;
    let r = lemma_reverse_walk(edges, w);
    assert(set![b].contains(r[0]));
}

/// The shortest connection between two nodes is as long one way as the other: the length
/// that `bfs_path_length` gives from `a` to `b` is the one it gives from `b` to `a`.
pub proof fn law_path_length_symmetric(edges: Seq<Edge>, a: NodeId, b: NodeId, len: Option<usize>)
    requires
        is_shortest_length(edges, a, b, len),
    ensures
        is_shortest_length(edges, b, a, len),
{
    match len {
        Some(k) => {
            lemma_reaches_reversed(edges, a, b, k as nat);
            assert forall|j: nat| j < k as nat implies !#[trigger] reaches_in(edges, false, set![b], a, j) by {
                if reaches_in(edges, false, set![b], a, j) {
                    lemma_reaches_reversed(edges, b, a, j);
                }
            }
        },
        None => {
            if reachable(edges, false, set![b], a) {
                let k = choose|k: nat| #[trigger] reaches_in(edges, false, set![b], a, k);
                lemma_reaches_reversed(edges, b, a, k);
            }
        },
    }
}

/// A node is at distance 0 from itself.
proof fn lemma_distance_to_self(edges: Seq<Edge>, a: NodeId)
    ensures
        is_distance(edges, false, set![a], a, 0),
{
    let w = seq![a];
    assert(is_walk(edges, false, w));
}

/// The edge list that `bfs_path_edges` gives has as many edges as the length that
/// `bfs_path_length` gives for the same two nodes (none when they are not connected).
pub proof fn law_path_edges_match_length(
    edges: Seq<Edge>,
    from: NodeId,
    to: NodeId,
    len: Option<usize>,
    path: Seq<EdgeId>,
)
    requires
        is_shortest_length(edges, from, to, len),
        is_shortest_edge_path(edges, from, to, path),
    ensures
        path.len() == match len {
            Some(k) => k as nat,
            None => 0,
        },
{
    match len {
        Some(k) => {
            if from == to {
                lemma_distance_to_self(edges, from);
                lemma_distance_unique(edges, false, set![from], to, k as nat, 0);
            } else {
                assert(reachable(edges, false, set![from], to));
                lemma_distance_unique(edges, false, set![from], to, k as nat, path.len());
            }
        },
        None => {},
    }
}

proof fn lemma_single_source(from: NodeId)
    ensures
        seq![from].to_set() == set![from],
{
    assert forall|x: NodeId| #[trigger] seq![from].to_set().contains(x) <==> x == from by {
        if x == from {
            assert(seq![from][0] == from);
        }
    }
    assert(seq![from].to_set() =~= set![from]);
}

proof fn lemma_extend_edge_walk(
    edges: Seq<Edge>,
    ids: Seq<EdgeId>,
    w: Seq<NodeId>,
    eid: EdgeId,
    p: NodeId,
    cur: NodeId,
)
    requires
        follows_edges(edges, false, ids, w),
        w.last() == cur,
        edge_with_id_joins(edges, false, eid, p, cur),
    ensures
        follows_edges(edges, false, ids.push(eid), w.push(p)),
        w.push(p)[0] == w[0],
{
    let i = choose|i: int|
        0 <= i < edges.len() && edges[i].id == eid && #[trigger] joins(edges[i], false, p, cur);
    assert(joins(edges[i], false, cur, p));
    assert(edge_with_id_joins(edges, false, eid, cur, p));
    let ids2 = ids.push(eid);
    let w2 = w.push(p);
    assert forall|j: int| 0 <= j < ids2.len() implies #[trigger] edge_with_id_joins(
        edges,
        false,
        ids2[j],
        w2[j],
        w2[j + 1],
    ) by {
        if j < ids.len() {
            assert(ids2[j] == ids[j] && w2[j] == w[j] && w2[j + 1] == w[j + 1]);
        } else {
            assert(w2[j] == cur && w2[j + 1] == p && ids2[j] == eid);
        }
    }
}

impl FlowchartDocument {
    /// The number of edges on a shortest connection from `from` to `to`, reading edges in
    /// both directions; `Some(0)` when they are the same node, `None` when no connection exists.
    pub fn bfs_path_length(&self, from: NodeId, to: NodeId) -> (len: Option<usize>)
        requires
            1 + 2 * self.edges@.len() <= usize::MAX,
        ensures
            is_shortest_length(self.edges@, from, to, len),
    {
        if from == to {
            proof {
                let w = seq![from];
                assert(is_walk(self.edges@, false, w));
                assert(reaches_in(self.edges@, false, set![from], to, 0));
            }
            return Some(0);
        }
        let starts = vec![from];
        proof {
            assert(starts@ =~= seq![from]);
            lemma_single_source(from);
        }
        let tree = breadth_first(&self.edges, &starts, false);
        match tree.depth.get(&to) {
            Some(d) => Some(*d),
            None => None,
        }
    }

    /// The identifiers of the edges on a shortest connection from `from` to `to`, reading
    /// edges in both directions, listed from `to` back to `from`. Empty when the two nodes
    /// are the same or when no connection exists.
    pub fn bfs_path_edges(&self, from: NodeId, to: NodeId) -> (path: Vec<EdgeId>)
        requires
            1 + 2 * self.edges@.len() <= usize::MAX,
        ensures
            is_shortest_edge_path(self.edges@, from, to, path@),
    {
        if from == to {
            return Vec::new();
        }
        let starts = vec![from];
        proof {
            assert(starts@ =~= seq![from]);
            lemma_single_source(from);
        }
        let tree = breadth_first(&self.edges, &starts, false);
        if !tree.depth.contains_key(&to) {
            return Vec::new();
        }
        let ghost target_depth = tree.depth@[to];
        let mut path: Vec<EdgeId> = Vec::new();
        let mut cur = to;
        let ghost mut w: Seq<NodeId> = seq![to];
        while cur != from
            invariant
                tree.depth@.contains_key(cur),
                tree.depth@.contains_key(from),
                tree.depth@[from] == 0,
                crate::graph::is_search_tree(self.edges@, false, set![from], tree.depth@, tree.parent@),
                path@.len() + tree.depth@[cur] == target_depth,
                follows_edges(self.edges@, false, path@, w),
                w[0] == to,
                w.last() == cur,
            decreases tree.depth@[cur],
        {
            assert(tree.depth@[cur] > 0);
            let (p, eid) = match tree.parent.get(&cur) {
                Some(link) => *link,
                None => (from, 0),
            };
            proof {
                lemma_extend_edge_walk(self.edges@, path@, w, eid, p, cur);
                w = w.push(p);
            }
            path.push(eid);
            cur = p;
        }
        proof {
            assert(path@.len() == target_depth);
        }
        path
    }
}

} // verus!
