//! Breadth-first search over the edges of a document.
use vstd::prelude::*;
use std::collections::HashMap;
use crate::model::{Edge, EdgeId, NodeId};
use crate::graph::{
    closed_under_steps, edge_with_id_joins, endpoints, is_distance, is_search_tree, joins,
    lemma_search_distances, reachable, step,
};

verus! {

broadcast use vstd::std_specs::hash::group_hash_axioms;

/// The outcome of a breadth-first search.
pub struct SearchTree {
    /// Every reached node and its distance from the start nodes.
    pub depth: HashMap<NodeId, usize>,
    /// Every reached node other than a start node, with the node it was reached
    /// from and the edge that was followed.
    pub parent: HashMap<NodeId, (NodeId, EdgeId)>,
    /// The reached nodes in the order they were reached (start nodes first, as given).
    pub order: Vec<NodeId>,
}

proof fn lemma_endpoints_bound(edges: Seq<Edge>)
    ensures
        endpoints(edges).finite(),
        endpoints(edges).len() <= 2 * edges.len(),
{
    let a = edges.map_values(|e: Edge| e.source.node_id);
    let b = edges.map_values(|e: Edge| e.target.node_id);
    a.lemma_cardinality_of_set();
    b.lemma_cardinality_of_set();
    vstd::set_lib::lemma_len_union(a.to_set(), b.to_set());
}

proof fn lemma_edge_ends_are_endpoints(edges: Seq<Edge>, i: int)
    requires
        0 <= i < edges.len(),
    ensures
        endpoints(edges).contains(edges[i].source.node_id),
        endpoints(edges).contains(edges[i].target.node_id),
{
    let a = edges.map_values(|e: Edge| e.source.node_id);
    let b = edges.map_values(|e: Edge| e.target.node_id);
    assert(a[i] == edges[i].source.node_id);
    assert(b[i] == edges[i].target.node_id);
    assert(a.contains(edges[i].source.node_id));
    assert(b.contains(edges[i].target.node_id));
}

/// The invariant of the search loop: the queue lists every node with a depth, in order
/// of depth, the nodes not yet dequeued are within one level of the front, and every
/// node already dequeued has had all its steps followed.
#[verifier::opaque]
spec fn search_state(
    edges: Seq<Edge>,
    directed: bool,
    starts: Seq<NodeId>,
    depth: Map<NodeId, usize>,
    parent: Map<NodeId, (NodeId, EdgeId)>,
    queue: Seq<NodeId>,
    head: int,
) -> bool {
    let sources = starts.to_set();
    let universe = sources.union(endpoints(edges));
    &&& 0 <= head <= queue.len()
    &&& queue.len() + sources.len() == starts.len() + depth.dom().len()
    &&& depth.dom().subset_of(universe)
    &&& forall|i: int| 0 <= i < queue.len() ==> #[trigger] depth.contains_key(queue[i])
    &&& forall|v: NodeId| #[trigger] depth.contains_key(v) ==> queue.contains(v)
    &&& forall|i: int, j: int|
        0 <= i <= j < queue.len() ==> #[trigger] depth[queue[i]] <= #[trigger] depth[queue[j]]
    &&& forall|j: int|
        head <= j < queue.len() ==> #[trigger] depth[queue[j]] <= depth[queue[head]] + 1
    &&& forall|v: NodeId| #[trigger] depth.contains_key(v) ==> depth[v] < depth.dom().len()
    &&& is_search_tree(edges, directed, sources, depth, parent)
    &&& forall|i: int, x: NodeId|
        0 <= i < head && #[trigger] step(edges, directed, queue[i], x) ==> depth.contains_key(x)
            && depth[x] <= depth[queue[i]] + 1
}

/// Every step along edges `0..e` out of `u` leads to a node with depth at most `du + 1`.
spec fn scanned(
    edges: Seq<Edge>,
    directed: bool,
    depth: Map<NodeId, usize>,
    u: NodeId,
    du: usize,
    e: int,
) -> bool {
    forall|i: int, x: NodeId|
        0 <= i < e && #[trigger] joins(edges[i], directed, u, x) ==> depth.contains_key(x)
            && depth[x] <= du + 1
}

proof fn lemma_state_bounds(
    edges: Seq<Edge>,
    directed: bool,
    starts: Seq<NodeId>,
    depth: Map<NodeId, usize>,
    parent: Map<NodeId, (NodeId, EdgeId)>,
    queue: Seq<NodeId>,
    head: int,
)
    requires
        search_state(edges, directed, starts, depth, parent, queue, head),
        depth.dom().finite(),
    ensures
        depth.dom().len() <= starts.to_set().len() + 2 * edges.len(),
        starts.to_set().len() <= starts.len(),
        queue.len() <= starts.len() + 2 * edges.len(),
        0 <= head <= queue.len(),
        forall|i: int| 0 <= i < queue.len() ==> #[trigger] depth.contains_key(queue[i]),
        forall|v: NodeId| #[trigger] depth.contains_key(v) ==> depth[v] < depth.dom().len(),
{
    reveal(search_state);
    let sources = starts.to_set();
    lemma_endpoints_bound(edges);
    starts.lemma_cardinality_of_set();
    vstd::set_lib::lemma_len_union(sources, endpoints(edges));
    vstd::set_lib::lemma_len_subset(depth.dom(), sources.union(endpoints(edges)));
}

proof fn lemma_seeded(edges: Seq<Edge>, directed: bool, starts: Seq<NodeId>, depth: Map<NodeId, usize>)
    requires
        depth.dom() == starts.to_set(),
        forall|v: NodeId| #[trigger] depth.contains_key(v) ==> depth[v] == 0,
    ensures
        search_state(edges, directed, starts, depth, Map::empty(), starts, 0),
{
    reveal(search_state);
    let sources = starts.to_set();
    vstd::seq_lib::seq_to_set_is_finite(starts);
    assert forall|i: int| 0 <= i < starts.len() implies #[trigger] depth.contains_key(starts[i]) by {
        assert(starts.contains(starts[i]));
    }
    assert forall|v: NodeId| #[trigger] depth.contains_key(v) implies depth[v] < depth.dom().len() by {
        starts.lemma_cardinality_of_set();
        if depth.dom().len() == 0 {
            assert(depth.dom() =~= Set::empty());
        }
    }
    let queue = starts;
    let universe = sources.union(endpoints(edges));
    assert(queue.len() + sources.len() == starts.len() + depth.dom().len());
    assert(depth.dom().subset_of(universe));
    assert(forall|v: NodeId| #[trigger] depth.contains_key(v) ==> queue.contains(v));
    assert forall|i: int, j: int|
        0 <= i <= j < queue.len() implies #[trigger] depth[queue[i]] <= #[trigger] depth[queue[j]] by {
        assert(depth.contains_key(queue[i]) && depth.contains_key(queue[j]));
    }
    assert forall|j: int| 0 <= j < queue.len() implies #[trigger] depth[queue[j]] <= depth[queue[0]] + 1 by {
        assert(depth.contains_key(queue[j]));
    }
    assert(is_search_tree(edges, directed, sources, depth, Map::empty()));
}

proof fn lemma_visited_within_one(
    edges: Seq<Edge>,
    directed: bool,
    starts: Seq<NodeId>,
    depth: Map<NodeId, usize>,
    parent: Map<NodeId, (NodeId, EdgeId)>,
    queue: Seq<NodeId>,
    head: int,
    v: NodeId,
)
    requires
        search_state(edges, directed, starts, depth, parent, queue, head),
        head < queue.len(),
        depth.contains_key(v),
    ensures
        depth[v] <= depth[queue[head]] + 1,
{
    reveal(search_state);
    let k = choose|k: int| 0 <= k < queue.len() && queue[k] == v;
    if k <= head {
        assert(depth[queue[k]] <= depth[queue[head]]);
    } else {
        assert(depth[queue[k]] <= depth[queue[head]] + 1);
    }
}

proof fn lemma_visit(
    edges: Seq<Edge>,
    directed: bool,
    starts: Seq<NodeId>,
    depth: Map<NodeId, usize>,
    parent: Map<NodeId, (NodeId, EdgeId)>,
    queue: Seq<NodeId>,
    head: int,
    e: int,
    v: NodeId,
)
    requires
        search_state(edges, directed, starts, depth, parent, queue, head),
        depth.dom().finite(),
        head < queue.len(),
        0 <= e < edges.len(),
        joins(edges[e], directed, queue[head], v),
        !depth.contains_key(v),
        depth[queue[head]] + 1 <= usize::MAX,
        scanned(edges, directed, depth, queue[head], depth[queue[head]], e),
    ensures
        ({
            let dv = (depth[queue[head]] + 1) as usize;
            let depth2 = depth.insert(v, dv);
            &&& search_state(
                edges,
                directed,
                starts,
                depth2,
                parent.insert(v, (queue[head], edges[e].id)),
                queue.push(v),
                head,
            )
            &&& scanned(edges, directed, depth2, queue[head], depth[queue[head]], e)
            &&& depth2[queue[head]] == depth[queue[head]]
        }),
{
    reveal(search_state);
    let u = queue[head];
    let du = depth[u];
    let dv = (du + 1) as usize;
    let depth2 = depth.insert(v, dv);
    let parent2 = parent.insert(v, (u, edges[e].id));
    let queue2 = queue.push(v);
    let sources = starts.to_set();
    lemma_edge_ends_are_endpoints(edges, e);
    assert(depth2.dom() =~= depth.dom().insert(v));
    assert(edge_with_id_joins(edges, directed, edges[e].id, u, v));
    assert forall|x: NodeId| #[trigger] depth2.contains_key(x) implies queue2.contains(x) by {
        if x == v {
            assert(queue2[queue2.len() - 1] == v);
        } else {
            assert(queue.contains(x));
            let k = choose|k: int| 0 <= k < queue.len() && queue[k] == x;
            assert(queue2[k] == x);
        }
    }
    assert forall|i: int| 0 <= i < queue2.len() implies #[trigger] depth2.contains_key(queue2[i]) by {
        if i < queue.len() {
            assert(queue2[i] == queue[i]);
        }
    }
    assert forall|i: int, j: int|
        0 <= i <= j < queue2.len() implies #[trigger] depth2[queue2[i]] <= #[trigger] depth2[queue2[j]] by {
        if j < queue.len() {
            assert(depth[queue[i]] <= depth[queue[j]]);
        } else if i < queue.len() {
            if i <= head {
                assert(depth[queue[i]] <= depth[queue[head]]);
            } else {
                assert(depth[queue[i]] <= depth[queue[head]] + 1);
            }
        }
    }
    assert forall|j: int|
        head <= j < queue2.len() implies #[trigger] depth2[queue2[j]] <= depth2[queue2[head]] + 1 by {
        if j < queue.len() {
            assert(depth[queue[j]] <= depth[queue[head]] + 1);
        }
    }
    assert(depth.contains_key(u));
    assert(du < depth.dom().len());
    assert(depth2.dom().len() == depth.dom().len() + 1);
    assert forall|x: NodeId| #[trigger] depth2.contains_key(x) implies depth2[x] < depth2.dom().len() by {
        if x != v {
            assert(depth[x] < depth.dom().len());
        }
    }
    assert forall|x: NodeId| #[trigger] depth2.contains_key(x) && depth2[x] > 0 implies {
        &&& parent2.contains_key(x)
        &&& depth2.contains_key(parent2[x].0)
        &&& depth2[parent2[x].0] + 1 == depth2[x]
        &&& edge_with_id_joins(edges, directed, parent2[x].1, parent2[x].0, x)
    } by {
        if x != v {
            assert(depth.contains_key(x) && depth[x] > 0);
        }
    }
    assert forall|s: NodeId| #[trigger] sources.contains(s) implies depth2.contains_key(s) && depth2[s] == 0 by {
        assert(depth.contains_key(s));
    }
    assert forall|x: NodeId| #[trigger] depth2.contains_key(x) && depth2[x] == 0 implies sources.contains(x) by {
        if x != v {
            assert(depth.contains_key(x));
        }
    }
    assert forall|i: int, x: NodeId|
        0 <= i < head && #[trigger] step(edges, directed, queue2[i], x) implies depth2.contains_key(x)
            && depth2[x] <= depth2[queue2[i]] + 1 by {
        assert(queue2[i] == queue[i]);
        assert(step(edges, directed, queue[i], x));
    }
    assert forall|i: int, x: NodeId|
        0 <= i < e && #[trigger] joins(edges[i], directed, u, x) implies depth2.contains_key(x)
            && depth2[x] <= du + 1 by {
        assert(depth.contains_key(x));
    }
    assert(is_search_tree(edges, directed, sources, depth2, parent2));
}

proof fn lemma_scan_more(
    edges: Seq<Edge>,
    directed: bool,
    depth: Map<NodeId, usize>,
    u: NodeId,
    du: usize,
    e: int,
)
    requires
        0 <= e < edges.len(),
        scanned(edges, directed, depth, u, du, e),
        depth.contains_key(u),
        depth[u] == du,
        !(edges[e].source.node_id == u) && !(!directed && edges[e].target.node_id == u),
    ensures
        scanned(edges, directed, depth, u, du, e + 1),
{
}

proof fn lemma_scan_known(
    edges: Seq<Edge>,
    directed: bool,
    depth: Map<NodeId, usize>,
    u: NodeId,
    du: usize,
    e: int,
    v: NodeId,
)
    requires
        0 <= e < edges.len(),
        scanned(edges, directed, depth, u, du, e),
        depth.contains_key(u),
        depth[u] == du,
        depth.contains_key(v),
        depth[v] <= du + 1,
        (edges[e].source.node_id == u && edges[e].target.node_id == v) || (!(edges[e].source.node_id
            == u) && !directed && edges[e].target.node_id == u && edges[e].source.node_id == v),
    ensures
        scanned(edges, directed, depth, u, du, e + 1),
{
    assert forall|i: int, x: NodeId|
        0 <= i < e + 1 && #[trigger] joins(edges[i], directed, u, x) implies depth.contains_key(x)
            && depth[x] <= du + 1 by {
        if i == e {
            if edges[i].source.node_id == u && x != edges[i].target.node_id {
                assert(x == u);
            }
        }
    }
}

proof fn lemma_dequeue(
    edges: Seq<Edge>,
    directed: bool,
    starts: Seq<NodeId>,
    depth: Map<NodeId, usize>,
    parent: Map<NodeId, (NodeId, EdgeId)>,
    queue: Seq<NodeId>,
    head: int,
)
    requires
        search_state(edges, directed, starts, depth, parent, queue, head),
        head < queue.len(),
        scanned(edges, directed, depth, queue[head], depth[queue[head]], edges.len() as int),
    ensures
        search_state(edges, directed, starts, depth, parent, queue, head + 1),
{
    reveal(search_state);
    let u = queue[head];
    assert forall|i: int, x: NodeId|
        0 <= i < head + 1 && #[trigger] step(edges, directed, queue[i], x) implies depth.contains_key(x)
            && depth[x] <= depth[queue[i]] + 1 by {
        if i == head {
            let k = choose|k: int| 0 <= k < edges.len() && #[trigger] joins(edges[k], directed, queue[i], x);
            assert(joins(edges[k], directed, u, x));
        }
    }
    if head + 1 < queue.len() {
        assert forall|j: int|
            head + 1 <= j < queue.len() implies #[trigger] depth[queue[j]] <= depth[queue[head + 1]] + 1 by {
            assert(depth[queue[j]] <= depth[queue[head]] + 1);
            assert(depth[queue[head]] <= depth[queue[head + 1]]);
        }
    }
}

proof fn lemma_finished(
    edges: Seq<Edge>,
    directed: bool,
    starts: Seq<NodeId>,
    depth: Map<NodeId, usize>,
    parent: Map<NodeId, (NodeId, EdgeId)>,
    queue: Seq<NodeId>,
)
    requires
        search_state(edges, directed, starts, depth, parent, queue, queue.len() as int),
    ensures
        is_search_tree(edges, directed, starts.to_set(), depth, parent),
        closed_under_steps(edges, directed, depth),
        forall|v: NodeId| #[trigger] depth.contains_key(v) <==> queue.contains(v),
{
    reveal(search_state);
    assert forall|x: NodeId, y: NodeId|
        #[trigger] step(edges, directed, x, y) && depth.contains_key(x) implies depth.contains_key(y)
            && depth[y] <= depth[x] + 1 by {
        let k = choose|k: int| 0 <= k < queue.len() && queue[k] == x;
        assert(step(edges, directed, queue[k], y));
    }
    assert forall|v: NodeId| #[trigger] depth.contains_key(v) <==> queue.contains(v) by {
        if queue.contains(v) {
            let k = choose|k: int| 0 <= k < queue.len() && queue[k] == v;
        }
    }
}

/// Searches breadth-first from `starts` along `edges` (against their direction too when
/// `directed` is false). Each node reached gets its distance from the start nodes; each
/// node first reached along an edge records that edge and the node it came from.
pub fn breadth_first(edges: &Vec<Edge>, starts: &Vec<NodeId>, directed: bool) -> (t: SearchTree)
    requires
        starts@.len() + 2 * edges@.len() <= usize::MAX,
    ensures
        is_search_tree(edges@, directed, starts@.to_set(), t.depth@, t.parent@),
        forall|v: NodeId|
            #[trigger] t.depth@.contains_key(v) <==> reachable(
                edges@,
                directed,
                starts@.to_set(),
                v,
            ),
        forall|v: NodeId|
            #[trigger] t.depth@.contains_key(v) ==> is_distance(
                edges@,
                directed,
                starts@.to_set(),
                v,
                t.depth@[v] as nat,
            ),
        forall|v: NodeId|
            #[trigger] t.depth@.contains_key(v) ==> t.depth@[v] < starts@.len() + 2 * edges@.len(),
        forall|v: NodeId| #[trigger] t.depth@.contains_key(v) <==> t.order@.contains(v),
{
    let mut depth: HashMap<NodeId, usize> = HashMap::new();
    let mut parent: HashMap<NodeId, (NodeId, EdgeId)> = HashMap::new();
    let mut queue: Vec<NodeId> = Vec::new();

    for k in 0..starts.len()
        invariant
            queue@ == starts@.take(k as int),
            depth@.dom() == starts@.take(k as int).to_set(),
            forall|v: NodeId| #[trigger] depth@.contains_key(v) ==> depth@[v] == 0,
            parent@ == Map::<NodeId, (NodeId, EdgeId)>::empty(),
    {
        let s = starts[k];
        depth.insert(s, 0);
        queue.push(s);
        proof {
            let prev = starts@.take(k as int);
            assert(starts@.take(k + 1) =~= prev.push(s));
            assert forall|x: NodeId| #[trigger] prev.push(s).contains(x) <==> prev.contains(x) || x == s by {
                if prev.push(s).contains(x) && x != s {
                    let i = choose|i: int| 0 <= i < prev.push(s).len() && prev.push(s)[i] == x;
                    assert(prev[i] == x);
                }
                if prev.contains(x) {
                    let i = choose|i: int| 0 <= i < prev.len() && prev[i] == x;
                    assert(prev.push(s)[i] == x);
                }
                if x == s {
                    assert(prev.push(s)[prev.len() as int] == s);
                }
            }
            assert(starts@.take(k + 1).to_set() =~= prev.to_set().insert(s));
        }
    }
    proof {
        assert(starts@.take(starts@.len() as int) =~= starts@);
        lemma_seeded(edges@, directed, starts@, depth@);
    }

    let mut head: usize = 0;
    while head < queue.len()
        invariant
            starts@.len() + 2 * edges@.len() <= usize::MAX,
            search_state(edges@, directed, starts@, depth@, parent@, queue@, head as int),
        decreases starts@.len() + 2 * edges@.len() - head,
    {
        proof {
            lemma_state_bounds(edges@, directed, starts@, depth@, parent@, queue@, head as int);
        }
        let u = queue[head];
        let du: usize = match depth.get(&u) {
            Some(d) => *d,
            None => 0,
        };
        assert(depth@.contains_key(u));
        for e in 0..edges.len()
            invariant
                starts@.len() + 2 * edges@.len() <= usize::MAX,
                head < queue@.len(),
                queue@[head as int] == u,
                depth@.contains_key(u),
                depth@[u] == du,
                search_state(edges@, directed, starts@, depth@, parent@, queue@, head as int),
                scanned(edges@, directed, depth@, u, du, e as int),
        {
            proof {
                lemma_state_bounds(edges@, directed, starts@, depth@, parent@, queue@, head as int);
            }
            let edge = &edges[e];
            let next: Option<NodeId> = if edge.source.node_id == u {
                Some(edge.target.node_id)
            } else if !directed && edge.target.node_id == u {
                Some(edge.source.node_id)
            } else {
                None
            };
            match next {
                Some(v) => {
                    if !depth.contains_key(&v) {
                        proof {
                            lemma_visit(edges@, directed, starts@, depth@, parent@, queue@, head as int, e as int, v);
                        }
                        let ghost before = depth@;
                        depth.insert(v, du + 1);
                        parent.insert(v, (u, edge.id));
                        queue.push(v);
                        proof {
                            assert(depth@ == before.insert(v, (du + 1) as usize));
                            lemma_scan_known(edges@, directed, depth@, u, du, e as int, v);
                        }
                    } else {
                        proof {
                            lemma_visited_within_one(edges@, directed, starts@, depth@, parent@, queue@, head as int, v);
                            lemma_scan_known(edges@, directed, depth@, u, du, e as int, v);
                        }
                    }
                },
                None => {
                    proof {
                        lemma_scan_more(edges@, directed, depth@, u, du, e as int);
                    }
                },
            }
        }
        proof {
            lemma_dequeue(edges@, directed, starts@, depth@, parent@, queue@, head as int);
        }
        head = head + 1;
    }
    proof {
        lemma_state_bounds(edges@, directed, starts@, depth@, parent@, queue@, head as int);
        lemma_finished(edges@, directed, starts@, depth@, parent@, queue@);
        lemma_search_distances(edges@, directed, starts@.to_set(), depth@, parent@);
    }
    SearchTree { depth, parent, order: queue }
}

} // verus!
