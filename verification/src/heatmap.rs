//! The connectivity heatmap: how many edge ends each node has, and the largest such count
//! that the colours are scaled by.
use vstd::prelude::*;
use crate::model::{Edge, FlowchartDocument, NodeId};

verus! {

/// The number of ends among the first `k` edges that sit at node `id`: an edge from a node
/// to itself counts twice.
pub open spec fn degree(edges: Seq<Edge>, k: int, id: NodeId) -> nat
    decreases k,
{
    if k <= 0 {
        0
    } else {
        degree(edges, k - 1, id) + (if edges[k - 1].source.node_id == id { 1nat } else { 0nat }) + (if edges[k - 1].target.node_id
            == id {
            1nat
        } else {
            0nat
        })
    }
}

proof fn lemma_degree_bound(edges: Seq<Edge>, k: int, id: NodeId)
    requires
        0 <= k <= edges.len(),
    ensures
        degree(edges, k, id) <= 2 * k,
    decreases k,
{
    if k > 0 {
        lemma_degree_bound(edges, k - 1, id);
    }
}

/// The number of edge ends at node `id`.
pub fn degree_of(edges: &Vec<Edge>, id: NodeId) -> (d: usize)
    requires
        2 * edges@.len() <= usize::MAX,
    ensures
        d == degree(edges@, edges@.len() as int, id),
{
    let mut d: usize = 0;
    let mut k: usize = 0;
    while k < edges.len()
        invariant
            0 <= k <= edges@.len(),
            2 * edges@.len() <= usize::MAX,
            d == degree(edges@, k as int, id),
        decreases edges@.len() - k,
    {
        proof {
            lemma_degree_bound(edges@, k as int, id);
        }
        if edges[k].source.node_id == id {
            d = d + 1;
        }
        if edges[k].target.node_id == id {
            d = d + 1;
        }
        k = k + 1;
    }
    d
}

/// The number of edge ends at each node, in the order of the nodes.
pub fn node_degrees(doc: &FlowchartDocument) -> (ds: Vec<usize>)
    requires
        2 * doc.edges@.len() <= usize::MAX,
    ensures
        ds@.len() == doc.nodes@.len(),
        forall|i: int| 0 <= i < ds@.len() ==> #[trigger] ds@[i] == degree(doc.edges@, doc.edges@.len() as int, doc.nodes@[i].id),
{
    let mut ds: Vec<usize> = Vec::new();
    let mut i: usize = 0;
    while i < doc.nodes.len()
        invariant
            0 <= i <= doc.nodes@.len(),
            2 * doc.edges@.len() <= usize::MAX,
            ds@.len() == i,
            forall|j: int| 0 <= j < i ==> #[trigger] ds@[j] == degree(doc.edges@, doc.edges@.len() as int, doc.nodes@[j].id),
        decreases doc.nodes@.len() - i,
    {
        ds.push(degree_of(&doc.edges, doc.nodes[i].id));
        i = i + 1;
    }
    ds
}

/// Whether `id` is a node of the document or an end of one of its edges.
pub open spec fn mentioned(doc: FlowchartDocument, id: NodeId) -> bool {
    ||| exists|i: int| 0 <= i < doc.nodes@.len() && #[trigger] doc.nodes@[i].id == id
    ||| exists|j: int| 0 <= j < doc.edges@.len() && (#[trigger] doc.edges@[j].source.node_id == id || doc.edges@[j].target.node_id == id)
}

/// The largest number of edge ends at any node or edge end of the document, and at least
/// one: what the heatmap divides each node's count by.
pub fn heat_scale(doc: &FlowchartDocument) -> (m: usize)
    requires
        2 * doc.edges@.len() <= usize::MAX,
    ensures
        m >= 1,
        forall|id: NodeId| mentioned(*doc, id) ==> degree(doc.edges@, doc.edges@.len() as int, id) <= m,
        m == 1 || exists|id: NodeId| mentioned(*doc, id) && degree(doc.edges@, doc.edges@.len() as int, id) == m,
{
    let ghost n = doc.edges@.len() as int;
    let mut m: usize = 1;
    let mut i: usize = 0;
    while i < doc.nodes.len()
        invariant
            0 <= i <= doc.nodes@.len(),
            n == doc.edges@.len(),
            2 * doc.edges@.len() <= usize::MAX,
            m >= 1,
            forall|j: int| 0 <= j < i ==> degree(doc.edges@, n, #[trigger] doc.nodes@[j].id) <= m,
            m == 1 || exists|id: NodeId| mentioned(*doc, id) && degree(doc.edges@, n, id) == m,
        decreases doc.nodes@.len() - i,
    {
        let d = degree_of(&doc.edges, doc.nodes[i].id);
        if d > m {
            assert(mentioned(*doc, doc.nodes@[i as int].id));
            m = d;
        }
        i = i + 1;
    }
    let mut j: usize = 0;
    while j < doc.edges.len()
        invariant
            0 <= j <= doc.edges@.len(),
            n == doc.edges@.len(),
            2 * doc.edges@.len() <= usize::MAX,
            m >= 1,
            forall|t: int| 0 <= t < doc.nodes@.len() ==> degree(doc.edges@, n, #[trigger] doc.nodes@[t].id) <= m,
            forall|t: int|
                0 <= t < j ==> degree(doc.edges@, n, (#[trigger] doc.edges@[t]).source.node_id) <= m && degree(
                    doc.edges@,
                    n,
                    doc.edges@[t].target.node_id,
                ) <= m,
            m == 1 || exists|id: NodeId| mentioned(*doc, id) && degree(doc.edges@, n, id) == m,
        decreases doc.edges@.len() - j,
    {
        let ds = degree_of(&doc.edges, doc.edges[j].source.node_id);
        if ds > m {
            assert(mentioned(*doc, doc.edges@[j as int].source.node_id));
            m = ds;
        }
        let dt = degree_of(&doc.edges, doc.edges[j].target.node_id);
        if dt > m {
            assert(mentioned(*doc, doc.edges@[j as int].target.node_id));
            m = dt;
        }
        j = j + 1;
    }
    proof {
        assert forall|id: NodeId| mentioned(*doc, id) implies degree(doc.edges@, n, id) <= m by {
            if exists|i: int| 0 <= i < doc.nodes@.len() && #[trigger] doc.nodes@[i].id == id {
                let i = choose|i: int| 0 <= i < doc.nodes@.len() && #[trigger] doc.nodes@[i].id == id;
                assert(degree(doc.edges@, n, doc.nodes@[i].id) <= m);
            } else {
                let t = choose|t: int| 0 <= t < doc.edges@.len() && (#[trigger] doc.edges@[t].source.node_id == id || doc.edges@[t].target.node_id == id);
                assert(degree(doc.edges@, n, doc.edges@[t].source.node_id) <= m);
            }
        }
    }
    m
}

/// The sum of the counts of edge ends at the identifiers `ids`, over the first `k` edges.
pub open spec fn degree_sum(ids: Seq<NodeId>, edges: Seq<Edge>, k: int) -> nat
    decreases ids.len(),
{
    if ids.len() == 0 {
        0
    } else {
        degree_sum(ids.drop_last(), edges, k) + degree(edges, k, ids.last())
    }
}

/// The number of times `id` occurs in `ids`.
pub open spec fn occurrences(ids: Seq<NodeId>, id: NodeId) -> nat
    decreases ids.len(),
{
    if ids.len() == 0 {
        0
    } else {
        occurrences(ids.drop_last(), id) + if ids.last() == id { 1nat } else { 0nat }
    }
}

proof fn lemma_degree_sum_step(ids: Seq<NodeId>, edges: Seq<Edge>, k: int)
    requires
        0 <= k < edges.len(),
    ensures
        degree_sum(ids, edges, k + 1) == degree_sum(ids, edges, k) + occurrences(ids, edges[k].source.node_id)
            + occurrences(ids, edges[k].target.node_id),
    decreases ids.len(),
{
    if ids.len() > 0 {
        lemma_degree_sum_step(ids.drop_last(), edges, k);
    }
}

proof fn lemma_occurs_once(ids: Seq<NodeId>, id: NodeId)
    requires
        ids.no_duplicates(),
        ids.contains(id),
    ensures
        occurrences(ids, id) == 1,
    decreases ids.len(),
{
    let rest = ids.drop_last();
    assert(rest.no_duplicates()) by {
        assert forall|i: int, j: int| 0 <= i < rest.len() && 0 <= j < rest.len() && i != j implies rest[i] != rest[j] by {
            assert(rest[i] == ids[i] && rest[j] == ids[j]);
        }
    }
    if ids.last() == id {
        lemma_occurs_never(rest, id);
    } else {
        let w = choose|w: int| 0 <= w < ids.len() && ids[w] == id;
        assert(rest[w] == id);
        lemma_occurs_once(rest, id);
    }
}

proof fn lemma_occurs_never(ids: Seq<NodeId>, id: NodeId)
    requires
        !ids.contains(id),
    ensures
        occurrences(ids, id) == 0,
    decreases ids.len(),
{
    if ids.len() > 0 {
        let rest = ids.drop_last();
        assert(!rest.contains(id)) by {
            if rest.contains(id) {
                let w = choose|w: int| 0 <= w < rest.len() && rest[w] == id;
                assert(ids[w] == id);
            }
        }
        assert(ids[ids.len() - 1] != id);
        lemma_occurs_never(rest, id);
    }
}

/// Every edge has two ends: when the nodes have distinct identifiers and every edge joins
/// two of them, the counts of all nodes add up to twice the number of edges.
pub proof fn law_ends_add_up(ids: Seq<NodeId>, edges: Seq<Edge>)
    requires
        ids.no_duplicates(),
        forall|j: int|
            0 <= j < edges.len() ==> ids.contains((#[trigger] edges[j]).source.node_id) && ids.contains(edges[j].target.node_id),
    ensures
        degree_sum(ids, edges, edges.len() as int) == 2 * edges.len(),
{
    lemma_ends_prefix(ids, edges, edges.len() as int);
}

proof fn lemma_ends_prefix(ids: Seq<NodeId>, edges: Seq<Edge>, k: int)
    requires
        0 <= k <= edges.len(),
        ids.no_duplicates(),
        forall|j: int|
            0 <= j < edges.len() ==> ids.contains((#[trigger] edges[j]).source.node_id) && ids.contains(edges[j].target.node_id),
    ensures
        degree_sum(ids, edges, k) == 2 * k,
    decreases k,
{
    if k == 0 {
        lemma_degree_sum_zero(ids, edges);
    } else {
        lemma_ends_prefix(ids, edges, k - 1);
        lemma_degree_sum_step(ids, edges, k - 1);
        assert(ids.contains(edges[k - 1].source.node_id) && ids.contains(edges[k - 1].target.node_id));
        lemma_occurs_once(ids, edges[k - 1].source.node_id);
        lemma_occurs_once(ids, edges[k - 1].target.node_id);
    }
}

proof fn lemma_degree_sum_zero(ids: Seq<NodeId>, edges: Seq<Edge>)
    ensures
        degree_sum(ids, edges, 0) == 0,
    decreases ids.len(),
{
    if ids.len() > 0 {
        lemma_degree_sum_zero(ids.drop_last(), edges);
    }
}

} // verus!
