//! Depth layers of a diagram for its 3D overview: each node's distance from the roots.
use vstd::prelude::*;
use std::collections::{HashMap, HashSet};
use crate::model::{Edge, FlowchartDocument, NodeId};
use crate::graph::{is_distance, is_walk, reachable, reaches_in, step};
use crate::search::breadth_first;

verus! {

broadcast use vstd::std_specs::hash::group_hash_axioms;

/// Whether some edge of `edges` ends at `v`.
pub open spec fn has_incoming(edges: Seq<Edge>, v: NodeId) -> bool {
    exists|i: int| 0 <= i < edges.len() && #[trigger] edges[i].target.node_id == v
}

/// Whether `v` is a node of the document that no edge ends at.
pub open spec fn is_root(doc: FlowchartDocument, v: NodeId) -> bool {
    doc.has_node(v) && !has_incoming(doc.edges@, v)
}

/// The nodes the layering starts from: the nodes without incoming edges, or, when every
/// node has one, the first node; none when the document has no nodes.
pub open spec fn layer_roots(doc: FlowchartDocument) -> Set<NodeId> {
    if exists|v: NodeId| #[trigger] is_root(doc, v) {
        Set::new(|v: NodeId| is_root(doc, v))
    } else if doc.nodes@.len() > 0 {
        set![doc.nodes@[0].id]
    } else {
        Set::empty()
    }
}

/// Every root is on layer 0.
pub proof fn law_roots_on_layer_zero(edges: Seq<Edge>, roots: Set<NodeId>, r: NodeId)
    requires
        roots.contains(r),
    ensures
        is_distance(edges, true, roots, r, 0),
{
    let w = seq![r];
    assert(is_walk(edges, true, w));
}

/// Along an edge the layer grows by at most one: when both ends are reached from the roots,
/// the layer of the edge's target is at most one more than that of its source.
pub proof fn law_layers_along_edge(
    edges: Seq<Edge>,
    roots: Set<NodeId>,
    u: NodeId,
    v: NodeId,
    du: nat,
    dv: nat,
)
    requires
        is_distance(edges, true, roots, u, du),
        is_distance(edges, true, roots, v, dv),
        step(edges, true, u, v),
    ensures
        dv <= du + 1,
{
    let w = choose|w: Seq<NodeId>|
        #[trigger] is_walk(edges, true, w) && w.len() == du + 1 && roots.contains(w[0]) && w.last() == u;
    let w2 = w.push(v);
    assert forall|i: int| 0 <= i < w2.len() - 1 implies #[trigger] step(edges, true, w2[i], w2[i + 1]) by {
        if i < w.len() - 1 {
            assert(w2[i] == w[i] && w2[i + 1] == w[i + 1]);
            assert(step(edges, true, w[i], w[i + 1]));
        } else {
            assert(w2[i] == u && w2[i + 1] == v);
        }
    }
    assert(is_walk(edges, true, w2));
    assert(w2[0] == w[0]);
    assert(reaches_in(edges, true, roots, v, du + 1));
}

/// The nodes that some edge of `edges` ends at.
fn incoming_targets(edges: &Vec<Edge>) -> (incoming: HashSet<NodeId>)
    ensures
        forall|v: NodeId| #[trigger] incoming@.contains(v) <==> has_incoming(edges@, v),
{
    let mut incoming: HashSet<NodeId> = HashSet::new();
    for k in 0..edges.len()
        invariant
            forall|v: NodeId|
                #[trigger] incoming@.contains(v) <==> exists|i: int|
                    0 <= i < k && #[trigger] edges@[i].target.node_id == v,
    {
        incoming.insert(edges[k].target.node_id);
        proof {
            assert forall|v: NodeId| #[trigger] incoming@.contains(v) <==> exists|i: int|
                0 <= i < k + 1 && #[trigger] edges@[i].target.node_id == v by {
                if v == edges@[k as int].target.node_id {
                    assert(edges@[k as int].target.node_id == v);
                }
            }
        }
    }
    incoming
}

/// The roots of the layering, in document order (see `layer_roots`).
fn find_roots(doc: &FlowchartDocument) -> (roots: Vec<NodeId>)
    ensures
        roots@.to_set() == layer_roots(*doc),
        roots@.len() <= doc.nodes@.len(),
{
    let incoming = incoming_targets(&doc.edges);
    let mut roots: Vec<NodeId> = Vec::new();
    for k in 0..doc.nodes.len()
        invariant
            forall|v: NodeId| #[trigger] incoming@.contains(v) <==> has_incoming(doc.edges@, v),
            roots@.len() <= k,
            forall|j: int|
                0 <= j < roots@.len() ==> #[trigger] is_root(*doc, roots@[j]),
            forall|i: int|
                0 <= i < k && #[trigger] is_root(*doc, doc.nodes@[i].id) ==> roots@.contains(doc.nodes@[i].id),
    {
        let id = doc.nodes[k].id;
        assert(doc.nodes@[k as int].id == id);
        if !incoming.contains(&id) {
            let ghost prev = roots@;
            roots.push(id);
            proof {
                assert(doc.has_node(id));
                assert(is_root(*doc, id));
                assert forall|j: int| 0 <= j < roots@.len() implies #[trigger] is_root(*doc, roots@[j]) by {
                    if j < prev.len() {
                        assert(roots@[j] == prev[j]);
                    }
                }
                assert forall|i: int|
                    0 <= i < k + 1 && #[trigger] is_root(*doc, doc.nodes@[i].id) implies roots@.contains(doc.nodes@[i].id) by {
                    if i < k {
                        let j = choose|j: int| 0 <= j < prev.len() && prev[j] == doc.nodes@[i].id;
                        assert(roots@[j] == doc.nodes@[i].id);
                    } else {
                        assert(roots@[prev.len() as int] == id);
                    }
                }
            }
        }
    }
    let ghost found = roots@;
    if roots.len() == 0 && doc.nodes.len() > 0 {
        roots.push(doc.nodes[0].id);
    }
    proof {
        if exists|v: NodeId| #[trigger] is_root(*doc, v) {
            let w = choose|w: NodeId| #[trigger] is_root(*doc, w);
            let i = choose|i: int| 0 <= i < doc.nodes@.len() && #[trigger] doc.nodes@[i].id == w;
            assert(is_root(*doc, doc.nodes@[i].id));
            assert(found.contains(w));
            assert(roots@ == found);
            assert forall|v: NodeId| #[trigger] roots@.to_set().contains(v) <==> is_root(*doc, v) by {
                if roots@.contains(v) {
                    let j = choose|j: int| 0 <= j < roots@.len() && roots@[j] == v;
                    assert(is_root(*doc, roots@[j]));
                }
                if is_root(*doc, v) {
                    let i2 = choose|i2: int| 0 <= i2 < doc.nodes@.len() && #[trigger] doc.nodes@[i2].id == v;
                    assert(is_root(*doc, doc.nodes@[i2].id));
                }
            }
            assert(roots@.to_set() =~= layer_roots(*doc));
        } else {
            if found.len() > 0 {
                assert(is_root(*doc, found[0]));
            }
            assert(found.len() == 0);
            if doc.nodes@.len() > 0 {
                assert(roots@ =~= seq![doc.nodes@[0].id]);
                assert forall|v: NodeId| #[trigger] roots@.to_set().contains(v) <==> v == doc.nodes@[0].id by {
                    if v == doc.nodes@[0].id {
                        assert(roots@[0] == v);
                    }
                }
            } else {
                assert(roots@.len() == 0);
            }
            assert(roots@.to_set() =~= layer_roots(*doc));
        }
    }
    roots
}

/// Assigns every node a depth layer for the 3D overview. Following edges in their direction,
/// a node reachable from the roots (see `layer_roots`) gets its distance from them; a node
/// of the document that no root reaches gets layer 0. Nodes that edges lead to but that are
/// not in the document get their distance too when reached.
#[verifier::rlimit(40)]
pub fn compute_z_layers(doc: &FlowchartDocument) -> (layers: HashMap<NodeId, i32>)
    requires
        doc.nodes@.len() + 2 * doc.edges@.len() <= i32::MAX,
    ensures
        forall|v: NodeId|
            #[trigger] layers@.contains_key(v) <==> (doc.has_node(v) || reachable(
                doc.edges@,
                true,
                layer_roots(*doc),
                v,
            )),
        forall|v: NodeId|
            #[trigger] reachable(doc.edges@, true, layer_roots(*doc), v) ==> layers@[v] >= 0
                && is_distance(doc.edges@, true, layer_roots(*doc), v, layers@[v] as nat),
        forall|v: NodeId|
            #[trigger] doc.has_node(v) && !reachable(doc.edges@, true, layer_roots(*doc), v)
                ==> layers@[v] == 0,
{
    let roots = find_roots(doc);
    let tree = breadth_first(&doc.edges, &roots, true);
    let order = &tree.order;
    let mut layers: HashMap<NodeId, i32> = HashMap::new();
    for k in 0..order.len()
        invariant
            doc.nodes@.len() + 2 * doc.edges@.len() <= i32::MAX,
            roots@.len() <= doc.nodes@.len(),
            forall|v: NodeId|
                #[trigger] tree.depth@.contains_key(v) ==> tree.depth@[v] < roots@.len() + 2
                    * doc.edges@.len(),
            forall|v: NodeId| #[trigger] tree.depth@.contains_key(v) <==> order@.contains(v),
            forall|v: NodeId|
                #[trigger] layers@.contains_key(v) ==> tree.depth@.contains_key(v) && layers@[v]
                    == tree.depth@[v] as int,
            forall|i: int| 0 <= i < k ==> #[trigger] layers@.contains_key(order@[i]),
    {
        let v = order[k];
        assert(order@.contains(v));
        let d: usize = match tree.depth.get(&v) {
            Some(d) => *d,
            None => 0,
        };
        assert(d < roots@.len() + 2 * doc.edges@.len());
        let ghost before = layers@;
        layers.insert(v, d as i32);
        proof {
            assert(tree.depth@.contains_key(v) && tree.depth@[v] == d);
            assert((d as i32) as int == d as int);
            assert forall|x: NodeId| #[trigger] layers@.contains_key(x) implies tree.depth@.contains_key(x)
                && layers@[x] == tree.depth@[x] as int by {
                if x != v {
                    assert(before.contains_key(x));
                }
            }
        }
    }
    proof {
        assert forall|v: NodeId| #[trigger] tree.depth@.contains_key(v) implies layers@.contains_key(v) by {
            assert(order@.contains(v));
            let i = choose|i: int| 0 <= i < order@.len() && order@[i] == v;
            assert(layers@.contains_key(order@[i]));
        }
    }
    let ghost reached = layers@;
    for k in 0..doc.nodes.len()
        invariant
            forall|v: NodeId| #[trigger] reached.contains_key(v) <==> tree.depth@.contains_key(v),
            forall|v: NodeId|
                #[trigger] reached.contains_key(v) ==> layers@.contains_key(v) && layers@[v]
                    == reached[v],
            forall|v: NodeId|
                #[trigger] layers@.contains_key(v) ==> reached.contains_key(v) || doc.has_node(v),
            forall|i: int| 0 <= i < k ==> #[trigger] layers@.contains_key(doc.nodes@[i].id),
            forall|v: NodeId|
                #[trigger] layers@.contains_key(v) && !reached.contains_key(v) ==> layers@[v] == 0,
    {
        let id = doc.nodes[k].id;
        assert(doc.nodes@[k as int].id == id);
        assert(doc.has_node(id));
        if !layers.contains_key(&id) {
            layers.insert(id, 0);
        }
    }
    proof {
        let sources = layer_roots(*doc);
        assert forall|v: NodeId| doc.has_node(v) implies #[trigger] layers@.contains_key(v) by {
            let i = choose|i: int| 0 <= i < doc.nodes@.len() && #[trigger] doc.nodes@[i].id == v;
            assert(layers@.contains_key(doc.nodes@[i].id));
        }
        assert forall|v: NodeId| #[trigger] doc.has_node(v) && !reachable(doc.edges@, true, sources, v)
            implies layers@[v] == 0 by {
            let i = choose|i: int| 0 <= i < doc.nodes@.len() && #[trigger] doc.nodes@[i].id == v;
            assert(layers@.contains_key(doc.nodes@[i].id));
            assert(!tree.depth@.contains_key(v));
            assert(!reached.contains_key(v));
        }
        assert forall|v: NodeId| #[trigger] reachable(doc.edges@, true, sources, v) implies layers@[v] >= 0
            && is_distance(doc.edges@, true, sources, v, layers@[v] as nat) by {
            assert(tree.depth@.contains_key(v));
            assert(reached.contains_key(v));
        }
        assert forall|v: NodeId| #[trigger] layers@.contains_key(v) <==> (doc.has_node(v) || reachable(
            doc.edges@, true, sources, v)) by {
            if reachable(doc.edges@, true, sources, v) {
                assert(tree.depth@.contains_key(v));
            }
            if layers@.contains_key(v) && !doc.has_node(v) {
                assert(reached.contains_key(v));
                assert(tree.depth@.contains_key(v));
            }
        }
    }
    layers
}

} // verus!
