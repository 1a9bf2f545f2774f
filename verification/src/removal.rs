//! Deleting the selected nodes and edges of a document.
use vstd::prelude::*;
use crate::edits::{deletable, first_with_id, locked_node, unlocked_ids};
use crate::messages::{deleted_message, deleted_spec};
use crate::model::{Edge, EdgeId, FlowchartDocument, Node, NodeId};

verus! {

/// Whether edge `e` survives deleting the nodes `nodes` and the edges `edges`: it is none
/// of those edges and touches none of those nodes.
pub open spec fn edge_survives(e: Edge, nodes: Seq<NodeId>, edges: Seq<EdgeId>) -> bool {
    !edges.contains(e.id) && !nodes.contains(e.source.node_id) && !nodes.contains(e.target.node_id)
}

proof fn lemma_locked_not_deleted(nodes: Seq<Node>, ids: Seq<NodeId>, id: NodeId)
    requires
        locked_node(nodes, id),
    ensures
        !unlocked_ids(nodes, ids).contains(id),
    decreases ids.len(),
{
    if ids.len() > 0 {
        lemma_locked_not_deleted(nodes, ids.drop_last(), id);
    }
}

/// Whether `id` occurs in `ids`.
fn listed(ids: &Vec<u128>, id: u128) -> (r: bool)
    ensures
        r == ids@.contains(id),
{
    let mut k: usize = 0;
    while k < ids.len()
        invariant
            0 <= k <= ids@.len(),
            forall|j: int| 0 <= j < k ==> ids@[j] != id,
        decreases ids@.len() - k,
    {
        if ids[k] == id {
            assert(ids@[k as int] == id);
            return true;
        }
        k = k + 1;
    }
    false
}

/// The nodes of `nodes` whose identifier is not in `gone`, in order.
fn keep_nodes(nodes: Vec<Node>, gone: &Vec<NodeId>) -> (r: Vec<Node>)
    ensures
        r@ == nodes@.filter(|n: Node| !gone@.contains(n.id)),
{
    let ghost keep = |n: Node| !gone@.contains(n.id);
    let ghost all = nodes@;
    let mut rest = nodes;
    let mut r: Vec<Node> = Vec::new();
    let mut i: usize = 0;
    let total: usize = rest.len();
    while rest.len() > 0
        invariant
            0 <= i <= all.len(),
            rest@ == all.skip(i as int),
            all.len() == total,
            keep == (|n: Node| !gone@.contains(n.id)),
            r@ == all.take(i as int).filter(keep),
        decreases rest@.len(),
    {
        proof {
            reveal(Seq::filter);
            assert(all.take(i + 1).drop_last() =~= all.take(i as int));
            assert(all.take(i + 1).last() == all[i as int]);
        }
        let n = rest.remove(0);
        assert(rest@ =~= all.skip(i + 1));
        if !listed(gone, n.id) {
            r.push(n);
        }
        i = i + 1;
    }
    assert(all.take(i as int) =~= all);
    r
}

/// The edges of `edges` that survive deleting the nodes `gone` and the edges `cut`, in order.
fn keep_edges(edges: Vec<Edge>, gone: &Vec<NodeId>, cut: &Vec<EdgeId>) -> (r: Vec<Edge>)
    ensures
        r@ == edges@.filter(|e: Edge| edge_survives(e, gone@, cut@)),
{
    let ghost keep = |e: Edge| edge_survives(e, gone@, cut@);
    let ghost all = edges@;
    let mut rest = edges;
    let mut r: Vec<Edge> = Vec::new();
    let mut i: usize = 0;
    let total: usize = rest.len();
    while rest.len() > 0
        invariant
            0 <= i <= all.len(),
            rest@ == all.skip(i as int),
            all.len() == total,
            keep == (|e: Edge| edge_survives(e, gone@, cut@)),
            r@ == all.take(i as int).filter(keep),
        decreases rest@.len(),
    {
        proof {
            reveal(Seq::filter);
            assert(all.take(i + 1).drop_last() =~= all.take(i as int));
            assert(all.take(i + 1).last() == all[i as int]);
        }
        let e = rest.remove(0);
        assert(rest@ =~= all.skip(i + 1));
        if !listed(cut, e.id) && !listed(gone, e.source.node_id) && !listed(gone, e.target.node_id) {
            r.push(e);
        }
        i = i + 1;
    }
    assert(all.take(i as int) =~= all);
    r
}

/// Deletes the selected nodes `node_sel` that are not locked, with every edge that touches
/// one of them, and the selected edges `edge_sel`. Returns the status message, which counts
/// the nodes deleted and the edges selected, or none when there was nothing to delete.
pub fn delete_selected(doc: &mut FlowchartDocument, node_sel: &Vec<NodeId>, edge_sel: &Vec<EdgeId>) -> (msg: Option<String>)
    ensures
        ({
            let gone = unlocked_ids(old(doc).nodes@, node_sel@);
            &&& final(doc).nodes@ == old(doc).nodes@.filter(|n: Node| !gone.contains(n.id))
            &&& final(doc).edges@ == old(doc).edges@.filter(|e: Edge| edge_survives(e, gone, edge_sel@))
            &&& match msg {
                Some(t) => deleted_spec(gone.len(), edge_sel@.len()) == Some(t@),
                None => deleted_spec(gone.len(), edge_sel@.len()) is None,
            }
        }),
        forall|i: int|
            0 <= i < final(doc).edges@.len() ==> edge_survives(
                #[trigger] final(doc).edges@[i],
                unlocked_ids(old(doc).nodes@, node_sel@),
                edge_sel@,
            ),
        forall|i: int|
            0 <= i < old(doc).nodes@.len() && #[trigger] old(doc).nodes@[i].locked && first_with_id(old(doc).nodes@, i)
                ==> final(doc).nodes@.contains(
                old(doc).nodes@[i],
            ),
{
    let ghost nodes_before = doc.nodes@;
    let ghost edges_before = doc.edges@;
    let gone = deletable(doc, node_sel);
    let mut nodes: Vec<Node> = Vec::new();
    std::mem::swap(&mut nodes, &mut doc.nodes);
    let mut edges: Vec<Edge> = Vec::new();
    std::mem::swap(&mut edges, &mut doc.edges);
    doc.nodes = keep_nodes(nodes, &gone);
    doc.edges = keep_edges(edges, &gone, edge_sel);
    proof {
        let ghost all_nodes = nodes_before;
        all_nodes.filter_lemma(|n: Node| !gone@.contains(n.id));
        edges_before.filter_lemma(|e: Edge| edge_survives(e, gone@, edge_sel@));
        assert forall|i: int| 0 <= i < all_nodes.len() && #[trigger] all_nodes[i].locked && first_with_id(all_nodes, i)
            implies !gone@.contains(all_nodes[i].id) by {
            assert(locked_node(all_nodes, all_nodes[i].id));
            lemma_locked_not_deleted(all_nodes, node_sel@, all_nodes[i].id);
        }
    }
    deleted_message(gone.len(), edge_sel.len())
}

} // verus!
