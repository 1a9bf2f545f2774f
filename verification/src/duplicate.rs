//! Duplicating the selected nodes of a document. Where the copies go on the canvas is
//! left to the caller; here they get their identifiers and join the document.
use vstd::prelude::*;
use crate::edits::{find_node_index, first_with_id};
use crate::model::{FlowchartDocument, Node, NodeId};

verus! {

/// The position of the first node of `nodes` with identifier `id`, if there is one.
pub open spec fn first_index(nodes: Seq<Node>, id: NodeId) -> Option<int> {
    if exists|i: int| 0 <= i < nodes.len() && #[trigger] nodes[i].id == id && first_with_id(nodes, i) {
        Some(choose|i: int| 0 <= i < nodes.len() && #[trigger] nodes[i].id == id && first_with_id(nodes, i))
    } else {
        None
    }
}

/// The copies that duplicating the identifiers `sel` makes of `nodes`: for each identifier
/// in turn that names a node, a copy of the first node with it, carrying the identifier of
/// `fresh` at the same position.
pub open spec fn duplicates(nodes: Seq<Node>, sel: Seq<NodeId>, fresh: Seq<NodeId>) -> Seq<Node>
    decreases sel.len(),
{
    if sel.len() == 0 {
        Seq::empty()
    } else {
        let r = duplicates(nodes, sel.drop_last(), fresh);
        match first_index(nodes, sel.last()) {
            Some(i) => r.push(Node { id: fresh[sel.len() - 1], ..nodes[i] }),
            None => r,
        }
    }
}

/// The first node with an identifier is the one `first_index` names.
pub proof fn lemma_first_index(nodes: Seq<Node>, id: NodeId, i: int)
    requires
        0 <= i < nodes.len(),
        nodes[i].id == id,
        first_with_id(nodes, i),
    ensures
        first_index(nodes, id) == Some(i),
{
    let j = choose|j: int| 0 <= j < nodes.len() && #[trigger] nodes[j].id == id && first_with_id(nodes, j);
    assert(nodes[j].id == id && first_with_id(nodes, j));
    if j < i {
        assert(nodes[j].id != nodes[i].id);
    } else if i < j {
        assert(nodes[i].id != nodes[j].id);
    }
}

/// A copy of `n` with identifier `id`.
fn copy_with_id(n: &Node, id: NodeId) -> (m: Node)
    ensures
        m == (Node { id: id, ..*n }),
{
    Node {
        id,
        label: n.label.clone(),
        kind: n.kind,
        fill_color: n.fill_color,
        text_color: n.text_color,
        description: n.description.clone(),
        sublabel: n.sublabel.clone(),
        section_name: n.section_name.clone(),
        icon: n.icon.clone(),
        url: n.url.clone(),
        comment: n.comment.clone(),
        tag: n.tag,
        half_done: n.half_done,
        finished: n.finished,
        glow: n.glow,
        highlight: n.highlight,
        is_frame: n.is_frame,
        pinned: n.pinned,
        locked: n.locked,
        collapsed: n.collapsed,
    }
}

/// Duplicates the selected nodes `sel`: each identifier that names a node adds a copy of
/// the first node with it, which takes the identifier at the same position of `fresh`, at
/// the end of the document. Returns the identifiers of the copies, in order, which become
/// the selection.
pub fn duplicate_nodes(doc: &mut FlowchartDocument, sel: &Vec<NodeId>, fresh: &Vec<NodeId>) -> (ids: Vec<NodeId>)
    requires
        fresh@.len() == sel@.len(),
        old(doc).nodes@.len() + sel@.len() <= usize::MAX,
    ensures
        final(doc).edges@ == old(doc).edges@,
        final(doc).nodes@ == old(doc).nodes@ + duplicates(old(doc).nodes@, sel@, fresh@),
        ids@ == duplicates(old(doc).nodes@, sel@, fresh@).map_values(|n: Node| n.id),
{
    let ghost before = doc.nodes@;
    let mut copies: Vec<Node> = Vec::new();
    let mut k: usize = 0;
    while k < sel.len()
        invariant
            0 <= k <= sel@.len(),
            fresh@.len() == sel@.len(),
            doc.nodes@ == before,
            copies@ == duplicates(before, sel@.take(k as int), fresh@),
            copies@.len() <= k,
        decreases sel@.len() - k,
    {
        proof {
            assert(sel@.take(k + 1).drop_last() =~= sel@.take(k as int));
            assert(sel@.take(k + 1).last() == sel@[k as int]);
        }
        match find_node_index(&doc.nodes, sel[k]) {
            Some(i) => {
                proof {
                    lemma_first_index(before, sel@[k as int], i as int);
                }
                let m = copy_with_id(&doc.nodes[i], fresh[k]);
                copies.push(m);
            },
            None => {
                assert(first_index(before, sel@[k as int]) is None);
            },
        }
        k = k + 1;
    }
    assert(sel@.take(k as int) =~= sel@);
    let mut ids: Vec<NodeId> = Vec::new();
    let mut j: usize = 0;
    while j < copies.len()
        invariant
            0 <= j <= copies@.len(),
            copies@.len() <= sel@.len(),
            before.len() + sel@.len() <= usize::MAX,
            doc.edges@ == old(doc).edges@,
            doc.nodes@ == before + copies@.take(j as int),
            ids@ == copies@.take(j as int).map_values(|n: Node| n.id),
        decreases copies@.len() - j,
    {
        let id = copies[j].id;
        doc.nodes.push(copy_with_id(&copies[j], id));
        ids.push(id);
        proof {
            assert(copies@.take(j + 1) =~= copies@.take(j as int).push(copies@[j as int]));
            assert(copies@.take(j + 1).map_values(|n: Node| n.id) =~= copies@.take(j as int).map_values(
                |n: Node| n.id,
            ).push(copies@[j as int].id));
        }
        j = j + 1;
    }
    assert(copies@.take(j as int) =~= copies@);
    ids
}

} // verus!
