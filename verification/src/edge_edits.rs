//! Edits that menus, the edge bar and drags make to the edges of a document.
//!
//! An edit of an edge changes the first edge that carries its identifier, as a lookup by
//! identifier finds it.
use vstd::prelude::*;
use crate::edits::{find_node_index, first_with_id, lemma_first_unique};
use crate::model::{Edge, EdgeId, EdgeStyle, FlowchartDocument, Node, NodeId, Port};

verus! {

/// Whether edge `i` is the first edge of `edges` with its identifier.
pub open spec fn first_edge_with_id(edges: Seq<Edge>, i: int) -> bool {
    forall|j: int| 0 <= j < i ==> edges[j].id != edges[i].id
}

/// The position of the first edge with identifier `id`, as a lookup by identifier finds it.
pub fn find_edge_index(edges: &Vec<Edge>, id: EdgeId) -> (r: Option<usize>)
    ensures
        match r {
            Some(i) => i < edges@.len() && edges@[i as int].id == id && first_edge_with_id(edges@, i as int),
            None => forall|i: int| 0 <= i < edges@.len() ==> #[trigger] edges@[i].id != id,
        },
{
    let mut i: usize = 0;
    while i < edges.len()
        invariant
            0 <= i <= edges@.len(),
            forall|j: int| 0 <= j < i ==> #[trigger] edges@[j].id != id,
        decreases edges@.len() - i,
    {
        if edges[i].id == id {
            return Some(i);
        }
        i = i + 1;
    }
    None
}

/// A change made to one edge from its menu.
#[derive(Debug, Clone, Copy)]
pub enum EdgeChange {
    /// Swap its two ends, so that it points the other way.
    Reverse,
    /// Set its colour.
    Color([u8; 4]),
    /// Turn dashing on or off.
    ToggleDashed,
    /// Turn the flow animation on or off.
    ToggleAnimated,
    /// Turn right-angled routing on or off.
    ToggleOrthogonal,
    /// Turn the glow on or off.
    ToggleGlow,
}

/// Edge `e` after the change `c`.
pub open spec fn edge_changed(c: EdgeChange, e: Edge) -> Edge {
    match c {
        EdgeChange::Reverse => Edge { source: e.target, target: e.source, ..e },
        EdgeChange::Color(col) => Edge { style: EdgeStyle { color: col, ..e.style }, ..e },
        EdgeChange::ToggleDashed => Edge { style: EdgeStyle { dashed: !e.style.dashed, ..e.style }, ..e },
        EdgeChange::ToggleAnimated => Edge { style: EdgeStyle { animated: !e.style.animated, ..e.style }, ..e },
        EdgeChange::ToggleOrthogonal => Edge { style: EdgeStyle { orthogonal: !e.style.orthogonal, ..e.style }, ..e },
        EdgeChange::ToggleGlow => Edge { style: EdgeStyle { glow: !e.style.glow, ..e.style }, ..e },
    }
}

/// The edges after the change `c` is made to the first edge with identifier `id`;
/// unchanged when no edge has it.
pub open spec fn edge_edited(edges: Seq<Edge>, id: EdgeId, c: EdgeChange) -> Seq<Edge> {
    if exists|i: int| 0 <= i < edges.len() && #[trigger] edges[i].id == id {
        let i = choose|i: int| 0 <= i < edges.len() && edges[i].id == id && first_edge_with_id(edges, i);
        edges.update(i, edge_changed(c, edges[i]))
    } else {
        edges
    }
}

/// The first edge with a given identifier is the only one.
proof fn lemma_first_edge_unique(edges: Seq<Edge>, id: EdgeId, i: int, j: int)
    requires
        0 <= i < edges.len(),
        0 <= j < edges.len(),
        edges[i].id == id,
        edges[j].id == id,
        first_edge_with_id(edges, i),
        first_edge_with_id(edges, j),
    ensures
        i == j,
{
    if i < j {
        assert(edges[i].id == edges[j].id);
    } else if j < i {
        assert(edges[j].id == edges[i].id);
    }
}

/// Edge `e` after the change `c`.
fn change_edge(e: Edge, c: EdgeChange) -> (r: Edge)
    ensures
        r == edge_changed(c, e),
{
    let mut e = e;
    match c {
        EdgeChange::Reverse => {
            let s = e.source;
            e.source = e.target;
            e.target = s;
        },
        EdgeChange::Color(col) => {
            e.style.color = col;
        },
        EdgeChange::ToggleDashed => {
            e.style.dashed = !e.style.dashed;
        },
        EdgeChange::ToggleAnimated => {
            e.style.animated = !e.style.animated;
        },
        EdgeChange::ToggleOrthogonal => {
            e.style.orthogonal = !e.style.orthogonal;
        },
        EdgeChange::ToggleGlow => {
            e.style.glow = !e.style.glow;
        },
    }
    e
}

/// A placeholder edge, held for a moment while an edge is out of its list.
fn blank_edge() -> (e: Edge)
    ensures
        e.id == 0,
        e.source == (Port { node_id: 0, side: crate::model::PortSide::Top }),
        e.target == e.source,
        e.label@.len() == 0,
        e.style == (EdgeStyle { color: [0u8, 0, 0, 0], dashed: false, animated: false, orthogonal: false, glow: false }),
{
    let p = crate::model::Port { node_id: 0, side: crate::model::PortSide::Top };
    Edge { id: 0, source: p, target: p, label: String::new(), style: EdgeStyle::plain([0, 0, 0, 0]) }
}

/// Makes the change `c` to the first edge with identifier `id`.
pub fn edit_edge(doc: &mut FlowchartDocument, id: EdgeId, c: EdgeChange)
    ensures
        final(doc).edges@ == edge_edited(old(doc).edges@, id, c),
        final(doc).nodes@ == old(doc).nodes@,
{
    match find_edge_index(&doc.edges, id) {
        Some(i) => {
            proof {
                let w = choose|w: int| 0 <= w < doc.edges@.len() && doc.edges@[w].id == id && first_edge_with_id(doc.edges@, w);
                lemma_first_edge_unique(doc.edges@, id, i as int, w);
            }
            let mut taken = blank_edge();
            std::mem::swap(&mut doc.edges[i], &mut taken);
            let updated = change_edge(taken, c);
            doc.edges.set(i, updated);
        },
        None => {},
    }
}

/// Whether the change `c` turns something over: reversing the edge or toggling a style.
pub open spec fn is_toggle(c: EdgeChange) -> bool {
    !(c is Color)
}

/// Reversing an edge, or toggling one of its styles, twice gives back the edges as they
/// were.
pub proof fn law_toggle_twice(edges: Seq<Edge>, id: EdgeId, c: EdgeChange)
    requires
        is_toggle(c),
    ensures
        edge_edited(edge_edited(edges, id, c), id, c) == edges,
{
    if exists|i: int| 0 <= i < edges.len() && #[trigger] edges[i].id == id {
        let w = choose|w: int| 0 <= w < edges.len() && #[trigger] edges[w].id == id;
        lemma_first_edge_exists(edges, id, w);
        let i = choose|i: int| 0 <= i < edges.len() && edges[i].id == id && first_edge_with_id(edges, i);
        let once = edges.update(i, edge_changed(c, edges[i]));
        assert(once[i].id == id);
        assert(first_edge_with_id(once, i)) by {
            assert forall|j: int| 0 <= j < i implies once[j].id != once[i].id by {
                assert(once[j] == edges[j]);
            }
        }
        let i2 = choose|i2: int| 0 <= i2 < once.len() && once[i2].id == id && first_edge_with_id(once, i2);
        lemma_first_edge_unique(once, id, i, i2);
        assert(once.update(i, edge_changed(c, once[i])) =~= edges);
    }
}

/// When some edge has identifier `id`, some edge is the first with it.
proof fn lemma_first_edge_exists(edges: Seq<Edge>, id: EdgeId, k: int)
    requires
        0 <= k < edges.len(),
        edges[k].id == id,
    ensures
        exists|i: int| 0 <= i < edges.len() && edges[i].id == id && first_edge_with_id(edges, i),
    decreases k,
{
    if !first_edge_with_id(edges, k) {
        let j = choose|j: int| 0 <= j < k && edges[j].id == edges[k].id;
        lemma_first_edge_exists(edges, id, j);
    }
}

/// The fill colour of the first node with identifier `id`, if any.
pub open spec fn node_fill(nodes: Seq<Node>, id: NodeId) -> Option<[u8; 4]> {
    if exists|i: int| 0 <= i < nodes.len() && #[trigger] nodes[i].id == id {
        let i = choose|i: int| 0 <= i < nodes.len() && nodes[i].id == id && first_with_id(nodes, i);
        Some(nodes[i].fill_color)
    } else {
        None
    }
}

/// The fill colour of the first node with identifier `id`, if any.
fn find_node_fill(nodes: &Vec<Node>, id: NodeId) -> (r: Option<[u8; 4]>)
    ensures
        r == node_fill(nodes@, id),
{
    match find_node_index(nodes, id) {
        Some(i) => {
            proof {
                let w = choose|w: int| 0 <= w < nodes@.len() && nodes@[w].id == id && first_with_id(nodes@, w);
                lemma_first_unique(nodes@, id, i as int, w);
            }
            Some(nodes[i].fill_color)
        },
        None => None,
    }
}

/// Edge `e` coloured like the node it starts from, when that node exists.
pub open spec fn synced(nodes: Seq<Node>, e: Edge) -> Edge {
    match node_fill(nodes, e.source.node_id) {
        Some(col) => edge_changed(EdgeChange::Color(col), e),
        None => e,
    }
}

/// Colours the first edge with identifier `id` like the node it starts from.
pub fn sync_edge_color(doc: &mut FlowchartDocument, id: EdgeId)
    ensures
        final(doc).nodes@ == old(doc).nodes@,
        final(doc).edges@ == match find_edge_spec(old(doc).edges@, id) {
            Some(i) => old(doc).edges@.update(i, synced(old(doc).nodes@, old(doc).edges@[i])),
            None => old(doc).edges@,
        },
{
    match find_edge_index(&doc.edges, id) {
        Some(i) => {
            proof {
                let w = choose|w: int| 0 <= w < doc.edges@.len() && doc.edges@[w].id == id && first_edge_with_id(doc.edges@, w);
                lemma_first_edge_unique(doc.edges@, id, i as int, w);
            }
            match find_node_fill(&doc.nodes, doc.edges[i].source.node_id) {
                Some(col) => {
                    let mut taken = blank_edge();
                    std::mem::swap(&mut doc.edges[i], &mut taken);
                    let updated = change_edge(taken, EdgeChange::Color(col));
                    doc.edges.set(i, updated);
                },
                None => {},
            }
        },
        None => {},
    }
}

/// The position of the first edge with identifier `id`, if any.
pub open spec fn find_edge_spec(edges: Seq<Edge>, id: EdgeId) -> Option<int> {
    if exists|i: int| 0 <= i < edges.len() && #[trigger] edges[i].id == id {
        Some(choose|i: int| 0 <= i < edges.len() && edges[i].id == id && first_edge_with_id(edges, i))
    } else {
        None
    }
}

/// Colours every edge like the node it starts from; an edge whose start node is missing
/// keeps its colour.
pub fn sync_all_edge_colors(doc: &mut FlowchartDocument)
    ensures
        final(doc).nodes@ == old(doc).nodes@,
        final(doc).edges@.len() == old(doc).edges@.len(),
        forall|i: int| 0 <= i < old(doc).edges@.len() ==> #[trigger] final(doc).edges@[i] == synced(old(doc).nodes@, old(doc).edges@[i]),
{
    let ghost before = doc.edges@;
    let mut i: usize = 0;
    while i < doc.edges.len()
        invariant
            0 <= i <= doc.edges@.len(),
            doc.edges@.len() == before.len(),
            before == old(doc).edges@,
            doc.nodes@ == old(doc).nodes@,
            forall|j: int| 0 <= j < i ==> #[trigger] doc.edges@[j] == synced(doc.nodes@, before[j]),
            forall|j: int| i <= j < before.len() ==> #[trigger] doc.edges@[j] == before[j],
        decreases doc.edges@.len() - i,
    {
        match find_node_fill(&doc.nodes, doc.edges[i].source.node_id) {
            Some(col) => {
                let mut taken = blank_edge();
                std::mem::swap(&mut doc.edges[i], &mut taken);
                let updated = change_edge(taken, EdgeChange::Color(col));
                doc.edges.set(i, updated);
            },
            None => {},
        }
        i = i + 1;
    }
}

/// Ends a drag from port `source` on port `target`: a new edge `id` joins them, unlabelled
/// and drawn in `style`, unless both ports belong to the same node. Returns whether the
/// edge was added.
pub fn connect_ports(doc: &mut FlowchartDocument, id: EdgeId, source: Port, target: Port, style: EdgeStyle) -> (added: bool)
    ensures
        added == (source.node_id != target.node_id),
        final(doc).nodes@ == old(doc).nodes@,
        added ==> final(doc).edges@.len() == old(doc).edges@.len() + 1 && final(doc).edges@.drop_last() == old(doc).edges@ && {
            let e = final(doc).edges@.last();
            e.id == id && e.source == source && e.target == target && e.label@.len() == 0 && e.style == style
        },
        !added ==> final(doc).edges@ == old(doc).edges@,
{
    if source.node_id == target.node_id {
        return false;
    }
    doc.edges.push(Edge { id, source, target, label: String::new(), style });
    assert(doc.edges@.drop_last() =~= old(doc).edges@);
    true
}

} // verus!
