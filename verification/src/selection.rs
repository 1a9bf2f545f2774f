//! Selections made by the palette and menu selection actions, and the diagram's summary counts.
use vstd::prelude::*;
use std::collections::HashSet;
use crate::model::{Edge, EdgeId, FlowchartDocument, Node, NodeId, NodeKind, NodeShape, NodeTag};

verus! {

broadcast use vstd::std_specs::hash::group_hash_axioms;

/// Whether edge `e` starts or ends at `id`.
pub open spec fn is_end_of(e: Edge, id: NodeId) -> bool {
    e.source.node_id == id || e.target.node_id == id
}

/// Whether some edge starts or ends at `id`.
pub open spec fn is_connected(edges: Seq<Edge>, id: NodeId) -> bool {
    exists|j: int| 0 <= j < edges.len() && #[trigger] is_end_of(edges[j], id)
}

/// The identifiers of the nodes at positions below `k` that satisfy `p`.
pub open spec fn ids_where(nodes: Seq<Node>, k: int, p: spec_fn(Node) -> bool) -> Set<NodeId> {
    Set::new(|v: NodeId| exists|i: int| 0 <= i < k && #[trigger] nodes[i].id == v && p(nodes[i]))
}

/// Whether some edge starts or ends at `id`.
pub fn has_edges(edges: &Vec<Edge>, id: NodeId) -> (r: bool)
    ensures
        r == is_connected(edges@, id),
{
    let mut j: usize = 0;
    while j < edges.len()
        invariant
            0 <= j <= edges@.len(),
            forall|t: int| 0 <= t < j ==> !is_end_of(#[trigger] edges@[t], id),
        decreases edges@.len() - j,
    {
        let e = &edges[j];
        if e.source.node_id == id || e.target.node_id == id {
            assert(is_end_of(edges@[j as int], id));
            return true;
        }
        j = j + 1;
    }
    false
}

/// Which nodes a selection action picks.
pub enum NodeFilter {
    /// Every node.
    All,
    /// Nodes that are not frames and have no edge.
    Orphans,
    /// Shape nodes of the given shape.
    Shape(NodeShape),
    /// Nodes with the given tag (or with none).
    Tag(Option<NodeTag>),
    /// Nodes not in the given selection.
    NotIn(HashSet<NodeId>),
}

/// Whether `n` passes `f` in a document whose edges are `edges`.
pub open spec fn passes(f: NodeFilter, edges: Seq<Edge>, n: Node) -> bool {
    match f {
        NodeFilter::All => true,
        NodeFilter::Orphans => !n.is_frame && !is_connected(edges, n.id),
        NodeFilter::Shape(s) => n.kind == NodeKind::Shape { shape: s },
        NodeFilter::Tag(t) => n.tag == t,
        NodeFilter::NotIn(sel) => !sel@.contains(n.id),
    }
}

/// The identifiers of the nodes of the document that pass `filter`: all nodes (select all),
/// unconnected non-frame nodes (select orphans), nodes of a shape or a tag (select similar),
/// or the nodes outside a selection (invert selection).
pub fn select_nodes(doc: &FlowchartDocument, filter: &NodeFilter) -> (sel: HashSet<NodeId>)
    ensures
        sel@ == ids_where(doc.nodes@, doc.nodes@.len() as int, |n: Node| passes(*filter, doc.edges@, n)),
{
    let mut sel: HashSet<NodeId> = HashSet::new();
    let ghost p = |n: Node| passes(*filter, doc.edges@, n);
    for k in 0..doc.nodes.len()
        invariant
            p == (|n: Node| passes(*filter, doc.edges@, n)),
            sel@ == ids_where(doc.nodes@, k as int, p),
    {
        let node = &doc.nodes[k];
        let keep = match filter {
            NodeFilter::All => true,
            NodeFilter::Orphans => !node.is_frame && !has_edges(&doc.edges, node.id),
            NodeFilter::Shape(s) => match node.kind {
                NodeKind::Shape { shape } => shape == *s,
                _ => false,
            },
            NodeFilter::Tag(t) => match (node.tag, *t) {
                (None, None) => true,
                (Some(a), Some(b)) => a == b,
                _ => false,
            },
            NodeFilter::NotIn(set) => !set.contains(&node.id),
        };
        assert(keep == p(doc.nodes@[k as int]));
        if keep {
            sel.insert(node.id);
        }
        proof {
            assert forall|v: NodeId| #[trigger] sel@.contains(v) <==> ids_where(doc.nodes@, k + 1, p).contains(v) by {
                if v == node.id && keep {
                    assert(doc.nodes@[k as int].id == v);
                }
                if ids_where(doc.nodes@, k + 1, p).contains(v) {
                    let i = choose|i: int| 0 <= i < k + 1 && #[trigger] doc.nodes@[i].id == v && p(doc.nodes@[i]);
                    if i < k {
                        assert(ids_where(doc.nodes@, k as int, p).contains(v));
                    }
                }
                if sel@.contains(v) && !(v == node.id && keep) {
                    assert(ids_where(doc.nodes@, k as int, p).contains(v));
                    let i = choose|i: int| 0 <= i < k && #[trigger] doc.nodes@[i].id == v && p(doc.nodes@[i]);
                    assert(doc.nodes@[i].id == v);
                }
            }
            assert(sel@ =~= ids_where(doc.nodes@, k + 1, p));
        }
    }
    sel
}

/// The identifiers of the nodes whose section is `section`.
pub fn nodes_in_section(doc: &FlowchartDocument, section: &str) -> (sel: HashSet<NodeId>)
    ensures
        sel@ == ids_where(doc.nodes@, doc.nodes@.len() as int, |n: Node| n.section_name@ == section@),
{
    let mut sel: HashSet<NodeId> = HashSet::new();
    let ghost p = |n: Node| n.section_name@ == section@;
    for k in 0..doc.nodes.len()
        invariant
            p == (|n: Node| n.section_name@ == section@),
            sel@ == ids_where(doc.nodes@, k as int, p),
    {
        let node = &doc.nodes[k];
        let keep = crate::text::str_eq(node.section_name.as_str(), section);
        if keep {
            sel.insert(node.id);
        }
        proof {
            assert forall|v: NodeId| #[trigger] sel@.contains(v) <==> ids_where(doc.nodes@, k + 1, p).contains(v) by {
                if v == node.id && keep {
                    assert(doc.nodes@[k as int].id == v);
                }
                if ids_where(doc.nodes@, k + 1, p).contains(v) {
                    let i = choose|i: int| 0 <= i < k + 1 && #[trigger] doc.nodes@[i].id == v && p(doc.nodes@[i]);
                    if i < k {
                        assert(ids_where(doc.nodes@, k as int, p).contains(v));
                    }
                }
                if sel@.contains(v) && !(v == node.id && keep) {
                    assert(ids_where(doc.nodes@, k as int, p).contains(v));
                    let i = choose|i: int| 0 <= i < k && #[trigger] doc.nodes@[i].id == v && p(doc.nodes@[i]);
                    assert(doc.nodes@[i].id == v);
                }
            }
            assert(sel@ =~= ids_where(doc.nodes@, k + 1, p));
        }
    }
    sel
}

/// The identifiers of the edges among the first `k` for which `p` holds.
pub open spec fn edge_ids_where(edges: Seq<Edge>, k: int, p: spec_fn(Edge) -> bool) -> Set<EdgeId> {
    Set::new(|e: EdgeId| exists|j: int| 0 <= j < k && #[trigger] edges[j].id == e && p(edges[j]))
}

/// The identifiers of the edges whose two ends are both selected, or, when `only_between`
/// is false, of every edge.
pub fn select_edges(doc: &FlowchartDocument, selected: &HashSet<NodeId>, only_between: bool) -> (sel: HashSet<EdgeId>)
    ensures
        sel@ == edge_ids_where(
            doc.edges@,
            doc.edges@.len() as int,
            |e: Edge| !only_between || (selected@.contains(e.source.node_id) && selected@.contains(e.target.node_id)),
        ),
{
    let mut sel: HashSet<EdgeId> = HashSet::new();
    let ghost p = |e: Edge| !only_between || (selected@.contains(e.source.node_id) && selected@.contains(e.target.node_id));
    for k in 0..doc.edges.len()
        invariant
            p == (|e: Edge| !only_between || (selected@.contains(e.source.node_id) && selected@.contains(e.target.node_id))),
            sel@ == edge_ids_where(doc.edges@, k as int, p),
    {
        let edge = &doc.edges[k];
        let keep = !only_between || (selected.contains(&edge.source.node_id) && selected.contains(&edge.target.node_id));
        assert(keep == p(doc.edges@[k as int]));
        if keep {
            sel.insert(edge.id);
        }
        proof {
            assert forall|e: EdgeId| #[trigger] sel@.contains(e) <==> edge_ids_where(doc.edges@, k + 1, p).contains(e) by {
                if e == edge.id && keep {
                    assert(doc.edges@[k as int].id == e);
                }
                if edge_ids_where(doc.edges@, k + 1, p).contains(e) {
                    let j = choose|j: int| 0 <= j < k + 1 && #[trigger] doc.edges@[j].id == e && p(doc.edges@[j]);
                    if j < k {
                        assert(edge_ids_where(doc.edges@, k as int, p).contains(e));
                    }
                }
                if sel@.contains(e) && !(e == edge.id && keep) {
                    assert(edge_ids_where(doc.edges@, k as int, p).contains(e));
                    let j = choose|j: int| 0 <= j < k && #[trigger] doc.edges@[j].id == e && p(doc.edges@[j]);
                    assert(doc.edges@[j].id == e);
                }
            }
            assert(sel@ =~= edge_ids_where(doc.edges@, k + 1, p));
        }
    }
    sel
}

/// Summary counts of a diagram.
#[derive(Debug, Clone, Copy, PartialEq, Eq, Structural)]
pub struct DiagramStats {
    pub nodes: usize,
    pub edges: usize,
    /// Nodes that are frames.
    pub frames: usize,
    /// Distinct non-empty section names.
    pub sections: usize,
    /// Non-frame nodes with no edge.
    pub unconnected: usize,
}

/// How many of the first `k` nodes satisfy `p`.
pub open spec fn count_where(nodes: Seq<Node>, k: int, p: spec_fn(Node) -> bool) -> nat
    decreases k,
{
    if k <= 0 {
        0
    } else {
        count_where(nodes, k - 1, p) + if p(nodes[k - 1]) { 1nat } else { 0nat }
    }
}

/// The distinct non-empty section names among the first `k` nodes.
pub open spec fn section_names(nodes: Seq<Node>, k: int) -> Set<Seq<char>> {
    Set::new(|s: Seq<char>| s.len() > 0 && exists|i: int| 0 <= i < k && #[trigger] nodes[i].section_name@ == s)
}

proof fn lemma_count_bound(nodes: Seq<Node>, k: int, p: spec_fn(Node) -> bool)
    requires
        0 <= k,
    ensures
        count_where(nodes, k, p) <= k,
    decreases k,
{
    if k > 0 {
        lemma_count_bound(nodes, k - 1, p);
    }
}

/// The summary counts of `doc`.
pub open spec fn doc_stats(doc: FlowchartDocument) -> DiagramStats {
    DiagramStats {
        nodes: doc.nodes@.len() as usize,
        edges: doc.edges@.len() as usize,
        frames: count_where(doc.nodes@, doc.nodes@.len() as int, |n: Node| n.is_frame) as usize,
        sections: section_names(doc.nodes@, doc.nodes@.len() as int).len() as usize,
        unconnected: count_where(
            doc.nodes@,
            doc.nodes@.len() as int,
            |n: Node| !n.is_frame && !is_connected(doc.edges@, n.id),
        ) as usize,
    }
}

/// The diagram's summary: its numbers of nodes, edges, frames, distinct sections and
/// unconnected nodes (non-frame nodes without an edge).
pub fn diagram_stats(doc: &FlowchartDocument) -> (st: DiagramStats)
    ensures
        st.nodes == doc.nodes@.len(),
        st.edges == doc.edges@.len(),
        st.frames == count_where(doc.nodes@, doc.nodes@.len() as int, |n: Node| n.is_frame),
        st.unconnected == count_where(
            doc.nodes@,
            doc.nodes@.len() as int,
            |n: Node| !n.is_frame && !is_connected(doc.edges@, n.id),
        ),
        st.sections == section_names(doc.nodes@, doc.nodes@.len() as int).len(),
        st == doc_stats(*doc),
{
    let ghost pf = |n: Node| n.is_frame;
    let ghost pu = |n: Node| !n.is_frame && !is_connected(doc.edges@, n.id);
    let mut frames: usize = 0;
    let mut unconnected: usize = 0;
    let mut names: Vec<String> = Vec::new();
    let ghost mut seen: Seq<Seq<char>> = Seq::empty();
    for k in 0..doc.nodes.len()
        invariant
            pf == (|n: Node| n.is_frame),
            pu == (|n: Node| !n.is_frame && !is_connected(doc.edges@, n.id)),
            frames == count_where(doc.nodes@, k as int, pf),
            unconnected == count_where(doc.nodes@, k as int, pu),
            names@.len() == seen.len(),
            forall|t: int| 0 <= t < seen.len() ==> #[trigger] seen[t] == names@[t]@,
            seen.no_duplicates(),
            seen.to_set() == section_names(doc.nodes@, k as int),
            seen.len() <= k,
    {
        proof {
            lemma_count_bound(doc.nodes@, k as int, pf);
            lemma_count_bound(doc.nodes@, k as int, pu);
        }
        let node = &doc.nodes[k];
        if node.is_frame {
            frames = frames + 1;
        } else if !has_edges(&doc.edges, node.id) {
            unconnected = unconnected + 1;
        }
        let name = node.section_name.as_str();
        let mut known = name.is_empty();
        let mut t: usize = 0;
        while t < names.len() && !known
            invariant
                0 <= t <= names@.len(),
                names@.len() == seen.len(),
                forall|u: int| 0 <= u < seen.len() ==> #[trigger] seen[u] == names@[u]@,
                known <==> (name@.len() == 0 || exists|u: int| 0 <= u < t && seen[u] == name@),
            decreases names@.len() - t,
        {
            let same = crate::text::str_eq(names[t].as_str(), name);
            assert(seen[t as int] == names@[t as int]@);
            if same {
                known = true;
            }
            proof {
                if same {
                    assert(seen[t as int] == name@);
                }
                if (exists|u: int| 0 <= u < t + 1 && seen[u] == name@) && !same {
                    let u = choose|u: int| 0 <= u < t + 1 && seen[u] == name@;
                    assert(u < t);
                }
            }
            t = t + 1;
        }
        proof {
            if !known {
                assert(t == names@.len());
                assert(!seen.contains(name@));
            } else if name@.len() > 0 {
                let u = choose|u: int| 0 <= u < t && seen[u] == name@;
                assert(seen.contains(name@));
            }
        }
        let ghost old_seen = seen;
        if !known {
            names.push(node.section_name.clone());
            proof {
                seen = seen.push(name@);
                assert forall|t: int| 0 <= t < seen.len() implies #[trigger] seen[t] == names@[t]@ by {
                    if t < old_seen.len() {
                        assert(seen[t] == old_seen[t]);
                    }
                }
            }
        }
        proof {
            assert(doc.nodes@[k as int].section_name@ == name@);
            assert forall|s: Seq<char>| #[trigger] seen.to_set().contains(s) <==> section_names(doc.nodes@, k + 1).contains(s) by {
                if seen.contains(s) && s != name@ {
                    let u = choose|u: int| 0 <= u < seen.len() && seen[u] == s;
                    assert(old_seen[u] == s);
                    assert(old_seen.to_set().contains(s));
                    let i = choose|i: int| 0 <= i < k && #[trigger] doc.nodes@[i].section_name@ == s;
                    assert(section_names(doc.nodes@, k + 1).contains(s));
                }
                if seen.contains(s) && s == name@ {
                    assert(name@.len() > 0 || old_seen.contains(s)) by {
                        if name@.len() == 0 && !old_seen.contains(s) {
                            let u = choose|u: int| 0 <= u < seen.len() && seen[u] == s;
                            assert(known);
                        }
                    }
                    if old_seen.contains(s) {
                        assert(old_seen.to_set().contains(s));
                    }
                }
                if section_names(doc.nodes@, k + 1).contains(s) {
                    let i = choose|i: int| 0 <= i < k + 1 && #[trigger] doc.nodes@[i].section_name@ == s;
                    if i < k {
                        assert(section_names(doc.nodes@, k as int).contains(s));
                        assert(old_seen.to_set().contains(s));
                        let u = choose|u: int| 0 <= u < old_seen.len() && old_seen[u] == s;
                        assert(seen[u] == s);
                    } else {
                        if !known {
                            assert(seen[seen.len() - 1] == s);
                        } else {
                            let u = choose|u: int| 0 <= u < old_seen.len() && old_seen[u] == s;
                            assert(seen[u] == s);
                        }
                    }
                }
            }
            assert(seen.to_set() =~= section_names(doc.nodes@, k + 1));
        }
    }
    proof {
        seen.unique_seq_to_set();
    }
    DiagramStats {
        nodes: doc.nodes.len(),
        edges: doc.edges.len(),
        frames,
        sections: names.len(),
        unconnected,
    }
}

/// Inverting the selection twice keeps the selected nodes of the document and drops every
/// other identifier.
pub proof fn law_invert_twice(nodes: Seq<Node>, selected: Set<NodeId>)
    ensures
        ({
            let n = nodes.len() as int;
            let once = ids_where(nodes, n, |m: Node| !selected.contains(m.id));
            ids_where(nodes, n, |m: Node| !once.contains(m.id)) == ids_where(nodes, n, |m: Node| selected.contains(m.id))
        }),
{
    let n = nodes.len() as int;
    let once = ids_where(nodes, n, |m: Node| !selected.contains(m.id));
    let twice = ids_where(nodes, n, |m: Node| !once.contains(m.id));
    let kept = ids_where(nodes, n, |m: Node| selected.contains(m.id));
    assert forall|v: NodeId| twice.contains(v) <==> kept.contains(v) by {
        if twice.contains(v) {
            let i = choose|i: int| 0 <= i < n && #[trigger] nodes[i].id == v && !once.contains(nodes[i].id);
            if !selected.contains(v) {
                assert(once.contains(v)) by {
                    assert(0 <= i < n && nodes[i].id == v && !selected.contains(nodes[i].id));
                }
            }
            assert(nodes[i].id == v && selected.contains(nodes[i].id));
        }
        if kept.contains(v) {
            let i = choose|i: int| 0 <= i < n && #[trigger] nodes[i].id == v && selected.contains(nodes[i].id);
            assert(!once.contains(v));
            assert(nodes[i].id == v && !once.contains(nodes[i].id));
        }
    }
    assert(twice =~= kept);
}

/// The nodes joined to node `id` by the first `k` edges: for each edge in order, its other
/// end when it starts or ends at `id`.
pub open spec fn neighbours(edges: Seq<Edge>, k: int, id: NodeId) -> Seq<NodeId>
    decreases k,
{
    if k <= 0 {
        Seq::empty()
    } else {
        let r = neighbours(edges, k - 1, id);
        let e = edges[k - 1];
        if e.source.node_id == id {
            r.push(e.target.node_id)
        } else if e.target.node_id == id {
            r.push(e.source.node_id)
        } else {
            r
        }
    }
}

/// The nodes joined to node `id` by an edge, as the menu's "select connected" adds them.
pub fn connected_ids(doc: &FlowchartDocument, id: NodeId) -> (r: Vec<NodeId>)
    ensures
        r@ == neighbours(doc.edges@, doc.edges@.len() as int, id),
{
    let mut r: Vec<NodeId> = Vec::new();
    let mut k: usize = 0;
    while k < doc.edges.len()
        invariant
            0 <= k <= doc.edges@.len(),
            r@ == neighbours(doc.edges@, k as int, id),
        decreases doc.edges@.len() - k,
    {
        let e = &doc.edges[k];
        if e.source.node_id == id {
            r.push(e.target.node_id);
        } else if e.target.node_id == id {
            r.push(e.source.node_id);
        }
        k = k + 1;
    }
    r
}

} // verus!
