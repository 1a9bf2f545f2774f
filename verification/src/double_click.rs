//! What a double-click on the canvas does, once the pointer has been hit-tested against
//! the nodes, the edges and the section labels.
use vstd::prelude::*;
use crate::edits::{find_node_index, first_with_id};
use crate::model::{EdgeId, FlowchartDocument, Node, NodeId, NodeKind, NodeShape};
use crate::section::{apply_section_style, section_style_spec, styled};
use crate::text::lowercase;

verus! {

/// The outcome of a double-click on the canvas.
#[derive(Debug, Clone, PartialEq, Eq)]
pub enum DoubleClick {
    /// The node was selected and its label opened for inline editing, with this text.
    EditNode(NodeId, String),
    /// The node was selected, but the document holds no node with its identifier, so the
    /// label field of the properties panel takes the focus instead.
    FocusLabel(NodeId),
    /// The edge was selected and its label opened for inline editing.
    EditEdge(EdgeId),
    /// The section with this name is being renamed.
    RenameSection(String),
    /// A new node with this identifier was added, selected and opened for editing.
    Created(NodeId),
    /// Nothing happened.
    Nothing,
}

/// Whether `n` is a new rectangle with identifier `id`: no label or other text, white with
/// black text, no tag, and every flag off.
pub open spec fn fresh_rectangle(n: Node, id: NodeId) -> bool {
    &&& n.id == id
    &&& n.kind == (NodeKind::Shape { shape: NodeShape::Rectangle })
    &&& n.label@.len() == 0
    &&& n.fill_color == [255u8, 255, 255, 255]
    &&& n.text_color == [0u8, 0, 0, 255]
    &&& n.description@.len() == 0
    &&& n.sublabel@.len() == 0
    &&& n.section_name@.len() == 0
    &&& n.icon@.len() == 0
    &&& n.url@.len() == 0
    &&& n.comment@.len() == 0
    &&& n.tag.is_none()
    &&& !n.half_done && !n.finished && !n.glow && !n.highlight && !n.is_frame && !n.pinned && !n.locked && !n.collapsed
}

/// Whether `m` is the node a double-click on empty canvas adds with identifier `id`: a new
/// rectangle, which, inside the section `section`, belongs to it and has its look, its
/// text in the colour `contrast` picks for the section's fill.
pub open spec fn created_node<F: Fn([u8; 4]) -> [u8; 4]>(
    m: Node,
    id: NodeId,
    section: Option<Seq<char>>,
    contrast: F,
) -> bool {
    match section {
        None => fresh_rectangle(m, id),
        Some(sec) => {
            &&& m.section_name@ == sec
            &&& exists|b: Node|
                #[trigger] fresh_rectangle(b, id) && (Node { section_name: b.section_name, ..m }) == styled(
                    b,
                    lowercase(sec),
                    m.text_color,
                )
            &&& match section_style_spec(lowercase(sec)) {
                Some(style) => contrast.ensures((style.fill,), m.text_color),
                None => true,
            }
        },
    }
}

/// Handles a double-click on the canvas. `node_hit` is the topmost node under the pointer,
/// `edge_hit` the edge under it when no node is, `select_tool` whether the select tool is
/// active, `section_label` the section whose label is under the pointer, `section_here`
/// the section whose area holds the pointer, and `new_id` the identifier for a new node.
///
/// A node opens its label for editing; else an edge opens its label; else, with the
/// select tool, a section label starts a rename, and empty canvas gets a new rectangle
/// (styled for the section it lies in, `contrast` giving its text colour) that opens for
/// editing. Only the new rectangle changes the document.
pub fn double_click<F: Fn([u8; 4]) -> [u8; 4]>(
    doc: &mut FlowchartDocument,
    node_hit: Option<NodeId>,
    edge_hit: Option<EdgeId>,
    select_tool: bool,
    section_label: Option<String>,
    section_here: Option<String>,
    new_id: NodeId,
    contrast: F,
) -> (r: DoubleClick)
    requires
        forall|c: [u8; 4]| contrast.requires((c,)),
    ensures
        final(doc).edges@ == old(doc).edges@,
        match node_hit {
            Some(id) => {
                &&& final(doc).nodes@ == old(doc).nodes@
                &&& match r {
                    DoubleClick::EditNode(k, label) => k == id && exists|i: int|
                        0 <= i < old(doc).nodes@.len() && #[trigger] old(doc).nodes@[i].id == id && first_with_id(
                            old(doc).nodes@,
                            i,
                        ) && label@ == old(doc).nodes@[i].label@,
                    DoubleClick::FocusLabel(k) => k == id && !old(doc).has_node(id),
                    _ => false,
                }
            },
            None => match edge_hit {
                Some(e) => final(doc).nodes@ == old(doc).nodes@ && r == DoubleClick::EditEdge(e),
                None => if !select_tool {
                    final(doc).nodes@ == old(doc).nodes@ && r == DoubleClick::Nothing
                } else {
                    match section_label {
                        Some(name) => final(doc).nodes@ == old(doc).nodes@ && (r matches DoubleClick::RenameSection(t)
                            && t@ == name@),
                        None => {
                            &&& r == DoubleClick::Created(new_id)
                            &&& final(doc).nodes@.len() == old(doc).nodes@.len() + 1
                            &&& final(doc).nodes@.drop_last() == old(doc).nodes@
                            &&& created_node(
                                final(doc).nodes@.last(),
                                new_id,
                                match section_here {
                                    Some(s) => Some(s@),
                                    None => None,
                                },
                                contrast,
                            )
                        },
                    }
                },
            },
        },
{
    match node_hit {
        Some(id) => {
            match find_node_index(&doc.nodes, id) {
                Some(i) => DoubleClick::EditNode(id, doc.nodes[i].label.clone()),
                None => DoubleClick::FocusLabel(id),
            }
        },
        None => match edge_hit {
            Some(e) => DoubleClick::EditEdge(e),
            None => {
                if !select_tool {
                    return DoubleClick::Nothing;
                }
                match section_label {
                    Some(name) => DoubleClick::RenameSection(name),
                    None => {
                        let mut node = Node::new(new_id, NodeKind::Shape { shape: NodeShape::Rectangle }, String::new());
                        let ghost blank = node;
                        match section_here {
                            Some(sec) => {
                                apply_section_style(&mut node, sec.as_str(), contrast);
                                node.section_name = sec;
                                assert(fresh_rectangle(blank, new_id));
                                assert((Node { section_name: blank.section_name, ..node }) == styled(
                                    blank,
                                    lowercase(sec@),
                                    node.text_color,
                                ));
                            },
                            None => {},
                        }
                        doc.nodes.push(node);
                        assert(doc.nodes@.drop_last() =~= old(doc).nodes@);
                        DoubleClick::Created(new_id)
                    },
                }
            },
        },
    }
}

} // verus!
