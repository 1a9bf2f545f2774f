//! The document model: nodes, edges and the ports that edges attach to.
//!
//! Only what the library's logic reads is held here, as plain values.
//! Node and edge identifiers are the 128-bit values of their UUIDs.
use vstd::prelude::*;

verus! {

/// Identifier of a node: the 128-bit value of the node's UUID.
pub type NodeId = u128;

/// Identifier of an edge: the 128-bit value of the edge's UUID.
pub type EdgeId = u128;

/// The side of a node on which a port sits.
#[derive(Debug, Clone, Copy, PartialEq, Eq, Structural)]
pub enum PortSide {
    Top,
    Bottom,
    Left,
    Right,
}

/// An attachment point of an edge: a node and one of its sides.
#[derive(Debug, Clone, Copy, PartialEq, Eq, Structural)]
pub struct Port {
    pub node_id: NodeId,
    pub side: PortSide,
}

/// The outline of a shape node.
#[derive(Debug, Clone, Copy, PartialEq, Eq, Structural)]
pub enum NodeShape {
    Rectangle,
    RoundedRect,
    Diamond,
    Circle,
    Parallelogram,
    Hexagon,
    Connector,
    Callout,
}

/// What kind of element a node is.
#[derive(Debug, Clone, Copy, PartialEq, Eq, Structural)]
pub enum NodeKind {
    Shape { shape: NodeShape },
    StickyNote,
    Entity,
    Text,
}

/// A status tag a node can carry.
#[derive(Debug, Clone, Copy, PartialEq, Eq, Structural)]
pub enum NodeTag {
    /// Done.
    Done,
    /// In progress.
    Info,
    /// To do, or in review once half done.
    Warning,
    /// Blocked.
    Critical,
}

/// A node of the diagram.
#[derive(Debug, Clone)]
pub struct Node {
    pub id: NodeId,
    /// The text the node shows as its label.
    pub label: String,
    pub kind: NodeKind,
    /// Fill colour as RGBA.
    pub fill_color: [u8; 4],
    /// Colour of the node's text as RGBA.
    pub text_color: [u8; 4],
    /// The longer description of a shape node (empty for other kinds).
    pub description: String,
    /// The second line under the label: due dates (`📅 …`) and owners (`👤 …`).
    pub sublabel: String,
    /// The name of the template section the node belongs to (empty when none).
    pub section_name: String,
    /// The icon shown on the node, as text.
    pub icon: String,
    pub url: String,
    pub comment: String,
    pub tag: Option<NodeTag>,
    /// Whether the node's progress has reached one half.
    pub half_done: bool,
    /// Whether the node's progress is complete.
    pub finished: bool,
    /// Whether the node glows.
    pub glow: bool,
    pub highlight: bool,
    /// Whether the node is a frame grouping other nodes.
    pub is_frame: bool,
    /// Whether the node keeps its place when the diagram is laid out again.
    pub pinned: bool,
    /// Whether the node is protected from deletion.
    pub locked: bool,
    /// Whether the node is folded down to its title bar.
    pub collapsed: bool,
}

impl Node {
    /// A node with the given identifier, kind and label, white with black text, and with
    /// every other text empty and every flag off.
    pub fn new(id: NodeId, kind: NodeKind, label: String) -> (n: Node)
        ensures
            n.id == id,
            n.kind == kind,
            n.label == label,
            n.fill_color == [255u8, 255, 255, 255],
            n.text_color == [0u8, 0, 0, 255],
            n.description@.len() == 0,
            n.sublabel@.len() == 0,
            n.section_name@.len() == 0,
            n.icon@.len() == 0,
            n.url@.len() == 0,
            n.comment@.len() == 0,
            n.tag.is_none(),
            !n.half_done,
            !n.finished,
            !n.glow,
            !n.highlight,
            !n.is_frame,
            !n.pinned,
            !n.locked,
            !n.collapsed,
    {
        Node {
            id,
            label,
            kind,
            fill_color: [255, 255, 255, 255],
            text_color: [0, 0, 0, 255],
            description: String::new(),
            sublabel: String::new(),
            section_name: String::new(),
            icon: String::new(),
            url: String::new(),
            comment: String::new(),
            tag: None,
            half_done: false,
            finished: false,
            glow: false,
            highlight: false,
            is_frame: false,
            pinned: false,
            locked: false,
            collapsed: false,
        }
    }
}

/// How an edge is drawn: its colour and its on/off styles.
#[derive(Debug, Clone, Copy)]
pub struct EdgeStyle {
    /// Line colour as RGBA.
    pub color: [u8; 4],
    pub dashed: bool,
    /// Whether dots run along the edge in its direction.
    pub animated: bool,
    /// Whether the edge is drawn with right-angled bends.
    pub orthogonal: bool,
    pub glow: bool,
}

impl EdgeStyle {
    /// A solid, still, curved edge style of colour `color` without glow.
    pub fn plain(color: [u8; 4]) -> (s: EdgeStyle)
        ensures
            s == (EdgeStyle { color: color, dashed: false, animated: false, orthogonal: false, glow: false }),
    {
        EdgeStyle { color, dashed: false, animated: false, orthogonal: false, glow: false }
    }
}

/// A directed connection from one node's port to another's.
#[derive(Debug, Clone)]
pub struct Edge {
    pub id: EdgeId,
    pub source: Port,
    pub target: Port,
    pub label: String,
    pub style: EdgeStyle,
}

/// A whole diagram: its nodes and its edges, in drawing order.
#[derive(Debug, Clone)]
pub struct FlowchartDocument {
    pub nodes: Vec<Node>,
    pub edges: Vec<Edge>,
}

/// The identifiers of a sequence of nodes, in order.
pub open spec fn node_ids(nodes: Seq<Node>) -> Seq<NodeId> {
    nodes.map_values(|n: Node| n.id)
}

impl FlowchartDocument {
    /// Whether some node of the document has identifier `id`.
    pub open spec fn has_node(&self, id: NodeId) -> bool {
        exists|i: int| 0 <= i < self.nodes@.len() && #[trigger] self.nodes@[i].id == id
    }

    /// An empty document.
    pub fn new() -> (doc: Self)
        ensures
            doc.nodes@.len() == 0,
            doc.edges@.len() == 0,
    {
        FlowchartDocument { nodes: Vec::new(), edges: Vec::new() }
    }
}

} // verus!
