//! Edits that menus and palette actions make to the nodes of a document: changes to nodes
//! picked by identifier, the drawing order and section renames.
//!
//! An edit given a list of identifiers changes, for each of them, the first node that
//! carries it, as a lookup by identifier finds it; every other node stays as it was.
use vstd::prelude::*;
use crate::model::{FlowchartDocument, Node, NodeId, NodeKind, NodeShape, NodeTag};
use crate::assign::{reassign_sublabel, reassigned};
use crate::query::priority_matches;
use crate::text::{begins_with, chars_of, push_all, str_begins_with, str_eq, trim, trimmed};

verus! {

/// Whether node `i` is the first node of `nodes` with its identifier.
pub open spec fn first_with_id(nodes: Seq<Node>, i: int) -> bool {
    forall|j: int| 0 <= j < i ==> nodes[j].id != nodes[i].id
}

/// Whether an edit on the identifiers `ids` reaches node `i`.
pub open spec fn targeted(nodes: Seq<Node>, ids: Seq<NodeId>, i: int) -> bool {
    ids.contains(nodes[i].id) && first_with_id(nodes, i)
}

/// A change made to each node that an edit reaches.
#[derive(Debug, Clone)]
pub enum NodeChange {
    /// Set the status tag.
    Tag(Option<NodeTag>),
    /// Set the fill colour only, as a bulk colour pick does.
    Fill([u8; 4]),
    /// Set the fill colour and the text colour drawn on it, as picking one node's colour does.
    FillAndText([u8; 4], [u8; 4]),
    /// Set the status tag, the fill colour and the text colour together, as a priority
    /// level does.
    TagAndFill(Option<NodeTag>, [u8; 4], [u8; 4]),
    /// Set or clear the highlight.
    Highlight(bool),
    /// Replace the sublabel.
    Sublabel(String),
    /// Clear the sublabel when it begins with the given mark.
    ClearSublabelMarked(String),
    /// Give a shape node another outline, and set the fill and text colours of any node, as
    /// a design type does.
    ShapeAndFill(NodeShape, [u8; 4], [u8; 4]),
    /// Move the node to a section (the empty name for none).
    Section(String),
    /// Assign the node to the typed name, as the quick-assign popup does: the sublabel's
    /// owner line is replaced by one for the name, or dropped when the name is blank.
    Owner(String),
    /// Replace the comment.
    Comment(String),
    /// Replace the text the node shows, as the inline editor commits it.
    Label(String),
    /// Pin the node if it is not pinned, and unpin it if it is.
    TogglePinned,
    /// Lock the node if it is not locked, and unlock it if it is.
    ToggleLocked,
}

impl NodeChange {
    /// A copy of the change.
    pub fn clone_change(&self) -> (c: NodeChange)
        ensures
            c == *self,
    {
        match self {
            NodeChange::Tag(t) => NodeChange::Tag(*t),
            NodeChange::Fill(f) => NodeChange::Fill(*f),
            NodeChange::FillAndText(f, x) => NodeChange::FillAndText(*f, *x),
            NodeChange::TagAndFill(t, f, x) => NodeChange::TagAndFill(*t, *f, *x),
            NodeChange::Highlight(h) => NodeChange::Highlight(*h),
            NodeChange::Sublabel(s) => NodeChange::Sublabel(s.clone()),
            NodeChange::ClearSublabelMarked(m) => NodeChange::ClearSublabelMarked(m.clone()),
            NodeChange::ShapeAndFill(s, f, x) => NodeChange::ShapeAndFill(*s, *f, *x),
            NodeChange::Section(s) => NodeChange::Section(s.clone()),
            NodeChange::Owner(t) => NodeChange::Owner(t.clone()),
            NodeChange::Comment(t) => NodeChange::Comment(t.clone()),
            NodeChange::Label(t) => NodeChange::Label(t.clone()),
            NodeChange::TogglePinned => NodeChange::TogglePinned,
            NodeChange::ToggleLocked => NodeChange::ToggleLocked,
        }
    }
}

/// Whether `b` is `a` after the change `c`.
pub open spec fn changed(c: NodeChange, a: Node, b: Node) -> bool {
    match c {
        NodeChange::Tag(t) => b == Node { tag: t, ..a },
        NodeChange::Fill(f) => b == Node { fill_color: f, ..a },
        NodeChange::FillAndText(f, x) => b == Node { fill_color: f, text_color: x, ..a },
        NodeChange::TagAndFill(t, f, x) => b == Node { tag: t, fill_color: f, text_color: x, ..a },
        NodeChange::Highlight(h) => b == Node { highlight: h, ..a },
        NodeChange::Sublabel(s) => b.sublabel@ == s@ && b == Node { sublabel: b.sublabel, ..a },
        NodeChange::ClearSublabelMarked(m) => if begins_with(a.sublabel@, m@) {
            b.sublabel@.len() == 0 && b == Node { sublabel: b.sublabel, ..a }
        } else {
            b == a
        },
        NodeChange::ShapeAndFill(s, f, x) => match a.kind {
            NodeKind::Shape { .. } => b == Node {
                kind: NodeKind::Shape { shape: s },
                fill_color: f,
                text_color: x,
                ..a
            },
            _ => b == Node { fill_color: f, text_color: x, ..a },
        },
        NodeChange::Section(s) => b.section_name@ == s@ && b == Node { section_name: b.section_name, ..a },
        NodeChange::Owner(t) => b.sublabel@ == reassigned(a.sublabel@, t@) && b == Node { sublabel: b.sublabel, ..a },
        NodeChange::Comment(t) => b.comment@ == t@ && b == Node { comment: b.comment, ..a },
        NodeChange::Label(t) => b.label@ == t@ && b == Node { label: b.label, ..a },
        NodeChange::TogglePinned => b == Node { pinned: !a.pinned, ..a },
        NodeChange::ToggleLocked => b == Node { locked: !a.locked, ..a },
    }
}

/// Whether `after` is `before` with the change `c` made to the nodes that an edit on `ids`
/// reaches.
pub open spec fn edited(before: Seq<Node>, after: Seq<Node>, ids: Seq<NodeId>, c: NodeChange) -> bool {
    &&& after.len() == before.len()
    &&& forall|i: int|
        0 <= i < before.len() ==> if targeted(before, ids, i) {
            changed(c, before[i], #[trigger] after[i])
        } else {
            after[i] == before[i]
        }
}

/// The position of the first node with identifier `id`, as a lookup by identifier finds it.
pub fn find_node_index(nodes: &Vec<Node>, id: NodeId) -> (r: Option<usize>)
    ensures
        match r {
            Some(i) => i < nodes@.len() && nodes@[i as int].id == id && first_with_id(nodes@, i as int),
            None => forall|i: int| 0 <= i < nodes@.len() ==> #[trigger] nodes@[i].id != id,
        },
{
    let mut i: usize = 0;
    while i < nodes.len()
        invariant
            0 <= i <= nodes@.len(),
            forall|j: int| 0 <= j < i ==> #[trigger] nodes@[j].id != id,
        decreases nodes@.len() - i,
    {
        if nodes[i].id == id {
            return Some(i);
        }
        i = i + 1;
    }
    None
}

/// Whether `id` occurs in `ids`.
fn ids_contain(ids: &Vec<NodeId>, id: NodeId) -> (r: bool)
    ensures
        r == ids@.contains(id),
{
    let mut k: usize = 0;
    while k < ids.len()
        invariant
            0 <= k <= ids@.len(),
            forall|j: int| 0 <= j < k ==> ids@[j] != id,
        decreases ids@.len() - k,
    {
        if ids[k] == id {
            assert(ids@[k as int] == id);
            return true;
        }
        k = k + 1;
    }
    false
}

/// Whether node `i` is the first with its identifier.
fn is_first_with_id(nodes: &Vec<Node>, i: usize) -> (r: bool)
    requires
        i < nodes@.len(),
    ensures
        r == first_with_id(nodes@, i as int),
{
    let id = nodes[i].id;
    let mut j: usize = 0;
    while j < i
        invariant
            0 <= j <= i < nodes@.len(),
            id == nodes@[i as int].id,
            forall|t: int| 0 <= t < j ==> #[trigger] nodes@[t].id != id,
        decreases i - j,
    {
        if nodes[j].id == id {
            return false;
        }
        j = j + 1;
    }
    true
}

/// Node `i` of `nodes` replaced by the result of a change.
fn put_node(nodes: &mut Vec<Node>, i: usize, n: Node)
    requires
        i < old(nodes)@.len(),
    ensures
        final(nodes)@ == old(nodes)@.update(i as int, n),
{
    nodes.set(i, n);
}

/// The node `n` after the change `c`.
fn change_one(n: Node, c: &NodeChange) -> (r: Node)
    ensures
        changed(*c, n, r),
{
    let mut n = n;
    match c {
        NodeChange::Tag(t) => {
            n.tag = *t;
        },
        NodeChange::Fill(f) => {
            n.fill_color = *f;
        },
        NodeChange::FillAndText(f, x) => {
            n.fill_color = *f;
            n.text_color = *x;
        },
        NodeChange::TagAndFill(t, f, x) => {
            n.tag = *t;
            n.fill_color = *f;
            n.text_color = *x;
        },
        NodeChange::Highlight(h) => {
            n.highlight = *h;
        },
        NodeChange::Sublabel(s) => {
            n.sublabel = s.clone();
        },
        NodeChange::ClearSublabelMarked(m) => {
            if str_begins_with(n.sublabel.as_str(), m.as_str()) {
                n.sublabel = String::new();
            }
        },
        NodeChange::ShapeAndFill(s, f, x) => {
            match n.kind {
                NodeKind::Shape { .. } => {
                    n.kind = NodeKind::Shape { shape: *s };
                },
                _ => {},
            }
            n.fill_color = *f;
            n.text_color = *x;
        },
        NodeChange::Section(s) => {
            n.section_name = s.clone();
        },
        NodeChange::Owner(t) => {
            n.sublabel = reassign_sublabel(n.sublabel.as_str(), t.as_str());
        },
        NodeChange::Comment(t) => {
            n.comment = t.clone();
        },
        NodeChange::Label(t) => {
            n.label = t.clone();
        },
        NodeChange::TogglePinned => {
            n.pinned = !n.pinned;
        },
        NodeChange::ToggleLocked => {
            n.locked = !n.locked;
        },
    }
    n
}

/// Makes the change `c` to the first node with each of the identifiers `ids`.
pub fn edit_nodes(doc: &mut FlowchartDocument, ids: &Vec<NodeId>, c: &NodeChange)
    ensures
        edited(old(doc).nodes@, final(doc).nodes@, ids@, *c),
        final(doc).edges@ == old(doc).edges@,
{
    let ghost before = doc.nodes@;
    let mut i: usize = 0;
    while i < doc.nodes.len()
        invariant
            0 <= i <= doc.nodes@.len(),
            doc.nodes@.len() == before.len(),
            doc.edges@ == old(doc).edges@,
            before == old(doc).nodes@,
            forall|j: int| 0 <= j < before.len() ==> #[trigger] doc.nodes@[j].id == before[j].id,
            forall|j: int|
                0 <= j < before.len() ==> if j < i && targeted(before, ids@, j) {
                    changed(*c, before[j], #[trigger] doc.nodes@[j])
                } else {
                    doc.nodes@[j] == before[j]
                },
        decreases doc.nodes@.len() - i,
    {
        let hit = ids_contain(ids, doc.nodes[i].id) && is_first_with_id(&doc.nodes, i);
        proof {
            assert(first_with_id(doc.nodes@, i as int) == first_with_id(before, i as int)) by {
                assert forall|j: int| 0 <= j < i implies (doc.nodes@[j].id == doc.nodes@[i as int].id) == (before[j].id == before[i as int].id) by {
                    assert(doc.nodes@[j].id == before[j].id);
                    assert(doc.nodes@[i as int].id == before[i as int].id);
                }
            }
            assert(doc.nodes@[i as int] == before[i as int]);
        }
        if hit {
            let mut taken = Node::new(0, NodeKind::Text, String::new());
            std::mem::swap(&mut doc.nodes[i], &mut taken);
            let updated = change_one(taken, c);
            put_node(&mut doc.nodes, i, updated);
            proof {
                assert(doc.nodes@[i as int].id == before[i as int].id);
            }
        }
        i = i + 1;
    }
}

/// Whether the first node with identifier `id` exists and is highlighted.
pub open spec fn highlighted_node(nodes: Seq<Node>, id: NodeId) -> bool {
    exists|i: int| 0 <= i < nodes.len() && #[trigger] nodes[i].id == id && first_with_id(nodes, i) && nodes[i].highlight
}

/// Whether every identifier of `ids` names a node, and the first node with it is
/// highlighted.
pub open spec fn all_highlighted(nodes: Seq<Node>, ids: Seq<NodeId>) -> bool {
    forall|k: int| 0 <= k < ids.len() ==> highlighted_node(nodes, #[trigger] ids[k])
}

/// Highlights the nodes with the given identifiers, or removes their highlight when all of
/// them are highlighted already; returns the highlight they now have.
pub fn toggle_highlight(doc: &mut FlowchartDocument, ids: &Vec<NodeId>) -> (on: bool)
    ensures
        on == !all_highlighted(old(doc).nodes@, ids@),
        edited(old(doc).nodes@, final(doc).nodes@, ids@, NodeChange::Highlight(on)),
        final(doc).edges@ == old(doc).edges@,
{
    let mut all = true;
    let mut k: usize = 0;
    while k < ids.len()
        invariant
            0 <= k <= ids@.len(),
            all == all_highlighted(doc.nodes@, ids@.take(k as int)),
        decreases ids@.len() - k,
    {
        let ghost pre = ids@.take(k as int);
        let ghost next = ids@.take(k + 1);
        assert(next =~= pre.push(ids@[k as int]));
        let id = ids[k];
        let found = find_node_index(&doc.nodes, id);
        let here = match found {
            Some(i) => doc.nodes[i].highlight,
            None => false,
        };
        proof {
            match found {
                Some(i) => {
                    if highlighted_node(doc.nodes@, id) {
                        let w = choose|w: int| 0 <= w < doc.nodes@.len() && #[trigger] doc.nodes@[w].id == id
                            && first_with_id(doc.nodes@, w) && doc.nodes@[w].highlight;
                        if w > i {
                            assert(doc.nodes@[i as int].id == doc.nodes@[w].id);
                        }
                    }
                    if here {
                        assert(doc.nodes@[i as int].id == id);
                    }
                },
                None => {},
            }
            assert(highlighted_node(doc.nodes@, id) == here);
            assert(all_highlighted(doc.nodes@, next) == (all_highlighted(doc.nodes@, pre) && here)) by {
                if all_highlighted(doc.nodes@, pre) && here {
                    assert forall|t: int| 0 <= t < next.len() implies highlighted_node(doc.nodes@, #[trigger] next[t]) by {
                        if t < k {
                            assert(next[t] == pre[t]);
                        }
                    }
                }
                if all_highlighted(doc.nodes@, next) {
                    assert(highlighted_node(doc.nodes@, next[k as int]));
                    assert forall|t: int| 0 <= t < pre.len() implies highlighted_node(doc.nodes@, #[trigger] pre[t]) by {
                        assert(next[t] == pre[t]);
                    }
                }
            }
        }
        all = all && here;
        k = k + 1;
    }
    assert(ids@.take(ids@.len() as int) =~= ids@);
    let on = !all;
    edit_nodes(doc, ids, &NodeChange::Highlight(on));
    on
}

/// The sublabel that names `name` as a node's owner: `👤 ` and the name.
pub fn owner_sublabel(name: &str) -> (s: String)
    ensures
        s@ == "\u{1f464} "@ + name@,
{
    let mut s = String::new();
    push_all(&mut s, "\u{1f464} ");
    push_all(&mut s, name);
    s
}

/// The sublabel that gives `date` as a node's due date: `📅 ` and the date.
pub fn due_sublabel(date: &str) -> (s: String)
    ensures
        s@ == "\u{1f4c5} "@ + date@,
{
    let mut s = String::new();
    push_all(&mut s, "\u{1f4c5} ");
    push_all(&mut s, date);
    s
}

/// The priority levels a multi-selection can be given.
#[derive(Debug, Clone, Copy, PartialEq, Eq, Structural)]
pub enum Priority {
    /// Critical: the system is down or work is blocked.
    P1,
    /// High: a major feature is broken.
    P2,
    /// Medium: a degraded experience.
    P3,
    /// Low: cosmetic, or a question.
    P4,
}

/// The status tag and fill colour of a priority level.
pub open spec fn priority_look(p: Priority) -> (Option<NodeTag>, [u8; 4]) {
    match p {
        Priority::P1 => (Some(NodeTag::Critical), [243u8, 139, 168, 255]),
        Priority::P2 => (Some(NodeTag::Warning), [250u8, 179, 135, 255]),
        Priority::P3 => (Some(NodeTag::Info), [137u8, 180, 250, 255]),
        Priority::P4 => (None, [166u8, 227, 161, 255]),
    }
}

/// The change that gives a node the priority level `p`: its tag, its colour, and the text
/// colour that the theme's `contrast` rule gives for that colour.
pub fn priority_change<F: Fn([u8; 4]) -> [u8; 4]>(p: Priority, contrast: F) -> (c: NodeChange)
    requires
        forall|fill: [u8; 4]| contrast.requires((fill,)),
    ensures
        c matches NodeChange::TagAndFill(t, f, x) && t == priority_look(p).0 && f == priority_look(p).1
            && contrast.ensures((f,), x),
{
    let (tag, fill): (Option<NodeTag>, [u8; 4]) = match p {
        Priority::P1 => (Some(NodeTag::Critical), [243, 139, 168, 255]),
        Priority::P2 => (Some(NodeTag::Warning), [250, 179, 135, 255]),
        Priority::P3 => (Some(NodeTag::Info), [137, 180, 250, 255]),
        Priority::P4 => (None, [166, 227, 161, 255]),
    };
    let text = contrast(fill);
    NodeChange::TagAndFill(tag, fill, text)
}

/// The word that searches for priority level `p`: `p1` to `p4`.
pub open spec fn priority_word(p: Priority) -> Seq<char> {
    match p {
        Priority::P1 => "p1"@,
        Priority::P2 => "p2"@,
        Priority::P3 => "p3"@,
        Priority::P4 => "p4"@,
    }
}

/// The tag a priority level gives a node is the one its search finds: a node tagged as
/// level `p` sets it matches `priority:` with `p`'s word and with no other level's word.
/// So distinct levels give distinct tags; P1 marks blocked, P2 to do, P3 in progress and
/// P4 no tag.
pub proof fn law_priority_tag_is_searchable(p: Priority, other: Priority, n: Node)
    requires
        n.tag == priority_look(p).0,
    ensures
        priority_matches(n, priority_word(p)),
        other != p ==> !priority_matches(n, priority_word(other)),
        other != p ==> priority_look(other).0 != priority_look(p).0,
        priority_look(Priority::P1).0 == Some(NodeTag::Critical),
        priority_look(Priority::P2).0 == Some(NodeTag::Warning),
        priority_look(Priority::P3).0 == Some(NodeTag::Info),
        priority_look(Priority::P4).0 == None::<NodeTag>,
{
    reveal_strlit("p1");
    reveal_strlit("p2");
    reveal_strlit("p3");
    reveal_strlit("p4");
    reveal_strlit("1");
    reveal_strlit("2");
    reveal_strlit("3");
    reveal_strlit("critical");
    reveal_strlit("high");
    reveal_strlit("medium");
    reveal_strlit("4");
    reveal_strlit("low");
    let ws = seq!["p1"@, "p2"@, "p3"@, "p4"@];
    let others = seq!["1"@, "2"@, "3"@, "4"@, "critical"@, "high"@, "medium"@, "low"@];
    assert forall|a: int, b: int| 0 <= a < 4 && 0 <= b < 4 && a != b implies #[trigger] ws[a] != #[trigger] ws[b] by {
        assert(ws[a][1] != ws[b][1]);
    }
    assert forall|a: int, b: int| 0 <= a < 4 && 0 <= b < 8 implies #[trigger] ws[a] != #[trigger] others[b] by {
        if others[b].len() == 2 {
            assert(ws[a][0] != others[b][0]);
        }
    }
    assert(ws[0] == "p1"@ && ws[1] == "p2"@ && ws[2] == "p3"@ && ws[3] == "p4"@);
    assert(others[0] == "1"@ && others[1] == "2"@ && others[2] == "3"@ && others[3] == "4"@);
    assert(others[4] == "critical"@ && others[5] == "high"@ && others[6] == "medium"@ && others[7] == "low"@);
}

/// The style that copying the style of node `id` takes up, as the change that pasting it
/// makes: the fill and text colours of the first node with that identifier; none when the
/// document has no such node.
pub fn copy_style(doc: &FlowchartDocument, id: NodeId) -> (c: Option<NodeChange>)
    ensures
        match c {
            Some(ch) => exists|i: int|
                0 <= i < doc.nodes@.len() && #[trigger] doc.nodes@[i].id == id && first_with_id(doc.nodes@, i)
                    && ch == NodeChange::FillAndText(doc.nodes@[i].fill_color, doc.nodes@[i].text_color),
            None => !doc.has_node(id),
        },
{
    match find_node_index(&doc.nodes, id) {
        Some(i) => Some(NodeChange::FillAndText(doc.nodes[i].fill_color, doc.nodes[i].text_color)),
        None => None,
    }
}

/// The section a node is moved to when `section` is picked from its menu: none when it is
/// in that section already, else that section.
pub open spec fn picked_section(current: Seq<char>, section: Seq<char>) -> Seq<char> {
    if current == section {
        Seq::empty()
    } else {
        section
    }
}

/// Moves the node `id` to `section`, or out of it when it is there already.
pub fn toggle_section(doc: &mut FlowchartDocument, id: NodeId, section: &str)
    ensures
        final(doc).edges@ == old(doc).edges@,
        final(doc).nodes@.len() == old(doc).nodes@.len(),
        forall|i: int|
            0 <= i < old(doc).nodes@.len() ==> if old(doc).nodes@[i].id == id && first_with_id(old(doc).nodes@, i) {
                (#[trigger] final(doc).nodes@[i]).section_name@ == picked_section(old(doc).nodes@[i].section_name@, section@)
                    && final(doc).nodes@[i] == Node { section_name: final(doc).nodes@[i].section_name, ..old(doc).nodes@[i] }
            } else {
                final(doc).nodes@[i] == old(doc).nodes@[i]
            },
{
    let ids = vec![id];
    assert(ids@ == seq![id]);
    match find_node_index(&doc.nodes, id) {
        Some(i) => {
            let target = if str_eq(doc.nodes[i].section_name.as_str(), section) {
                String::new()
            } else {
                section.to_string()
            };
            let ghost c = NodeChange::Section(target);
            edit_nodes(doc, &ids, &NodeChange::Section(target));
            proof {
                assert forall|j: int| 0 <= j < old(doc).nodes@.len() && old(doc).nodes@[j].id == id && first_with_id(old(doc).nodes@, j) implies j == i by {
                    if j < i {
                    } else if j > i {
                        assert(old(doc).nodes@[i as int].id == old(doc).nodes@[j].id);
                    }
                }
                assert forall|j: int| 0 <= j < old(doc).nodes@.len() implies targeted(old(doc).nodes@, ids@, j) == (old(doc).nodes@[j].id == id && first_with_id(old(doc).nodes@, j)) by {
                    assert(ids@.contains(old(doc).nodes@[j].id) == (old(doc).nodes@[j].id == id)) by {
                        if old(doc).nodes@[j].id == id {
                            assert(ids@[0] == id);
                        }
                    }
                }
            }
        },
        None => {},
    }
}

/// The nodes in drawing order after the first node with identifier `id` is brought to the
/// front (drawn last); unchanged when no node has it.
pub open spec fn brought_to_front(nodes: Seq<Node>, id: NodeId) -> Seq<Node> {
    if exists|i: int| 0 <= i < nodes.len() && #[trigger] nodes[i].id == id {
        let i = choose|i: int| 0 <= i < nodes.len() && nodes[i].id == id && first_with_id(nodes, i);
        nodes.remove(i).push(nodes[i])
    } else {
        nodes
    }
}

/// The nodes in drawing order after the first node with identifier `id` is sent to the back
/// (drawn first); unchanged when no node has it.
pub open spec fn sent_to_back(nodes: Seq<Node>, id: NodeId) -> Seq<Node> {
    if exists|i: int| 0 <= i < nodes.len() && #[trigger] nodes[i].id == id {
        let i = choose|i: int| 0 <= i < nodes.len() && nodes[i].id == id && first_with_id(nodes, i);
        nodes.remove(i).insert(0, nodes[i])
    } else {
        nodes
    }
}

/// The first node with a given identifier is the only one.
pub proof fn lemma_first_unique(nodes: Seq<Node>, id: NodeId, i: int, j: int)
    requires
        0 <= i < nodes.len(),
        0 <= j < nodes.len(),
        nodes[i].id == id,
        nodes[j].id == id,
        first_with_id(nodes, i),
        first_with_id(nodes, j),
    ensures
        i == j,
{
    if i < j {
        assert(nodes[i].id == nodes[j].id);
    } else if j < i {
        assert(nodes[j].id == nodes[i].id);
    }
}

/// Moves the first node with identifier `id` to the end of the drawing order, so that it is
/// drawn over every other node.
pub fn bring_to_front(doc: &mut FlowchartDocument, id: NodeId)
    ensures
        final(doc).nodes@ == brought_to_front(old(doc).nodes@, id),
        final(doc).edges@ == old(doc).edges@,
{
    match find_node_index(&doc.nodes, id) {
        Some(i) => {
            proof {
                let w = choose|w: int| 0 <= w < doc.nodes@.len() && doc.nodes@[w].id == id && first_with_id(doc.nodes@, w);
                lemma_first_unique(doc.nodes@, id, i as int, w);
            }
            let n = doc.nodes.remove(i);
            doc.nodes.push(n);
        },
        None => {},
    }
}

/// Moves the first node with identifier `id` to the start of the drawing order, so that
/// every other node is drawn over it.
pub fn send_to_back(doc: &mut FlowchartDocument, id: NodeId)
    ensures
        final(doc).nodes@ == sent_to_back(old(doc).nodes@, id),
        final(doc).edges@ == old(doc).edges@,
{
    match find_node_index(&doc.nodes, id) {
        Some(i) => {
            proof {
                let w = choose|w: int| 0 <= w < doc.nodes@.len() && doc.nodes@[w].id == id && first_with_id(doc.nodes@, w);
                lemma_first_unique(doc.nodes@, id, i as int, w);
            }
            let n = doc.nodes.remove(i);
            doc.nodes.insert(0, n);
        },
        None => {},
    }
}

/// Bringing a node to the front or sending it to the back only reorders the nodes: the
/// document holds the same nodes as many times each.
pub proof fn law_reordering_keeps_nodes(nodes: Seq<Node>, id: NodeId)
    ensures
        brought_to_front(nodes, id).to_multiset() == nodes.to_multiset(),
        sent_to_back(nodes, id).to_multiset() == nodes.to_multiset(),
{
    broadcast use vstd::seq_lib::group_to_multiset_ensures;
    if exists|i: int| 0 <= i < nodes.len() && #[trigger] nodes[i].id == id {
        let w = choose|w: int| 0 <= w < nodes.len() && #[trigger] nodes[w].id == id;
        lemma_first_exists(nodes, id, w);
        let i = choose|i: int| 0 <= i < nodes.len() && nodes[i].id == id && first_with_id(nodes, i);
        let rest = nodes.remove(i);
        assert(rest.push(nodes[i]).to_multiset() =~= nodes.to_multiset());
        assert(rest.insert(0, nodes[i]).to_multiset() =~= nodes.to_multiset());
    }
}

/// After a node is brought to the front it is the last node drawn, and after it is sent to
/// the back it is the first.
pub proof fn law_reordered_node_position(nodes: Seq<Node>, id: NodeId, k: int)
    requires
        0 <= k < nodes.len(),
        nodes[k].id == id,
    ensures
        brought_to_front(nodes, id).last().id == id,
        sent_to_back(nodes, id)[0].id == id,
        brought_to_front(nodes, id).len() == nodes.len(),
        sent_to_back(nodes, id).len() == nodes.len(),
{
    lemma_first_exists(nodes, id, k);
}

/// When some node has identifier `id`, some node is the first with it.
proof fn lemma_first_exists(nodes: Seq<Node>, id: NodeId, k: int)
    requires
        0 <= k < nodes.len(),
        nodes[k].id == id,
    ensures
        exists|i: int| 0 <= i < nodes.len() && nodes[i].id == id && first_with_id(nodes, i),
    decreases k,
{
    if !first_with_id(nodes, k) {
        let j = choose|j: int| 0 <= j < k && nodes[j].id == nodes[k].id;
        lemma_first_exists(nodes, id, j);
    }
}

/// Whether the first node with identifier `id` exists and is locked.
pub open spec fn locked_node(nodes: Seq<Node>, id: NodeId) -> bool {
    exists|i: int| 0 <= i < nodes.len() && #[trigger] nodes[i].id == id && first_with_id(nodes, i) && nodes[i].locked
}

/// The identifiers of `ids` that a deletion removes: all but those of locked nodes, in order.
pub open spec fn unlocked_ids(nodes: Seq<Node>, ids: Seq<NodeId>) -> Seq<NodeId>
    decreases ids.len(),
{
    if ids.len() == 0 {
        Seq::empty()
    } else {
        let r = unlocked_ids(nodes, ids.drop_last());
        if locked_node(nodes, ids.last()) {
            r
        } else {
            r.push(ids.last())
        }
    }
}

/// The identifiers of `ids` that a deletion removes: all but those of locked nodes.
pub fn deletable(doc: &FlowchartDocument, ids: &Vec<NodeId>) -> (r: Vec<NodeId>)
    ensures
        r@ == unlocked_ids(doc.nodes@, ids@),
{
    let mut r: Vec<NodeId> = Vec::new();
    let mut k: usize = 0;
    while k < ids.len()
        invariant
            0 <= k <= ids@.len(),
            r@ == unlocked_ids(doc.nodes@, ids@.take(k as int)),
        decreases ids@.len() - k,
    {
        proof {
            let pre = ids@.take(k + 1);
            assert(pre.drop_last() =~= ids@.take(k as int));
            assert(pre.last() == ids@[k as int]);
        }
        let id = ids[k];
        let found = find_node_index(&doc.nodes, id);
        let locked = match found {
            Some(i) => doc.nodes[i].locked,
            None => false,
        };
        proof {
            match found {
                Some(i) => {
                    if locked_node(doc.nodes@, id) {
                        let w = choose|w: int| 0 <= w < doc.nodes@.len() && #[trigger] doc.nodes@[w].id == id
                            && first_with_id(doc.nodes@, w) && doc.nodes@[w].locked;
                        lemma_first_unique(doc.nodes@, id, i as int, w);
                    }
                    if locked {
                        assert(doc.nodes@[i as int].id == id);
                    }
                },
                None => {},
            }
        }
        if !locked {
            r.push(id);
        }
        k = k + 1;
    }
    assert(ids@.take(ids@.len() as int) =~= ids@);
    r
}

/// The colours that randomizing hands out, in turn.
pub open spec fn random_palette() -> Seq<[u8; 4]> {
    seq![
        [137u8, 180, 250, 255], [166u8, 227, 161, 255], [243u8, 139, 168, 255], [249u8, 226, 175, 255],
        [203u8, 166, 247, 255], [148u8, 226, 213, 255], [250u8, 179, 135, 255], [245u8, 194, 231, 255],
        [180u8, 190, 254, 255], [116u8, 199, 236, 255],
    ]
}

/// The colour handed to the `k`-th identifier.
fn palette_color(k: usize) -> (c: [u8; 4])
    ensures
        c == random_palette()[(k % 10) as int],
{
    let colors: [[u8; 4]; 10] = [
        [137, 180, 250, 255], [166, 227, 161, 255], [243, 139, 168, 255], [249, 226, 175, 255],
        [203, 166, 247, 255], [148, 226, 213, 255], [250, 179, 135, 255], [245, 194, 231, 255],
        [180, 190, 254, 255], [116, 199, 236, 255],
    ];
    assert(colors@ =~= random_palette());
    colors[k % 10]
}

/// Whether `after` is `before` filled with `fill`, its text in the colour `contrast` picks
/// for that fill.
pub open spec fn recolored<F: Fn([u8; 4]) -> [u8; 4]>(before: Node, after: Node, fill: [u8; 4], contrast: F) -> bool {
    after == Node { fill_color: fill, text_color: after.text_color, ..before } && contrast.ensures((fill,), after.text_color)
}

/// Whether `after` is `before` with the first node with each identifier of `ids` given a
/// colour of the palette, the `k`-th identifier the colour `k` modulo the palette's size,
/// with text in the colour `contrast` picks for it, and every other node unchanged.
pub open spec fn randomized<F: Fn([u8; 4]) -> [u8; 4]>(before: Seq<Node>, after: Seq<Node>, ids: Seq<NodeId>, contrast: F) -> bool {
    &&& after.len() == before.len()
    &&& forall|j: int|
        0 <= j < before.len() ==> if targeted(before, ids, j) {
            exists|k: int|
                0 <= k < ids.len() && ids[k] == before[j].id && recolored(before[j], #[trigger] after[j], random_palette()[k % 10], contrast)
        } else {
            after[j] == before[j]
        }
}

/// Gives the first node with each identifier of `ids` a colour of the palette, the `k`-th
/// identifier the colour `k` modulo the palette's size, with text in the colour `contrast`
/// picks for it.
pub fn randomize_colors<F: Fn([u8; 4]) -> [u8; 4]>(doc: &mut FlowchartDocument, ids: &Vec<NodeId>, contrast: F)
    requires
        ids@.no_duplicates(),
        forall|c: [u8; 4]| contrast.requires((c,)),
    ensures
        final(doc).edges@ == old(doc).edges@,
        randomized(old(doc).nodes@, final(doc).nodes@, ids@, contrast),
{
    let ghost before = doc.nodes@;
    let mut k: usize = 0;
    while k < ids.len()
        invariant
            0 <= k <= ids@.len(),
            ids@.no_duplicates(),
            forall|c: [u8; 4]| contrast.requires((c,)),
            doc.nodes@.len() == before.len(),
            before == old(doc).nodes@,
            doc.edges@ == old(doc).edges@,
            forall|j: int| 0 <= j < before.len() ==> #[trigger] doc.nodes@[j].id == before[j].id,
            forall|j: int|
                0 <= j < before.len() ==> if targeted(before, ids@.take(k as int), j) {
                    exists|t: int|
                        0 <= t < k && ids@[t] == before[j].id && recolored(before[j], #[trigger] doc.nodes@[j], random_palette()[t % 10], contrast)
                } else {
                    doc.nodes@[j] == before[j]
                },
        decreases ids@.len() - k,
    {
        let id = ids[k];
        let found = find_node_index(&doc.nodes, id);
        proof {
            assert(ids@.take(k + 1) =~= ids@.take(k as int).push(id));
            assert(!ids@.take(k as int).contains(id)) by {
                if ids@.take(k as int).contains(id) {
                    let t = choose|t: int| 0 <= t < k && ids@.take(k as int)[t] == id;
                    assert(ids@[t] == ids@[k as int]);
                }
            }
            assert forall|j: int| 0 <= j < before.len() implies #[trigger] first_with_id(doc.nodes@, j) == first_with_id(before, j) by {
                assert forall|t: int| 0 <= t < j implies (doc.nodes@[t].id == doc.nodes@[j].id) == (before[t].id == before[j].id) by {
                    assert(doc.nodes@[t].id == before[t].id);
                    assert(doc.nodes@[j].id == before[j].id);
                }
            }
        }
        match found {
            Some(i) => {
                let color = palette_color(k);
                let ghost prev = doc.nodes@;
                let mut taken = Node::new(0, NodeKind::Text, String::new());
                std::mem::swap(&mut doc.nodes[i], &mut taken);
                taken.fill_color = color;
                taken.text_color = contrast(color);
                doc.nodes.set(i, taken);
                proof {
                    assert(prev[i as int] == before[i as int]) by {
                        if targeted(before, ids@.take(k as int), i as int) {
                            assert(ids@.take(k as int).contains(before[i as int].id));
                        }
                    }
                    assert forall|j: int| 0 <= j < before.len() implies if targeted(before, ids@.take(k + 1), j) {
                        exists|t: int|
                            0 <= t < k + 1 && ids@[t] == before[j].id && recolored(before[j], #[trigger] doc.nodes@[j], random_palette()[t % 10], contrast)
                    } else {
                        doc.nodes@[j] == before[j]
                    } by {
                        if j == i {
                            assert(ids@[k as int] == before[j].id);
                            assert(ids@.take(k + 1).contains(before[j].id)) by {
                                assert(ids@.take(k + 1)[k as int] == id);
                            }
                        } else {
                            assert(doc.nodes@[j] == prev[j]);
                            if targeted(before, ids@.take(k + 1), j) && !targeted(before, ids@.take(k as int), j) {
                                assert(before[j].id == id);
                                lemma_first_unique(before, id, i as int, j);
                            }
                            if targeted(before, ids@.take(k as int), j) {
                                let t = choose|t: int|
                                    0 <= t < k && ids@[t] == before[j].id && recolored(before[j], #[trigger] prev[j], random_palette()[t % 10], contrast);
                                assert(ids@.take(k + 1).contains(before[j].id)) by {
                                    assert(ids@.take(k + 1)[t] == before[j].id);
                                }
                            }
                        }
                    }
                }
            },
            None => {
                proof {
                    assert forall|j: int| 0 <= j < before.len() implies targeted(before, ids@.take(k + 1), j) == targeted(before, ids@.take(k as int), j) by {
                        if ids@.take(k + 1).contains(before[j].id) && !ids@.take(k as int).contains(before[j].id) {
                            assert(before[j].id == id);
                            assert(doc.nodes@[j].id == id);
                        }
                        if ids@.take(k as int).contains(before[j].id) {
                            let t = choose|t: int| 0 <= t < k && ids@.take(k as int)[t] == before[j].id;
                            assert(ids@.take(k + 1)[t] == before[j].id);
                        }
                    }
                }
            },
        }
        k = k + 1;
    }
    assert(ids@.take(ids@.len() as int) =~= ids@);
}

/// The name a section rename commits: the edited text trimmed, or `None` when that is blank
/// or the old name.
pub open spec fn renamed_to(old: Seq<char>, edited: Seq<char>) -> Option<Seq<char>> {
    if trim(edited).len() > 0 && trim(edited) != old {
        Some(trim(edited))
    } else {
        None
    }
}

/// The sections of the nodes after every node in section `from` moves to section `to`.
pub open spec fn sections_renamed(sections: Seq<Seq<char>>, from: Seq<char>, to: Seq<char>) -> Seq<Seq<char>> {
    sections.map_values(|s: Seq<char>| if s == from { to } else { s })
}

/// The sections of the nodes, in order.
pub open spec fn node_sections(nodes: Seq<Node>) -> Seq<Seq<char>> {
    nodes.map_values(|n: Node| n.section_name@)
}

/// Commits the rename of section `current` to the text `edited`: when the trimmed text is not
/// blank and differs from `current`, every node in `current` moves to it and the status message is
/// returned; otherwise nothing changes.
pub fn rename_section(doc: &mut FlowchartDocument, current: &str, edited: &str) -> (msg: Option<String>)
    ensures
        final(doc).edges@ == old(doc).edges@,
        match renamed_to(current@, edited@) {
            Some(t) => {
                &&& msg is Some
                &&& msg.unwrap()@ == "Section renamed to \""@ + t + "\""@
                &&& final(doc).nodes@.len() == old(doc).nodes@.len()
                &&& forall|i: int|
                    0 <= i < old(doc).nodes@.len() ==> if old(doc).nodes@[i].section_name@ == current@ {
                        (#[trigger] final(doc).nodes@[i]).section_name@ == t && final(doc).nodes@[i] == Node {
                            section_name: final(doc).nodes@[i].section_name,
                            ..old(doc).nodes@[i]
                        }
                    } else {
                        final(doc).nodes@[i] == old(doc).nodes@[i]
                    }
            },
            None => msg is None && final(doc).nodes@ == old(doc).nodes@,
        },
{
    let name = trimmed(&chars_of(edited));
    if name.as_str().is_empty() || str_eq(name.as_str(), current) {
        return None;
    }
    let ghost before = doc.nodes@;
    let mut i: usize = 0;
    while i < doc.nodes.len()
        invariant
            0 <= i <= doc.nodes@.len(),
            doc.nodes@.len() == before.len(),
            before == old(doc).nodes@,
            doc.edges@ == old(doc).edges@,
            name@ == trim(edited@),
            forall|j: int|
                0 <= j < before.len() ==> if j < i && before[j].section_name@ == current@ {
                    (#[trigger] doc.nodes@[j]).section_name@ == name@ && doc.nodes@[j] == Node {
                        section_name: doc.nodes@[j].section_name,
                        ..before[j]
                    }
                } else {
                    doc.nodes@[j] == before[j]
                },
        decreases doc.nodes@.len() - i,
    {
        if str_eq(doc.nodes[i].section_name.as_str(), current) {
            let mut taken = Node::new(0, NodeKind::Text, String::new());
            std::mem::swap(&mut doc.nodes[i], &mut taken);
            taken.section_name = name.clone();
            doc.nodes.set(i, taken);
        }
        i = i + 1;
    }
    let mut msg = String::new();
    push_all(&mut msg, "Section renamed to \"");
    push_all(&mut msg, name.as_str());
    push_all(&mut msg, "\"");
    Some(msg)
}

/// Renaming a section and then renaming the new name back restores every node's section,
/// when no node was in the new section before.
pub proof fn law_rename_back(sections: Seq<Seq<char>>, from: Seq<char>, to: Seq<char>)
    requires
        !sections.contains(to),
    ensures
        sections_renamed(sections_renamed(sections, from, to), to, from) == sections,
{
    let once = sections_renamed(sections, from, to);
    let twice = sections_renamed(once, to, from);
    assert forall|i: int| 0 <= i < sections.len() implies twice[i] == sections[i] by {
        if sections[i] != from {
            assert(sections[i] != to);
        }
    }
    assert(twice =~= sections);
}

/// A rename moves exactly the nodes of the old section: the nodes' sections afterwards are
/// their sections before with the old name replaced by the new one.
pub proof fn law_rename_moves_section(before: Seq<Node>, after: Seq<Node>, from: Seq<char>, to: Seq<char>)
    requires
        after.len() == before.len(),
        forall|i: int|
            0 <= i < before.len() ==> if before[i].section_name@ == from {
                (#[trigger] after[i]).section_name@ == to
            } else {
                after[i] == before[i]
            },
    ensures
        node_sections(after) == sections_renamed(node_sections(before), from, to),
{
    assert forall|i: int| 0 <= i < before.len() implies node_sections(after)[i] == sections_renamed(node_sections(before), from, to)[i] by {
        assert(after[i] == after[i]);
    }
    assert(node_sections(after) =~= sections_renamed(node_sections(before), from, to));
}

/// Pinning or locking the same nodes twice, or toggling the same section on a node twice,
/// gives back what there was: the second edit undoes the first.
pub proof fn law_toggle_nodes_twice(a: Seq<Node>, b: Seq<Node>, c: Seq<Node>, ids: Seq<NodeId>, t: NodeChange)
    requires
        t is TogglePinned || t is ToggleLocked,
        edited(a, b, ids, t),
        edited(b, c, ids, t),
    ensures
        c == a,
{
    assert forall|i: int| 0 <= i < a.len() implies #[trigger] b[i].id == a[i].id by {
        if targeted(a, ids, i) {
            assert(changed(t, a[i], b[i]));
        }
    }
    assert forall|i: int| 0 <= i < a.len() implies targeted(b, ids, i) == targeted(a, ids, i) by {
        assert forall|j: int| 0 <= j < i implies (b[j].id == b[i].id) == (a[j].id == a[i].id) by {
            assert(b[j].id == a[j].id);
            assert(b[i].id == a[i].id);
        }
        assert(b[i].id == a[i].id);
    }
    assert forall|i: int| 0 <= i < a.len() implies c[i] == a[i] by {
        if targeted(a, ids, i) {
            assert(targeted(b, ids, i));
            assert(changed(t, a[i], b[i]));
            assert(changed(t, b[i], c[i]));
        } else {
            assert(!targeted(b, ids, i));
        }
    }
    assert(c =~= a);
}

/// Picking the same section twice from a node's menu gives back the node's section, when
/// the node was in that section or in none.
pub proof fn law_pick_section_twice(current: Seq<char>, section: Seq<char>)
    requires
        section.len() > 0,
        current == section || current.len() == 0,
    ensures
        picked_section(picked_section(current, section), section) == current,
{
}

} // verus!
