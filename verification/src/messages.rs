//! Status-bar messages: numbers in decimal and the diagram summary.
use vstd::prelude::*;
use crate::model::{FlowchartDocument, Node, NodeTag};
use crate::selection::DiagramStats;
use crate::text::push_all;

verus! {

/// The decimal digit for `d` (below 10).
pub open spec fn digit_char(d: nat) -> char {
    (('0' as u32) + d) as char
}

/// The decimal numeral of `n`, without leading zeros.
pub open spec fn decimal(n: nat) -> Seq<char>
    decreases n,
{
    if n < 10 {
        seq![digit_char(n)]
    } else {
        decimal(n / 10).push(digit_char(n % 10))
    }
}

/// The decimal numeral of `n`, as `format!("{}", n)` writes it.
pub fn decimal_string(n: usize) -> (s: String)
    ensures
        s@ == decimal(n as nat),
{
    // Digits from least significant, then reversed.
    let mut digits: Vec<char> = Vec::new();
    let mut m = n;
    loop
        invariant
            decimal(n as nat) == decimal(m as nat) + digits@.reverse(),
        ensures
            m < 10,
            decimal(n as nat) == decimal(m as nat) + digits@.reverse(),
        decreases m,
    {
        if m < 10 {
            break;
        }
        let d = m % 10;
        let c = match d {
            0 => '0',
            1 => '1',
            2 => '2',
            3 => '3',
            4 => '4',
            5 => '5',
            6 => '6',
            7 => '7',
            8 => '8',
            _ => '9',
        };
        assert(c == digit_char(d as nat));
        let ghost before = digits@;
        digits.push(c);
        proof {
            assert(digits@.reverse() =~= seq![c] + before.reverse());
            assert(decimal(m as nat) == decimal((m / 10) as nat).push(c));
            assert(decimal((m / 10) as nat).push(c) + before.reverse() =~= decimal((m / 10) as nat) + (seq![c] + before.reverse()));
        }
        m = m / 10;
    }
    let first = match m {
        0 => '0',
        1 => '1',
        2 => '2',
        3 => '3',
        4 => '4',
        5 => '5',
        6 => '6',
        7 => '7',
        8 => '8',
        _ => '9',
    };
    assert(first == digit_char(m as nat));
    let mut s = String::new();
    s.push(first);
    let mut i = digits.len();
    while i > 0
        invariant
            0 <= i <= digits@.len(),
            s@ + digits@.subrange(0, i as int).reverse() == decimal(n as nat),
        decreases i,
    {
        i = i - 1;
        let ghost before = s@;
        s.push(digits[i]);
        proof {
            assert(digits@.subrange(0, i + 1).reverse() =~= seq![digits@[i as int]] + digits@.subrange(0, i as int).reverse());
            assert(before.push(digits@[i as int]) + digits@.subrange(0, i as int).reverse() =~= before + (seq![digits@[i as int]] + digits@.subrange(0, i as int).reverse()));
        }
    }
    assert(digits@.subrange(0, 0).reverse() =~= Seq::<char>::empty());
    assert(s@ + Seq::<char>::empty() =~= s@);
    s
}

/// The summary the palette's stats action shows: node and edge counts, then the counts of
/// frames, sections and unconnected nodes, each only when not zero.
pub open spec fn stats_message_spec(st: DiagramStats) -> Seq<char> {
    decimal(st.nodes as nat) + " nodes, "@ + decimal(st.edges as nat) + " edges"@
        + (if st.frames > 0 { ", "@ + decimal(st.frames as nat) + " frames"@ } else { Seq::empty() })
        + (if st.sections > 0 { ", "@ + decimal(st.sections as nat) + " sections"@ } else { Seq::empty() })
        + (if st.unconnected > 0 { ", "@ + decimal(st.unconnected as nat) + " unconnected"@ } else { Seq::empty() })
}

/// The status message for the diagram summary, such as `5 nodes, 2 edges, 1 sections`.
pub fn stats_message(st: &DiagramStats) -> (msg: String)
    ensures
        msg@ == stats_message_spec(*st),
{
    let mut msg = decimal_string(st.nodes);
    push_all(&mut msg, " nodes, ");
    push_all(&mut msg, decimal_string(st.edges).as_str());
    push_all(&mut msg, " edges");
    let ghost base = msg@;
    if st.frames > 0 {
        push_all(&mut msg, ", ");
        push_all(&mut msg, decimal_string(st.frames).as_str());
        push_all(&mut msg, " frames");
    }
    let ghost with_frames = msg@;
    if st.sections > 0 {
        push_all(&mut msg, ", ");
        push_all(&mut msg, decimal_string(st.sections).as_str());
        push_all(&mut msg, " sections");
    }
    let ghost with_sections = msg@;
    if st.unconnected > 0 {
        push_all(&mut msg, ", ");
        push_all(&mut msg, decimal_string(st.unconnected).as_str());
        push_all(&mut msg, " unconnected");
    }
    assert(msg@ =~= stats_message_spec(*st));
    msg
}

/// A count and a noun, with an `s` unless the count is one: `1 node`, `3 nodes`.
pub open spec fn count_phrase_spec(n: nat, noun: Seq<char>) -> Seq<char> {
    decimal(n) + " "@ + noun + if n == 1 { Seq::empty() } else { "s"@ }
}

/// A count and a noun, with an `s` unless the count is one, as the status messages write them.
pub fn count_phrase(n: usize, noun: &str) -> (s: String)
    ensures
        s@ == count_phrase_spec(n as nat, noun@),
{
    let mut s = decimal_string(n);
    push_all(&mut s, " ");
    push_all(&mut s, noun);
    if n != 1 {
        push_all(&mut s, "s");
    }
    assert(s@ =~= count_phrase_spec(n as nat, noun@));
    s
}

/// The message after deleting `nodes` nodes and `edges` edges; none when nothing was
/// deleted.
pub open spec fn deleted_spec(nodes: nat, edges: nat) -> Option<Seq<char>> {
    if nodes == 0 && edges == 0 {
        None
    } else {
        let parts = if nodes > 0 && edges > 0 {
            count_phrase_spec(nodes, "node"@) + ", "@ + count_phrase_spec(edges, "edge"@)
        } else if nodes > 0 {
            count_phrase_spec(nodes, "node"@)
        } else {
            count_phrase_spec(edges, "edge"@)
        };
        Some("Deleted "@ + parts + " \u{2014} Cmd+Z to undo"@)
    }
}

/// The message after deleting `nodes` nodes and `edges` edges.
pub fn deleted_message(nodes: usize, edges: usize) -> (m: Option<String>)
    ensures
        match m {
            Some(t) => deleted_spec(nodes as nat, edges as nat) == Some(t@),
            None => deleted_spec(nodes as nat, edges as nat).is_none(),
        },
{
    if nodes == 0 && edges == 0 {
        return None;
    }
    let mut t = String::new();
    push_all(&mut t, "Deleted ");
    if nodes > 0 {
        push_all(&mut t, count_phrase(nodes, "node").as_str());
    }
    if nodes > 0 && edges > 0 {
        push_all(&mut t, ", ");
    }
    if edges > 0 {
        push_all(&mut t, count_phrase(edges, "edge").as_str());
    }
    push_all(&mut t, " \u{2014} Cmd+Z to undo");
    assert(Some(t@) =~= deleted_spec(nodes as nat, edges as nat));
    Some(t)
}

/// A selection made from the palette, for its status message.
#[derive(Debug, Clone, Copy, PartialEq, Eq, Structural)]
pub enum SelectionKind {
    /// New copies of the selected nodes.
    Duplicated,
    /// Every node that was not selected.
    Inverted,
    /// Every edge.
    AllEdges,
    /// The edges between selected nodes.
    EdgesBetween,
    /// The nodes without edges.
    Orphans,
}

/// The status message after a palette selection of `n` items; `none_selected` tells that no
/// node was selected before, which only matters for the edges between selected nodes.
pub open spec fn selection_spec(kind: SelectionKind, n: nat, none_selected: bool) -> Seq<char> {
    match kind {
        SelectionKind::Duplicated => "Duplicated "@ + count_phrase_spec(n, "node"@),
        SelectionKind::Inverted => "Selection inverted \u{2014} "@ + count_phrase_spec(n, "node"@) + " selected"@,
        SelectionKind::AllEdges => "Selected all "@ + count_phrase_spec(n, "edge"@),
        SelectionKind::EdgesBetween => if none_selected {
            "Select nodes first, then use this to select their edges"@
        } else if n == 0 {
            "No edges between selected nodes"@
        } else {
            "Selected "@ + count_phrase_spec(n, "edge"@) + " between nodes"@
        },
        SelectionKind::Orphans => if n == 0 {
            "All nodes are connected \u{2014} no orphans found"@
        } else {
            "Selected "@ + count_phrase_spec(n, "unconnected node"@)
        },
    }
}

/// The status message after a palette selection of `n` items.
pub fn selection_message(kind: SelectionKind, n: usize, none_selected: bool) -> (m: String)
    ensures
        m@ == selection_spec(kind, n as nat, none_selected),
{
    let mut m = String::new();
    match kind {
        SelectionKind::Duplicated => {
            push_all(&mut m, "Duplicated ");
            push_all(&mut m, count_phrase(n, "node").as_str());
        },
        SelectionKind::Inverted => {
            push_all(&mut m, "Selection inverted \u{2014} ");
            push_all(&mut m, count_phrase(n, "node").as_str());
            push_all(&mut m, " selected");
        },
        SelectionKind::AllEdges => {
            push_all(&mut m, "Selected all ");
            push_all(&mut m, count_phrase(n, "edge").as_str());
        },
        SelectionKind::EdgesBetween => {
            if none_selected {
                push_all(&mut m, "Select nodes first, then use this to select their edges");
            } else if n == 0 {
                push_all(&mut m, "No edges between selected nodes");
            } else {
                push_all(&mut m, "Selected ");
                push_all(&mut m, count_phrase(n, "edge").as_str());
                push_all(&mut m, " between nodes");
            }
        },
        SelectionKind::Orphans => {
            if n == 0 {
                push_all(&mut m, "All nodes are connected \u{2014} no orphans found");
            } else {
                push_all(&mut m, "Selected ");
                push_all(&mut m, count_phrase(n, "unconnected node").as_str());
            }
        },
    }
    assert(m@ =~= selection_spec(kind, n as nat, none_selected));
    m
}

/// The status message after selecting the `n` nodes of `section` (empty for none).
pub open spec fn section_selected_spec(n: nat, section: Seq<char>) -> Seq<char> {
    "Selected "@ + count_phrase_spec(n, "node"@) + " in \""@ + (if section.len() == 0 { "no section"@ } else { section }) + "\""@
}

/// The status message after selecting the `n` nodes of `section`.
pub fn section_selected_message(n: usize, section: &str) -> (m: String)
    ensures
        m@ == section_selected_spec(n as nat, section@),
{
    let mut m = String::new();
    push_all(&mut m, "Selected ");
    push_all(&mut m, count_phrase(n, "node").as_str());
    push_all(&mut m, " in \"");
    if section.is_empty() {
        push_all(&mut m, "no section");
    } else {
        push_all(&mut m, section);
    }
    push_all(&mut m, "\"");
    assert(m@ =~= section_selected_spec(n as nat, section@));
    m
}

/// The status message after giving `n` selected nodes colours of the ten-colour palette.
pub open spec fn colors_spec(n: nat) -> Seq<char> {
    if n == 0 {
        "Select nodes first, then randomize"@
    } else {
        "Applied "@ + decimal(if n < 10 { n } else { 10 }) + " distinct colors"@
    }
}

/// The status message after giving `n` selected nodes colours of the palette.
pub fn colors_message(n: usize) -> (m: String)
    ensures
        m@ == colors_spec(n as nat),
{
    if n == 0 {
        return "Select nodes first, then randomize".to_owned();
    }
    let mut m = String::new();
    push_all(&mut m, "Applied ");
    push_all(&mut m, decimal_string(if n < 10 { n } else { 10 }).as_str());
    push_all(&mut m, " distinct colors");
    assert(m@ =~= colors_spec(n as nat));
    m
}

/// The status message after saving a comment on `n` nodes.
pub open spec fn comment_spec(n: nat) -> Seq<char> {
    if n == 1 {
        "\u{1f4ac} Comment saved"@
    } else {
        "\u{1f4ac} Comment saved"@ + " ("@ + decimal(n) + " nodes)"@
    }
}

/// The status message after saving a comment on `n` nodes.
pub fn comment_message(n: usize) -> (m: String)
    ensures
        m@ == comment_spec(n as nat),
{
    let mut m = String::new();
    push_all(&mut m, "\u{1f4ac} Comment saved");
    if n != 1 {
        push_all(&mut m, " (");
        push_all(&mut m, decimal_string(n).as_str());
        push_all(&mut m, " nodes)");
    }
    assert(m@ =~= comment_spec(n as nat));
    m
}

/// The numbers of the first `k` nodes that are tagged done and that are tagged at all.
pub open spec fn done_of_tagged(nodes: Seq<Node>, k: int) -> (nat, nat)
    decreases k,
{
    if k <= 0 {
        (0, 0)
    } else {
        let c = done_of_tagged(nodes, k - 1);
        let t = nodes[k - 1].tag;
        (c.0 + if t == Some(NodeTag::Done) { 1nat } else { 0nat }, c.1 + if t.is_some() { 1nat } else { 0nat })
    }
}

/// The line under the project title: `done/tagged done`, shown only when some node is
/// tagged.
pub open spec fn title_summary(nodes: Seq<Node>) -> Option<Seq<char>> {
    let c = done_of_tagged(nodes, nodes.len() as int);
    if c.1 == 0 {
        None
    } else {
        Some(decimal(c.0) + "/"@ + decimal(c.1) + " done"@)
    }
}

/// The line under the project title, and whether every tagged node is done.
pub fn title_summary_text(doc: &FlowchartDocument) -> (r: Option<(String, bool)>)
    ensures
        match r {
            Some((t, all)) => title_summary(doc.nodes@) == Some(t@) && all == (done_of_tagged(
                doc.nodes@,
                doc.nodes@.len() as int,
            ).0 == done_of_tagged(doc.nodes@, doc.nodes@.len() as int).1),
            None => title_summary(doc.nodes@).is_none(),
        },
{
    let mut done: usize = 0;
    let mut tagged: usize = 0;
    let mut k: usize = 0;
    while k < doc.nodes.len()
        invariant
            0 <= k <= doc.nodes@.len(),
            (done as nat, tagged as nat) == done_of_tagged(doc.nodes@, k as int),
            done <= tagged <= k,
        decreases doc.nodes@.len() - k,
    {
        match doc.nodes[k].tag {
            Some(t) => {
                tagged = tagged + 1;
                if t == NodeTag::Done {
                    done = done + 1;
                }
            },
            None => {},
        }
        k = k + 1;
    }
    if tagged == 0 {
        return None;
    }
    let mut s = decimal_string(done);
    push_all(&mut s, "/");
    push_all(&mut s, decimal_string(tagged).as_str());
    push_all(&mut s, " done");
    assert(s@ =~= decimal(done as nat) + "/"@ + decimal(tagged as nat) + " done"@);
    Some((s, done == tagged))
}

/// The status message after a click on a row of the section progress panel selects the
/// `count` nodes of `section`.
pub open spec fn summary_pick_spec(count: nat, section: Seq<char>) -> Seq<char> {
    "Selected "@ + decimal(count) + " nodes in \""@ + section + "\""@
}

/// The status message after a click on a row of the section progress panel.
pub fn summary_pick_message(count: usize, section: &str) -> (m: String)
    ensures
        m@ == summary_pick_spec(count as nat, section@),
{
    let mut m = String::new();
    push_all(&mut m, "Selected ");
    push_all(&mut m, decimal_string(count).as_str());
    push_all(&mut m, " nodes in \"");
    push_all(&mut m, section);
    push_all(&mut m, "\"");
    assert(m@ =~= summary_pick_spec(count as nat, section@));
    m
}

} // verus!
