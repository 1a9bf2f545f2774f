//! The corner readout of the canvas: what is selected and how large the document is.
use vstd::prelude::*;
use crate::edits::{find_node_index, first_with_id, lemma_first_unique};
use crate::messages::{decimal, decimal_string};
use crate::model::{FlowchartDocument, Node, NodeId};
use crate::text::push_all;

verus! {

/// The position, counted from one, of the first node with identifier `id`; one when no
/// node has it.
pub open spec fn place_of(nodes: Seq<Node>, id: NodeId) -> nat {
    if exists|i: int| 0 <= i < nodes.len() && #[trigger] nodes[i].id == id {
        let i = choose|i: int| 0 <= i < nodes.len() && nodes[i].id == id && first_with_id(nodes, i);
        (i + 1) as nat
    } else {
        1
    }
}

/// The second line of the canvas corner readout: with a selection, the selected node and
/// edge counts (`2N+1E sel`), the selection's size text, the place of a lone selected node
/// among all (`  (3/7)`), then the document's counts; without one, just the document's
/// counts.
pub open spec fn readout_line(nodes: Seq<Node>, edges: nat, sel_nodes: nat, sel_edges: nat, lone: Option<NodeId>, size: Seq<char>) -> Seq<char> {
    if sel_nodes > 0 || sel_edges > 0 {
        let parts = if sel_nodes > 0 && sel_edges > 0 {
            decimal(sel_nodes) + "N+"@ + decimal(sel_edges) + "E"@
        } else if sel_nodes > 0 {
            decimal(sel_nodes) + "N"@
        } else {
            decimal(sel_edges) + "E"@
        };
        let place = match lone {
            Some(id) => if sel_nodes == 1 && sel_edges == 0 {
                "  ("@ + decimal(place_of(nodes, id)) + "/"@ + decimal(nodes.len()) + ")"@
            } else {
                Seq::empty()
            },
            None => Seq::empty(),
        };
        parts + " sel"@ + size + place + "  \u{b7}  "@ + decimal(nodes.len()) + "N "@ + decimal(edges) + "E"@
    } else {
        decimal(nodes.len()) + "N  "@ + decimal(edges) + "E"@
    }
}

/// The second line of the canvas corner readout; `lone` is the selected node when exactly
/// one node is selected, and `size` the selection's size as the canvas formats it.
pub fn readout_line_text(doc: &FlowchartDocument, sel_nodes: usize, sel_edges: usize, lone: Option<NodeId>, size: &str) -> (s: String)
    ensures
        s@ == readout_line(doc.nodes@, doc.edges@.len() as nat, sel_nodes as nat, sel_edges as nat, lone, size@),
{
    if sel_nodes == 0 && sel_edges == 0 {
        let mut s = decimal_string(doc.nodes.len());
        push_all(&mut s, "N  ");
        push_all(&mut s, decimal_string(doc.edges.len()).as_str());
        push_all(&mut s, "E");
        return s;
    }
    let mut s = String::new();
    if sel_nodes > 0 {
        push_all(&mut s, decimal_string(sel_nodes).as_str());
        push_all(&mut s, "N");
    }
    if sel_nodes > 0 && sel_edges > 0 {
        push_all(&mut s, "+");
    }
    if sel_edges > 0 {
        push_all(&mut s, decimal_string(sel_edges).as_str());
        push_all(&mut s, "E");
    }
    let ghost parts = s@;
    assert(parts == if sel_nodes > 0 && sel_edges > 0 {
        decimal(sel_nodes as nat) + "N+"@ + decimal(sel_edges as nat) + "E"@
    } else if sel_nodes > 0 {
        decimal(sel_nodes as nat) + "N"@
    } else {
        decimal(sel_edges as nat) + "E"@
    }) by {
        if sel_nodes > 0 && sel_edges > 0 {
            assert(parts =~= decimal(sel_nodes as nat) + "N"@ + "+"@ + decimal(sel_edges as nat) + "E"@);
            assert("N+"@ =~= "N"@ + "+"@) by {
                reveal_strlit("N+");
                reveal_strlit("N");
                reveal_strlit("+");
            }
            assert(decimal(sel_nodes as nat) + "N+"@ + decimal(sel_edges as nat) + "E"@ =~= decimal(sel_nodes as nat) + "N"@ + "+"@ + decimal(sel_edges as nat) + "E"@);
        }
    }
    push_all(&mut s, " sel");
    push_all(&mut s, size);
    let ghost before_place = s@;
    match lone {
        Some(id) => {
            if sel_nodes == 1 && sel_edges == 0 {
                let place: usize = match find_node_index(&doc.nodes, id) {
                    Some(i) => {
                        proof {
                            let w = choose|w: int| 0 <= w < doc.nodes@.len() && doc.nodes@[w].id == id && first_with_id(doc.nodes@, w);
                            lemma_first_unique(doc.nodes@, id, i as int, w);
                        }
                        let count = doc.nodes.len();
                        assert(i < count);
                        i + 1
                    },
                    None => 1,
                };
                push_all(&mut s, "  (");
                push_all(&mut s, decimal_string(place).as_str());
                push_all(&mut s, "/");
                push_all(&mut s, decimal_string(doc.nodes.len()).as_str());
                push_all(&mut s, ")");
                assert(s@ =~= before_place + ("  ("@ + decimal(place_of(doc.nodes@, id)) + "/"@ + decimal(doc.nodes@.len()) + ")"@));
            }
        },
        None => {},
    }
    let ghost after_place = s@;
    push_all(&mut s, "  \u{b7}  ");
    push_all(&mut s, decimal_string(doc.nodes.len()).as_str());
    push_all(&mut s, "N ");
    push_all(&mut s, decimal_string(doc.edges.len()).as_str());
    push_all(&mut s, "E");
    assert(s@ =~= after_place + "  \u{b7}  "@ + decimal(doc.nodes@.len()) + "N "@ + decimal(doc.edges@.len() as nat) + "E"@);
    s
}

} // verus!
