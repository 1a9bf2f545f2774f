//! The text of the tooltip shown over a hovered node.
//!
//! Rows that rest on a node's progress, its 3D layer and depth, or on dates are formatted
//! by the caller and handed in; so is the tag's display name. The rest comes from the
//! node and the document here.
use vstd::prelude::*;
use vstd::string::StringSliceAdditionalSpecFns;
use vstd::utf8::{decode_utf8, encode_utf8, encode_utf8_decode_utf8, is_char_boundary};
use crate::duplicate::{first_index, lemma_first_index};
use crate::edits::find_node_index;
use crate::messages::{decimal, decimal_string};
use crate::model::{Edge, FlowchartDocument, Node, NodeId, NodeKind, NodeShape, NodeTag};
use crate::text::{chars_of, push_all};

verus! {

/// The rows the caller formats for the tooltip: the progress row, the due-date and age
/// rows, the 3D layer row and the layer and depth parts of the spec hint, together with
/// the display name of the node's tag.
pub struct TooltipParts {
    pub progress: Option<String>,
    pub dates: Vec<String>,
    pub layer: Option<String>,
    pub layer_hints: String,
    pub tag_name: String,
}

/// The view of an optional row.
pub open spec fn row_of(r: Option<String>) -> Seq<Seq<char>> {
    match r {
        Some(t) => seq![t@],
        None => Seq::empty(),
    }
}

/// `row` when `cond` holds, else nothing.
pub open spec fn row_if(cond: bool, row: Seq<char>) -> Seq<Seq<char>> {
    if cond { seq![row] } else { Seq::empty() }
}

/// The part of the spec hint that names the node's kind.
pub open spec fn shape_hint(k: NodeKind) -> Seq<char> {
    match k {
        NodeKind::Shape { shape } => match shape {
            NodeShape::Diamond => " {diamond}"@,
            NodeShape::Circle => " {circle}"@,
            NodeShape::Parallelogram => " {parallelogram}"@,
            NodeShape::Hexagon => " {hexagon}"@,
            NodeShape::Connector => " {connector}"@,
            _ => Seq::empty(),
        },
        NodeKind::Entity => " {entity}"@,
        NodeKind::Text => " {text}"@,
        NodeKind::StickyNote => Seq::empty(),
    }
}

/// The part of the spec hint that names the node's highlight or status.
pub open spec fn status_hint(n: Node) -> Seq<char> {
    if n.highlight {
        " {highlight}"@
    } else {
        match n.tag {
            Some(NodeTag::Critical) => " {blocked}"@,
            Some(NodeTag::Warning) => " {warning}"@,
            Some(NodeTag::Done) => " {done}"@,
            Some(NodeTag::Info) => " {info}"@,
            None => Seq::empty(),
        }
    }
}

/// The short preview of a comment: the comment when its UTF-8 form has at most 60 bytes,
/// else its first 60 bytes followed by an ellipsis.
pub open spec fn comment_preview(c: Seq<char>) -> Seq<char> {
    let bytes = encode_utf8(c);
    if bytes.len() > 60 {
        "\u{1f4ac} "@ + decode_utf8(bytes.subrange(0, 60)) + "\u{2026}"@
    } else {
        "\u{1f4ac} "@ + c
    }
}

/// Whether a comment's preview can be cut: its UTF-8 length fits the machine, and when it
/// is longer than 60 bytes the 60th byte ends a character.
pub open spec fn previewable(c: Seq<char>) -> bool {
    let bytes = encode_utf8(c);
    bytes.len() <= usize::MAX && (bytes.len() > 60 ==> is_char_boundary(bytes, 60))
}

/// The first rich rows of node `n`: its sublabel, progress, edge counts, section, tag and
/// dates.
pub open spec fn upper_rows(doc: FlowchartDocument, n: Node, parts: TooltipParts) -> Seq<Seq<char>> {
    let ins = doc.edges@.filter(|e: Edge| e.target.node_id == n.id).len();
    let outs = doc.edges@.filter(|e: Edge| e.source.node_id == n.id).len();
    row_if(n.sublabel@.len() > 0, n.sublabel@)
        + row_of(parts.progress)
        + row_if(ins > 0 || outs > 0, "\u{2191}"@ + decimal(ins) + " in  \u{2193}"@ + decimal(outs) + " out"@)
        + row_if(n.section_name@.len() > 0, "\u{a7} "@ + n.section_name@)
        + row_if(n.tag is Some, "Tag: "@ + parts.tag_name@)
        + parts.dates@.map_values(|d: String| d@)
}

/// The last rich rows of node `n`: its comment, 3D layer, spec hint, link, comment preview
/// and lock.
pub open spec fn lower_rows(n: Node, parts: TooltipParts) -> Seq<Seq<char>> {
    let hint = shape_hint(n.kind) + parts.layer_hints@ + status_hint(n);
    row_if(n.comment@.len() > 0, "\u{1f4ac} "@ + n.comment@.take(if n.comment@.len() < 80 { n.comment@.len() as int } else { 80 }))
        + row_of(parts.layer)
        + row_if(hint.len() > 0, "spec: [id] label"@ + hint)
        + row_if(n.url@.len() > 0, "\u{1f517} \u{2318}+click to open URL"@)
        + row_if(n.comment@.len() > 0, comment_preview(n.comment@))
        + row_if(n.locked, "\u{1f512} Locked"@)
}

/// The rows the tooltip lists under node `n`'s label in document `doc`, in order: its
/// description, then, when `rich` (the pointer has rested on the node long enough), the
/// upper and lower rich rows.
pub open spec fn tooltip_rows_spec(doc: FlowchartDocument, n: Node, rich: bool, parts: TooltipParts) -> Seq<Seq<char>> {
    row_if(n.description@.len() > 0, n.description@) + if rich {
        upper_rows(doc, n, parts) + lower_rows(n, parts)
    } else {
        Seq::empty()
    }
}

/// The tooltip of node `id`: its label and rows, or none when no node has the identifier,
/// or when the tooltip is not rich and the node has no description.
pub open spec fn tooltip_spec(doc: FlowchartDocument, id: NodeId, rich: bool, parts: TooltipParts) -> Option<(Seq<char>, Seq<Seq<char>>)> {
    match first_index(doc.nodes@, id) {
        None => None,
        Some(i) => {
            let n = doc.nodes@[i];
            if !rich && n.description@.len() == 0 {
                None
            } else {
                Some((n.label@, tooltip_rows_spec(doc, n, rich, parts)))
            }
        },
    }
}

/// How many edges end at `id`.
fn count_incoming(edges: &Vec<Edge>, id: NodeId) -> (n: usize)
    ensures
        n == edges@.filter(|e: Edge| e.target.node_id == id).len(),
{
    let ghost p = |e: Edge| e.target.node_id == id;
    let mut n: usize = 0;
    let mut k: usize = 0;
    while k < edges.len()
        invariant
            0 <= k <= edges@.len(),
            p == (|e: Edge| e.target.node_id == id),
            n == edges@.take(k as int).filter(p).len(),
            n <= k,
        decreases edges@.len() - k,
    {
        proof {
            reveal(Seq::filter);
            assert(edges@.take(k + 1).drop_last() =~= edges@.take(k as int));
            assert(edges@.take(k + 1).last() == edges@[k as int]);
        }
        if edges[k].target.node_id == id {
            n = n + 1;
        }
        k = k + 1;
    }
    assert(edges@.take(k as int) =~= edges@);
    n
}

/// How many edges start at `id`.
fn count_outgoing(edges: &Vec<Edge>, id: NodeId) -> (n: usize)
    ensures
        n == edges@.filter(|e: Edge| e.source.node_id == id).len(),
{
    let ghost p = |e: Edge| e.source.node_id == id;
    let mut n: usize = 0;
    let mut k: usize = 0;
    while k < edges.len()
        invariant
            0 <= k <= edges@.len(),
            p == (|e: Edge| e.source.node_id == id),
            n == edges@.take(k as int).filter(p).len(),
            n <= k,
        decreases edges@.len() - k,
    {
        proof {
            reveal(Seq::filter);
            assert(edges@.take(k + 1).drop_last() =~= edges@.take(k as int));
            assert(edges@.take(k + 1).last() == edges@[k as int]);
        }
        if edges[k].source.node_id == id {
            n = n + 1;
        }
        k = k + 1;
    }
    assert(edges@.take(k as int) =~= edges@);
    n
}

/// The kind part of the spec hint.
fn shape_hint_text(k: NodeKind) -> (s: &'static str)
    ensures
        s@ == shape_hint(k),
{
    match k {
        NodeKind::Shape { shape } => match shape {
            NodeShape::Diamond => " {diamond}",
            NodeShape::Circle => " {circle}",
            NodeShape::Parallelogram => " {parallelogram}",
            NodeShape::Hexagon => " {hexagon}",
            NodeShape::Connector => " {connector}",
            _ => {
                proof { reveal_strlit(""); }
                ""
            },
        },
        NodeKind::Entity => " {entity}",
        NodeKind::Text => " {text}",
        NodeKind::StickyNote => {
            proof { reveal_strlit(""); }
            ""
        },
    }
}

/// The status part of the spec hint.
fn status_hint_text(n: &Node) -> (s: &'static str)
    ensures
        s@ == status_hint(*n),
{
    if n.highlight {
        return " {highlight}";
    }
    match n.tag {
        Some(NodeTag::Critical) => " {blocked}",
        Some(NodeTag::Warning) => " {warning}",
        Some(NodeTag::Done) => " {done}",
        Some(NodeTag::Info) => " {info}",
        None => {
            proof { reveal_strlit(""); }
            ""
        },
    }
}

/// The comment's first 80 characters after the speech-bubble mark.
fn comment_row(c: &str) -> (r: String)
    ensures
        r@ == "\u{1f4ac} "@ + c@.take(if c@.len() < 80 { c@.len() as int } else { 80 }),
{
    let cs = chars_of(c);
    let n: usize = if cs.len() < 80 { cs.len() } else { 80 };
    let mut r = String::new();
    push_all(&mut r, "\u{1f4ac} ");
    let ghost head = r@;
    let mut k: usize = 0;
    while k < n
        invariant
            0 <= k <= n <= cs@.len(),
            cs@ == c@,
            r@ == head + c@.take(k as int),
        decreases n - k,
    {
        r.push(cs[k]);
        assert(c@.take(k + 1) =~= c@.take(k as int).push(c@[k as int]));
        k = k + 1;
    }
    r
}

/// The comment preview: the comment, or its first 60 bytes and an ellipsis when it is
/// longer.
fn preview_row(c: &str) -> (r: String)
    requires
        previewable(c@),
    ensures
        r@ == comment_preview(c@),
{
    let mut r = String::new();
    push_all(&mut r, "\u{1f4ac} ");
    if c.len() > 60 {
        let (head, _tail) = c.split_at(60);
        proof {
            encode_utf8_decode_utf8(head@);
            assert(head.spec_bytes() =~= c.spec_bytes().subrange(0, 60));
            assert(head.spec_bytes() == encode_utf8(head@));
            assert(head@ == decode_utf8(encode_utf8(c@).subrange(0, 60)));
            assert(encode_utf8(c@).len() > 60);
        }
        push_all(&mut r, head);
        push_all(&mut r, "\u{2026}");
    } else {
        assert(!(encode_utf8(c@).len() > 60));
        push_all(&mut r, c);
    }
    r
}

/// Appends the row `t` to `rows`.
fn add_row(rows: &mut Vec<String>, t: String)
    ensures
        final(rows)@.map_values(|s: String| s@) == old(rows)@.map_values(|s: String| s@).push(t@),
{
    let ghost before = rows@;
    rows.push(t);
    assert(rows@.map_values(|s: String| s@) =~= before.map_values(|s: String| s@).push(t@));
}

/// Appends `t` as a row when `cond` holds.
fn add_row_if(rows: &mut Vec<String>, cond: bool, t: String)
    ensures
        final(rows)@.map_values(|s: String| s@) == old(rows)@.map_values(|s: String| s@) + row_if(cond, t@),
{
    let ghost before = rows@;
    if cond {
        add_row(rows, t);
        assert(before.map_values(|s: String| s@).push(t@) =~= before.map_values(|s: String| s@) + row_if(cond, t@));
    } else {
        assert(before.map_values(|s: String| s@) =~= before.map_values(|s: String| s@) + row_if(cond, t@));
    }
}

/// `a` followed by `b`.
fn concat(a: &str, b: &str) -> (r: String)
    ensures
        r@ == a@ + b@,
{
    let mut r = String::new();
    push_all(&mut r, a);
    push_all(&mut r, b);
    assert(r@ =~= a@ + b@);
    r
}


/// Appends the upper rich rows of `n`.
fn add_upper_rows(rows: &mut Vec<String>, doc: &FlowchartDocument, n: &Node, parts: &TooltipParts)
    ensures
        final(rows)@.map_values(|s: String| s@) == old(rows)@.map_values(|s: String| s@) + upper_rows(*doc, *n, *parts),
{
    let ghost start = rows@.map_values(|s: String| s@);
    let ins = count_incoming(&doc.edges, n.id);
    let outs = count_outgoing(&doc.edges, n.id);
    add_row_if(rows, !n.sublabel.as_str().is_empty(), n.sublabel.clone());
    match &parts.progress {
        Some(p) => add_row_if(rows, true, p.clone()),
        None => add_row_if(rows, false, String::new()),
    }
    let mut deg = concat("\u{2191}", decimal_string(ins).as_str());
    push_all(&mut deg, " in  \u{2193}");
    push_all(&mut deg, decimal_string(outs).as_str());
    push_all(&mut deg, " out");
    add_row_if(rows, ins > 0 || outs > 0, deg);
    add_row_if(rows, !n.section_name.as_str().is_empty(), concat("\u{a7} ", n.section_name.as_str()));
    add_row_if(rows, n.tag.is_some(), concat("Tag: ", parts.tag_name.as_str()));
    let ghost before_dates = rows@.map_values(|s: String| s@);
    let mut k: usize = 0;
    while k < parts.dates.len()
        invariant
            0 <= k <= parts.dates@.len(),
            rows@.map_values(|s: String| s@) == before_dates + parts.dates@.take(k as int).map_values(|d: String| d@),
        decreases parts.dates@.len() - k,
    {
        add_row(rows, parts.dates[k].clone());
        assert(parts.dates@.take(k + 1).map_values(|d: String| d@) =~= parts.dates@.take(k as int).map_values(
            |d: String| d@,
        ).push(parts.dates@[k as int]@));
        k = k + 1;
    }
    assert(parts.dates@.take(k as int) =~= parts.dates@);
    assert(rows@.map_values(|s: String| s@) =~= start + upper_rows(*doc, *n, *parts));
}

/// Appends the lower rich rows of `n`.
fn add_lower_rows(rows: &mut Vec<String>, n: &Node, parts: &TooltipParts)
    requires
        previewable(n.comment@),
    ensures
        final(rows)@.map_values(|s: String| s@) == old(rows)@.map_values(|s: String| s@) + lower_rows(*n, *parts),
{
    let ghost start = rows@.map_values(|s: String| s@);
    add_row_if(rows, !n.comment.as_str().is_empty(), comment_row(n.comment.as_str()));
    match &parts.layer {
        Some(p) => add_row_if(rows, true, p.clone()),
        None => add_row_if(rows, false, String::new()),
    }
    let mut hint = concat(shape_hint_text(n.kind), parts.layer_hints.as_str());
    push_all(&mut hint, status_hint_text(n));
    let has_hint = !hint.as_str().is_empty();
    add_row_if(rows, has_hint, concat("spec: [id] label", hint.as_str()));
    add_row_if(rows, !n.url.as_str().is_empty(), "\u{1f517} \u{2318}+click to open URL".to_owned());
    add_row_if(rows, !n.comment.as_str().is_empty(), preview_row(n.comment.as_str()));
    add_row_if(rows, n.locked, "\u{1f512} Locked".to_owned());
    assert(rows@.map_values(|s: String| s@) =~= start + lower_rows(*n, *parts));
}

/// The tooltip of node `id` in `doc`: its label and the rows under it (see
/// `tooltip_spec`), with the rows that `parts` supplies. None when no node has the
/// identifier, or when the tooltip is not `rich` and the node has no description.
pub fn tooltip(doc: &FlowchartDocument, id: NodeId, rich: bool, parts: &TooltipParts) -> (t: Option<(String, Vec<String>)>)
    requires
        match first_index(doc.nodes@, id) {
            Some(i) => rich ==> previewable(doc.nodes@[i].comment@),
            None => true,
        },
    ensures
        match t {
            None => tooltip_spec(*doc, id, rich, *parts) is None,
            Some(r) => tooltip_spec(*doc, id, rich, *parts) == Some((r.0@, r.1@.map_values(|s: String| s@))),
        },
{
    let i = match find_node_index(&doc.nodes, id) {
        Some(i) => i,
        None => {
            assert(first_index(doc.nodes@, id) is None);
            return None;
        },
    };
    proof {
        lemma_first_index(doc.nodes@, id, i as int);
    }
    let n = &doc.nodes[i];
    if !rich && n.description.as_str().is_empty() {
        return None;
    }
    let mut rows: Vec<String> = Vec::new();
    assert(rows@.map_values(|s: String| s@) =~= Seq::<Seq<char>>::empty());
    add_row_if(&mut rows, !n.description.as_str().is_empty(), n.description.clone());
    let ghost first = rows@.map_values(|s: String| s@);
    assert(first =~= row_if(n.description@.len() > 0, n.description@));
    if rich {
        add_upper_rows(&mut rows, doc, n, parts);
        add_lower_rows(&mut rows, n, parts);
        assert(rows@.map_values(|s: String| s@) =~= tooltip_rows_spec(*doc, *n, rich, *parts));
    } else {
        assert(rows@.map_values(|s: String| s@) =~= tooltip_rows_spec(*doc, *n, rich, *parts));
    }
    Some((n.label.clone(), rows))
}

} // verus!
