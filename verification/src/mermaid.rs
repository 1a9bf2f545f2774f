//! Export of a document as a Mermaid flowchart.
use vstd::prelude::*;
use crate::model::{Edge, FlowchartDocument, Node, NodeId};
use crate::text::{chars_of, is_whitespace, lemma_trim_shape, push_all, trim, trimmed};

verus! {

/// The lowercase hexadecimal digit for `n` (which is below 16).
pub open spec fn hex_digit(n: u128) -> char {
    if n < 10 {
        (('0' as u32) + n) as char
    } else {
        (('a' as u32) + n - 10) as char
    }
}

/// The `i`-th of the 32 hexadecimal digits of `id`, most significant first.
pub open spec fn id_digit(id: NodeId, i: int) -> char {
    hex_digit((id >> ((124 - 4 * i) as u128)) & 0xf)
}

/// The Mermaid identifier of a node: `n_` followed by the first eight hexadecimal digits
/// of its identifier, lowercase.
pub open spec fn mermaid_id_spec(id: NodeId) -> Seq<char> {
    seq!['n', '_'] + Seq::new(8, |i: int| id_digit(id, i))
}

/// A label made safe for Mermaid: double quotes become single quotes, line breaks become
/// spaces, and surrounding whitespace is removed.
pub open spec fn sanitize_spec(s: Seq<char>) -> Seq<char> {
    trim(
        s.map_values(
            |c: char|
                if c == '"' {
                    '\''
                } else if c == '\n' {
                    ' '
                } else {
                    c
                },
        ),
    )
}

/// The Mermaid line declaring a node, with its label in brackets when it has one.
pub open spec fn node_line(n: Node) -> Seq<char> {
    let label = sanitize_spec(n.label@);
    if label.len() == 0 {
        "    "@ + mermaid_id_spec(n.id) + "\n"@
    } else {
        "    "@ + mermaid_id_spec(n.id) + "[\""@ + label + "\"]\n"@
    }
}

/// The Mermaid line of an edge, with its label between pipes when it has one.
pub open spec fn edge_line(e: Edge) -> Seq<char> {
    let label = sanitize_spec(e.label@);
    let src = mermaid_id_spec(e.source.node_id);
    let tgt = mermaid_id_spec(e.target.node_id);
    if label.len() == 0 {
        "    "@ + src + " --> "@ + tgt + "\n"@
    } else {
        "    "@ + src + " -->|\""@ + label + "\"| "@ + tgt + "\n"@
    }
}

/// The lines of `ls`, one after the other.
pub open spec fn joined(ls: Seq<Seq<char>>) -> Seq<char>
    decreases ls.len(),
{
    if ls.len() == 0 {
        Seq::empty()
    } else {
        joined(ls.drop_last()) + ls.last()
    }
}

/// The whole Mermaid text of a document: the header, a line per node, then a line per edge.
pub open spec fn mermaid_spec(doc: FlowchartDocument) -> Seq<char> {
    "flowchart LR\n"@ + joined(doc.nodes@.map_values(|n: Node| node_line(n))) + joined(
        doc.edges@.map_values(|e: Edge| edge_line(e)),
    )
}

/// A sanitized label holds no double quote and no line break, and neither starts nor ends
/// with whitespace, so it can stand between the quotes of a Mermaid label.
pub proof fn law_sanitized_label_is_safe(s: Seq<char>)
    ensures
        forall|i: int|
            0 <= i < sanitize_spec(s).len() ==> #[trigger] sanitize_spec(s)[i] != '"'
                && sanitize_spec(s)[i] != '\n',
        sanitize_spec(s).len() > 0 ==> !is_whitespace(sanitize_spec(s)[0]) && !is_whitespace(
            sanitize_spec(s).last(),
        ),
        sanitize_spec(s).len() <= s.len(),
{
    let m = s.map_values(
        |c: char|
            if c == '"' {
                '\''
            } else if c == '\n' {
                ' '
            } else {
                c
            },
    );
    let (a, b) = lemma_trim_shape(m);
    assert forall|i: int| 0 <= i < sanitize_spec(s).len() implies #[trigger] sanitize_spec(s)[i] != '"'
        && sanitize_spec(s)[i] != '\n' by {
        assert(sanitize_spec(s)[i] == m[a + i]);
    }
}

/// A node's Mermaid identifier is `n_` followed by eight lowercase hexadecimal digits.
pub proof fn law_mermaid_id_shape(id: NodeId)
    ensures
        mermaid_id_spec(id).len() == 10,
        mermaid_id_spec(id)[0] == 'n',
        mermaid_id_spec(id)[1] == '_',
        forall|i: int|
            2 <= i < 10 ==> ('0' <= #[trigger] mermaid_id_spec(id)[i] <= '9') || ('a'
                <= mermaid_id_spec(id)[i] <= 'f'),
{
    assert forall|i: int| 2 <= i < 10 implies ('0' <= #[trigger] mermaid_id_spec(id)[i] <= '9') || ('a'
        <= mermaid_id_spec(id)[i] <= 'f') by {
        let d = (id >> ((124 - 4 * (i - 2)) as u128)) & 0xf;
        let sh = (124 - 4 * (i - 2)) as u128;
        assert(((id >> sh) & 0xf) < 16) by (bit_vector);
        assert(mermaid_id_spec(id)[i] == hex_digit(d));
    }
}

/// The `i`-th of the 32 four-bit digits of `id`, most significant first.
pub open spec fn id_nibble(id: NodeId, i: int) -> u128 {
    (id >> ((124 - 4 * i) as u128)) & 0xf
}

proof fn lemma_hex_digit_injective(x: u128, y: u128)
    requires
        x < 16,
        y < 16,
        hex_digit(x) == hex_digit(y),
    ensures
        x == y,
{
    assert(hex_digit(x) as u32 == if x < 10 { 48 + x } else { 87 + x });
    assert(hex_digit(y) as u32 == if y < 10 { 48 + y } else { 87 + y });
}

proof fn lemma_top_bits_as_nibbles(a: NodeId, b: NodeId)
    ensures
        ((a >> 96u128) == (b >> 96u128)) <==> (forall|i: int| 0 <= i < 8 ==> #[trigger] id_nibble(a, i) == id_nibble(b, i)),
{
    assert(((a >> 96u128) == (b >> 96u128)) <==> (
        (a >> 124u128) & 0xf == (b >> 124u128) & 0xf
        && (a >> 120u128) & 0xf == (b >> 120u128) & 0xf
        && (a >> 116u128) & 0xf == (b >> 116u128) & 0xf
        && (a >> 112u128) & 0xf == (b >> 112u128) & 0xf
        && (a >> 108u128) & 0xf == (b >> 108u128) & 0xf
        && (a >> 104u128) & 0xf == (b >> 104u128) & 0xf
        && (a >> 100u128) & 0xf == (b >> 100u128) & 0xf
        && (a >> 96u128) & 0xf == (b >> 96u128) & 0xf)) by (bit_vector);
    assert(id_nibble(a, 0) == (a >> 124u128) & 0xf && id_nibble(b, 0) == (b >> 124u128) & 0xf);
    assert(id_nibble(a, 1) == (a >> 120u128) & 0xf && id_nibble(b, 1) == (b >> 120u128) & 0xf);
    assert(id_nibble(a, 2) == (a >> 116u128) & 0xf && id_nibble(b, 2) == (b >> 116u128) & 0xf);
    assert(id_nibble(a, 3) == (a >> 112u128) & 0xf && id_nibble(b, 3) == (b >> 112u128) & 0xf);
    assert(id_nibble(a, 4) == (a >> 108u128) & 0xf && id_nibble(b, 4) == (b >> 108u128) & 0xf);
    assert(id_nibble(a, 5) == (a >> 104u128) & 0xf && id_nibble(b, 5) == (b >> 104u128) & 0xf);
    assert(id_nibble(a, 6) == (a >> 100u128) & 0xf && id_nibble(b, 6) == (b >> 100u128) & 0xf);
    assert(id_nibble(a, 7) == (a >> 96u128) & 0xf && id_nibble(b, 7) == (b >> 96u128) & 0xf);
}

/// Two nodes get the same Mermaid identifier exactly when the first eight hexadecimal
/// digits of their identifiers, that is their top 32 bits, agree, so identifiers that share
/// those digits collide; and a Mermaid identifier never holds a hyphen.
pub proof fn law_mermaid_id_collisions(a: NodeId, b: NodeId)
    ensures
        (mermaid_id_spec(a) == mermaid_id_spec(b)) <==> ((a >> 96u128) == (b >> 96u128)),
        !mermaid_id_spec(a).contains('-'),
{
    lemma_top_bits_as_nibbles(a, b);
    law_mermaid_id_shape(a);
    assert forall|i: int| 0 <= i < 8 implies id_nibble(a, i) < 16 && id_nibble(b, i) < 16 by {
        let sh = (124 - 4 * i) as u128;
        assert(((a >> sh) & 0xf) < 16) by (bit_vector);
        assert(((b >> sh) & 0xf) < 16) by (bit_vector);
    }
    if mermaid_id_spec(a) == mermaid_id_spec(b) {
        assert forall|i: int| 0 <= i < 8 implies #[trigger] id_nibble(a, i) == id_nibble(b, i) by {
            assert(mermaid_id_spec(a)[i + 2] == mermaid_id_spec(b)[i + 2]);
            lemma_hex_digit_injective(id_nibble(a, i), id_nibble(b, i));
        }
    }
    if (a >> 96u128) == (b >> 96u128) {
        assert forall|i: int| 0 <= i < 8 implies #[trigger] id_digit(a, i) == id_digit(b, i) by {
            assert(id_nibble(a, i) == id_nibble(b, i));
        }
        assert(mermaid_id_spec(a) =~= mermaid_id_spec(b));
    }
    if mermaid_id_spec(a).contains('-') {
        let k = choose|k: int| 0 <= k < mermaid_id_spec(a).len() && mermaid_id_spec(a)[k] == '-';
        assert(2 <= k < 10 ==> ('0' <= mermaid_id_spec(a)[k] <= '9') || ('a' <= mermaid_id_spec(a)[k] <= 'f'));
    }
}

fn hex_digit_char(n: u128) -> (c: char)
    requires
        n < 16,
    ensures
        c == hex_digit(n),
{
    let digits: [char; 16] = [
        '0', '1', '2', '3', '4', '5', '6', '7', '8', '9', 'a', 'b', 'c', 'd', 'e', 'f',
    ];
    let c = digits[n as usize];
    assert(c == hex_digit(n)) by {
        reveal_with_fuel(hex_digit, 1);
    }
    c
}

/// Converts a node identifier to a safe Mermaid node identifier: the identifier's
/// hexadecimal digits without hyphens, the first eight of them, after the prefix `n_`.
pub fn mermaid_id(id: NodeId) -> (s: String)
    ensures
        s@ == mermaid_id_spec(id),
{
    let mut s = String::new();
    s.push('n');
    s.push('_');
    let mut i: u32 = 0;
    while i < 8
        invariant
            0 <= i <= 8,
            s@ == seq!['n', '_'] + Seq::new(i as nat, |k: int| id_digit(id, k)),
        decreases 8 - i,
    {
        let shift: u32 = 124 - 4 * i;
        let d: u128 = (id >> shift) & 0xf;
        assert(((id >> shift) & 0xf) < 16) by (bit_vector);
        assert(d == (id >> ((124 - 4 * (i as int)) as u128)) & 0xf) by {
            assert((id >> shift) == (id >> (shift as u128))) by (bit_vector);
        }
        s.push(hex_digit_char(d));
        proof {
            assert(seq!['n', '_'] + Seq::new((i + 1) as nat, |k: int| id_digit(id, k)) =~= (seq!['n', '_']
                + Seq::new(i as nat, |k: int| id_digit(id, k))).push(id_digit(id, i as int)));
        }
        i = i + 1;
    }
    s
}

/// A label made safe for Mermaid: quotes replaced, line breaks replaced, whitespace trimmed.
pub fn sanitize(s: &str) -> (r: String)
    ensures
        r@ == sanitize_spec(s@),
{
    let cs = chars_of(s);
    let mut out: Vec<char> = Vec::new();
    let mut i: usize = 0;
    while i < cs.len()
        invariant
            0 <= i <= cs@.len(),
            cs@ == s@,
            out@ == cs@.subrange(0, i as int).map_values(
                |c: char|
                    if c == '"' {
                        '\''
                    } else if c == '\n' {
                        ' '
                    } else {
                        c
                    },
            ),
        decreases cs@.len() - i,
    {
        let c = cs[i];
        let m = if c == '"' {
            '\''
        } else if c == '\n' {
            ' '
        } else {
            c
        };
        out.push(m);
        proof {
            assert(cs@.subrange(0, i + 1) =~= cs@.subrange(0, i as int).push(c));
        }
        i = i + 1;
    }
    assert(cs@.subrange(0, i as int) =~= cs@);
    trimmed(&out)
}

/// Generates a Mermaid left-to-right flowchart from the document: the header line, one
/// line per node (with its sanitized label when it has one), then one line per edge.
pub fn to_mermaid(doc: &FlowchartDocument) -> (out: String)
    ensures
        out@ == mermaid_spec(*doc),
{
    let mut out = String::new();
    push_all(&mut out, "flowchart LR\n");
    let ghost header = out@;
    let mut i: usize = 0;
    while i < doc.nodes.len()
        invariant
            0 <= i <= doc.nodes@.len(),
            header == "flowchart LR\n"@,
            out@ == header + joined(doc.nodes@.take(i as int).map_values(|n: Node| node_line(n))),
        decreases doc.nodes@.len() - i,
    {
        let node = &doc.nodes[i];
        let id = mermaid_id(node.id);
        let label = sanitize(node.label.as_str());
        let ghost before = out@;
        push_all(&mut out, "    ");
        push_all(&mut out, id.as_str());
        if label.as_str().is_empty() {
            push_all(&mut out, "\n");
        } else {
            push_all(&mut out, "[\"");
            push_all(&mut out, label.as_str());
            push_all(&mut out, "\"]\n");
        }
        proof {
            let prev = doc.nodes@.take(i as int).map_values(|n: Node| node_line(n));
            let next = doc.nodes@.take(i + 1).map_values(|n: Node| node_line(n));
            assert(next =~= prev.push(node_line(doc.nodes@[i as int])));
            assert(next.drop_last() =~= prev);
            assert(out@ =~= before + node_line(doc.nodes@[i as int]));
        }
        i = i + 1;
    }
    assert(doc.nodes@.take(i as int) =~= doc.nodes@);
    let ghost with_nodes = out@;
    let mut j: usize = 0;
    while j < doc.edges.len()
        invariant
            0 <= j <= doc.edges@.len(),
            out@ == with_nodes + joined(doc.edges@.take(j as int).map_values(|e: Edge| edge_line(e))),
        decreases doc.edges@.len() - j,
    {
        let edge = &doc.edges[j];
        let src = mermaid_id(edge.source.node_id);
        let tgt = mermaid_id(edge.target.node_id);
        let label = sanitize(edge.label.as_str());
        let ghost before = out@;
        push_all(&mut out, "    ");
        push_all(&mut out, src.as_str());
        if label.as_str().is_empty() {
            push_all(&mut out, " --> ");
        } else {
            push_all(&mut out, " -->|\"");
            push_all(&mut out, label.as_str());
            push_all(&mut out, "\"| ");
        }
        push_all(&mut out, tgt.as_str());
        push_all(&mut out, "\n");
        proof {
            let prev = doc.edges@.take(j as int).map_values(|e: Edge| edge_line(e));
            let next = doc.edges@.take(j + 1).map_values(|e: Edge| edge_line(e));
            assert(next =~= prev.push(edge_line(doc.edges@[j as int])));
            assert(next.drop_last() =~= prev);
            assert(out@ =~= before + edge_line(doc.edges@[j as int]));
        }
        j = j + 1;
    }
    assert(doc.edges@.take(j as int) =~= doc.edges@);
    out
}

/// An edge's line carries its label sanitized exactly as a node's label is: quotes turned
/// to single quotes, line breaks to spaces, surrounding whitespace removed. So the text
/// between the pipes holds no double quote and no line break, an edge and a node with the
/// same label show the same text, and an edge whose label sanitizes to nothing is a plain
/// arrow.
pub proof fn law_edge_label_sanitized(e: Edge, n: Node)
    ensures
        ({
            let label = sanitize_spec(e.label@);
            let src = mermaid_id_spec(e.source.node_id);
            let tgt = mermaid_id_spec(e.target.node_id);
            &&& label.len() == 0 ==> edge_line(e) == "    "@ + src + " --> "@ + tgt + "\n"@
            &&& label.len() > 0 ==> edge_line(e) == "    "@ + src + " -->|\""@ + label + "\"| "@ + tgt + "\n"@
            &&& forall|i: int| 0 <= i < label.len() ==> #[trigger] label[i] != '"' && label[i] != '\n'
            &&& (n.label@ == e.label@ && label.len() > 0) ==> node_line(n) == "    "@ + mermaid_id_spec(n.id)
                + "[\""@ + label + "\"]\n"@
        }),
{
    law_sanitized_label_is_safe(e.label@);
}

/// An edge's Mermaid line is a single line: its only line break ends it; and every double
/// quote in it stands against a pipe, opening or closing the label, so the label itself
/// holds none.
pub proof fn law_edge_line_is_one_safe_line(e: Edge)
    ensures
        forall|i: int| 0 <= i < edge_line(e).len() ==> (#[trigger] edge_line(e)[i] == '\n' <==> i == edge_line(e).len() - 1),
        forall|i: int|
            0 <= i < edge_line(e).len() && #[trigger] edge_line(e)[i] == '"' ==> (0 < i && edge_line(e)[i - 1] == '|')
                || (i + 1 < edge_line(e).len() && edge_line(e)[i + 1] == '|'),
{
    reveal_strlit("    ");
    reveal_strlit(" --> ");
    reveal_strlit(" -->|\"");
    reveal_strlit("\"| ");
    reveal_strlit("\n");
    law_sanitized_label_is_safe(e.label@);
    let label = sanitize_spec(e.label@);
    let src = mermaid_id_spec(e.source.node_id);
    let tgt = mermaid_id_spec(e.target.node_id);
    law_mermaid_id_shape(e.source.node_id);
    law_mermaid_id_shape(e.target.node_id);
    assert forall|i: int| 0 <= i < 10 implies src[i] != '"' && src[i] != '\n' && src[i] != '|' && tgt[i] != '"'
        && tgt[i] != '\n' && tgt[i] != '|' by {
        if i >= 2 {
            assert(('0' <= src[i] <= '9') || ('a' <= src[i] <= 'f'));
            assert(('0' <= tgt[i] <= '9') || ('a' <= tgt[i] <= 'f'));
        }
    }
    let line = edge_line(e);
    if label.len() == 0 {
        let a = "    "@ + src;
        let b = a + " --> "@;
        let c = b + tgt;
        assert(line == c + "\n"@);
        assert forall|i: int| 0 <= i < line.len() implies (#[trigger] line[i] == '\n' <==> i == line.len() - 1) && line[i] != '"' by {
            if i < 4 {
                assert(line[i] == "    "@[i]);
            } else if i < 14 {
                assert(line[i] == src[i - 4]);
            } else if i < 19 {
                assert(line[i] == " --> "@[i - 14]);
            } else if i < 29 {
                assert(line[i] == tgt[i - 19]);
            } else {
                assert(line[i] == '\n');
            }
        }
    } else {
        let a = "    "@ + src;
        let b = a + " -->|\""@;
        let c = b + label;
        let d = c + "\"| "@;
        let f = d + tgt;
        let m = label.len();
        assert(line == f + "\n"@);
        assert forall|i: int| 0 <= i < line.len() implies (#[trigger] line[i] == '\n' <==> i == line.len() - 1) && (line[i] == '"' ==> (
        0 < i && line[i - 1] == '|') || (i + 1 < line.len() && line[i + 1] == '|')) by {
            if i < 4 {
                assert(line[i] == "    "@[i]);
            } else if i < 14 {
                assert(line[i] == src[i - 4]);
            } else if i < 20 {
                assert(line[i] == " -->|\""@[i - 14]);
                if i == 19 {
                    assert(line[i - 1] == '|');
                }
            } else if i < 20 + m {
                assert(line[i] == label[i - 20]);
            } else if i < 23 + m {
                assert(line[i] == "\"| "@[i - 20 - m]);
                if i == 20 + m {
                    assert(line[i + 1] == '|');
                }
            } else if i < 33 + m {
                assert(line[i] == tgt[i - 23 - m]);
            } else {
                assert(line[i] == '\n');
            }
        }
    }
}

} // verus!
