//! Per-section summaries shown over the canvas: the kanban column headers and the section
//! navigator's pills.
//!
//! A node is overdue when some line of its sublabel starts with `📅 ` and gives, trimmed,
//! a date of at least eight bytes that sorts before today's date.
use vstd::prelude::*;
use crate::messages::{decimal, decimal_string};
use crate::model::{FlowchartDocument, Node, NodeTag};
use crate::sections::{has_section, section_order, section_order_spec};
use crate::sorted::{ascending, law_sorted_list_is_unique, texts};
use crate::menus::document_sections;
use crate::text::{
    after, begins_with, chars_begin_with, chars_le, chars_of, line_end, line_len, lex_le, push_all,
    slice_chars, str_eq, trim, trim_chars, utf8_len, utf8_len_at_least,
};

verus! {

/// Whether the line `line` gives a due date before `today`.
pub open spec fn overdue_line(line: Seq<char>, today: Seq<char>) -> bool {
    begins_with(line, "\u{1f4c5} "@) && {
        let d = trim(after(line, 2));
        utf8_len(d) >= 8 && lex_le(d, today) && d != today
    }
}

/// Whether some line of `s` gives a due date before `today`.
pub open spec fn has_overdue_line(s: Seq<char>, today: Seq<char>) -> bool
    decreases s.len(),
{
    let n = line_len(s) as int;
    overdue_line(s.subrange(0, n), today) || (n < s.len() && has_overdue_line(after(s, n + 1), today))
}

/// Whether node `n` is overdue on the day `today`.
pub open spec fn is_overdue(n: Node, today: Seq<char>) -> bool {
    has_overdue_line(n.sublabel@, today)
}

/// Whether the line `line` gives a due date before `today`.
fn line_overdue(line: &Vec<char>, today: &Vec<char>) -> (r: bool)
    ensures
        r == overdue_line(line@, today@),
{
    let mark = chars_of("\u{1f4c5} ");
    proof {
        reveal_strlit("\u{1f4c5} ");
    }
    if !chars_begin_with(line, &mark) {
        return false;
    }
    let rest = slice_chars(line, 2, line.len());
    let d = trim_chars(&rest);
    utf8_len_at_least(&d, 8) && chars_le(&d, today) && !chars_eq_vec(&d, today)
}

/// Whether two character lists are equal.
fn chars_eq_vec(a: &Vec<char>, b: &Vec<char>) -> (r: bool)
    ensures
        r == (a@ == b@),
{
    if a.len() != b.len() {
        return false;
    }
    let mut i: usize = 0;
    while i < a.len()
        invariant
            0 <= i <= a@.len(),
            a@.len() == b@.len(),
            forall|t: int| 0 <= t < i ==> a@[t] == b@[t],
        decreases a@.len() - i,
    {
        if a[i] != b[i] {
            return false;
        }
        i = i + 1;
    }
    assert(a@ =~= b@);
    true
}

/// Whether the sublabel `s` has a line giving a due date before `today`.
pub fn overdue(s: &str, today: &str) -> (r: bool)
    ensures
        r == has_overdue_line(s@, today@),
{
    let cs = chars_of(s);
    let td = chars_of(today);
    let n = cs.len();
    let mut start: usize = 0;
    assert(after(cs@, 0) =~= cs@);
    loop
        invariant
            0 <= start <= n,
            n == cs@.len(),
            cs@ == s@,
            td@ == today@,
            has_overdue_line(cs@, td@) == has_overdue_line(after(cs@, start as int), td@),
        decreases n + 1 - start,
    {
        let ghost rest = after(cs@, start as int);
        let end = line_end(&cs, start);
        let line = slice_chars(&cs, start, end);
        assert(line@ =~= rest.subrange(0, (end - start) as int));
        assert(has_overdue_line(rest, td@) == (overdue_line(line@, td@) || ((end - start) < rest.len()
            && has_overdue_line(after(rest, (end - start) + 1), td@))));
        if line_overdue(&line, &td) {
            return true;
        }
        if end == n {
            return false;
        }
        proof {
            assert(after(rest, (end - start) + 1) =~= after(cs@, end + 1));
        }
        start = end + 1;
    }
}

/// The counts shown on a kanban column header: nodes that are not frames, those done (tagged
/// done or with complete progress) and those overdue.
pub open spec fn column_counts(nodes: Seq<Node>, k: int, section: Seq<char>, today: Seq<char>) -> (nat, nat, nat)
    decreases k,
{
    if k <= 0 {
        (0, 0, 0)
    } else {
        let c = column_counts(nodes, k - 1, section, today);
        let n = nodes[k - 1];
        if n.section_name@ == section && !n.is_frame {
            (
                c.0 + 1,
                c.1 + if n.tag == Some(NodeTag::Done) || n.finished { 1nat } else { 0nat },
                c.2 + if is_overdue(n, today) { 1nat } else { 0nat },
            )
        } else {
            c
        }
    }
}

/// The text of a kanban column header: `✕ ` when its filter is on, the section, then
/// `  ✓done/count` (or `  count` when none is done) and `  ⚠overdue` when some are.
pub open spec fn column_label(section: Seq<char>, count: nat, done: nat, overdue: nat, active: bool) -> Seq<char> {
    (if active { "\u{2715} "@ } else { Seq::empty() }) + section
        + (if done > 0 { "  \u{2713}"@ + decimal(done) + "/"@ + decimal(count) } else { "  "@ + decimal(count) })
        + (if overdue > 0 { "  \u{26a0}"@ + decimal(overdue) } else { Seq::empty() })
}

/// One kanban column header.
pub struct ColumnHeader {
    pub section: String,
    pub count: usize,
    pub done: usize,
    pub overdue: usize,
    /// Whether the search shows only this section.
    pub active: bool,
    pub label: String,
}

/// Counts the nodes of `section` shown in its column.
fn count_column(nodes: &Vec<Node>, section: &str, today: &str) -> (r: (usize, usize, usize))
    ensures
        (r.0 as nat, r.1 as nat, r.2 as nat) == column_counts(nodes@, nodes@.len() as int, section@, today@),
{
    let mut count: usize = 0;
    let mut done: usize = 0;
    let mut late: usize = 0;
    let mut k: usize = 0;
    while k < nodes.len()
        invariant
            0 <= k <= nodes@.len(),
            (count as nat, done as nat, late as nat) == column_counts(nodes@, k as int, section@, today@),
            count <= k && done <= k && late <= k,
        decreases nodes@.len() - k,
    {
        let n = &nodes[k];
        if str_eq(n.section_name.as_str(), section) && !n.is_frame {
            count = count + 1;
            if n.tag == Some(NodeTag::Done) || n.finished {
                done = done + 1;
            }
            if overdue(n.sublabel.as_str(), today) {
                late = late + 1;
            }
        }
        k = k + 1;
    }
    (count, done, late)
}

/// The text of a kanban column header.
pub fn column_label_text(section: &str, count: usize, done: usize, overdue: usize, active: bool) -> (s: String)
    ensures
        s@ == column_label(section@, count as nat, done as nat, overdue as nat, active),
{
    let mut s = String::new();
    if active {
        push_all(&mut s, "\u{2715} ");
    }
    push_all(&mut s, section);
    if done > 0 {
        push_all(&mut s, "  \u{2713}");
        push_all(&mut s, decimal_string(done).as_str());
        push_all(&mut s, "/");
        push_all(&mut s, decimal_string(count).as_str());
    } else {
        push_all(&mut s, "  ");
        push_all(&mut s, decimal_string(count).as_str());
    }
    if overdue > 0 {
        push_all(&mut s, "  \u{26a0}");
        push_all(&mut s, decimal_string(overdue).as_str());
    }
    assert(s@ =~= column_label(section@, count as nat, done as nat, overdue as nat, active));
    s
}

/// The sections that get a kanban column: those of the document in order of first
/// occurrence that hold some node other than a frame.
pub open spec fn board_sections(nodes: Seq<Node>, today: Seq<char>) -> Seq<Seq<char>> {
    section_order_spec(nodes).filter(|s: Seq<char>| column_counts(nodes, nodes.len() as int, s, today).0 > 0)
}

/// The kanban column headers of the document on the day `today`, with `query` the current
/// search: one per section that holds some node other than a frame, in order of first
/// occurrence; a header is active when the query is `section:` and its section.
pub fn column_headers(doc: &FlowchartDocument, today: &str, query: &str) -> (hs: Vec<ColumnHeader>)
    ensures
        hs@.map_values(|h: ColumnHeader| h.section@) == board_sections(doc.nodes@, today@),
        forall|i: int|
            0 <= i < hs@.len() ==> {
                let h = #[trigger] hs@[i];
                let c = column_counts(doc.nodes@, doc.nodes@.len() as int, h.section@, today@);
                &&& (h.count as nat, h.done as nat, h.overdue as nat) == c
                &&& h.active == (query@ == "section:"@ + h.section@)
                &&& h.label@ == column_label(h.section@, c.0, c.1, c.2, h.active)
            },
{
    let order = section_order(doc);
    let mut hs: Vec<ColumnHeader> = Vec::new();
    let ghost pred = |s: Seq<char>| column_counts(doc.nodes@, doc.nodes@.len() as int, s, today@).0 > 0;
    let mut k: usize = 0;
    while k < order.len()
        invariant
            0 <= k <= order@.len(),
            texts(order@) == section_order_spec(doc.nodes@),
            pred == (|s: Seq<char>| column_counts(doc.nodes@, doc.nodes@.len() as int, s, today@).0 > 0),
            hs@.map_values(|h: ColumnHeader| h.section@) == texts(order@).take(k as int).filter(pred),
            forall|i: int|
                0 <= i < hs@.len() ==> {
                    let h = #[trigger] hs@[i];
                    let c = column_counts(doc.nodes@, doc.nodes@.len() as int, h.section@, today@);
                    &&& (h.count as nat, h.done as nat, h.overdue as nat) == c
                    &&& h.active == (query@ == "section:"@ + h.section@)
                    &&& h.label@ == column_label(h.section@, c.0, c.1, c.2, h.active)
                },
        decreases order@.len() - k,
    {
        let ghost before = hs@.map_values(|h: ColumnHeader| h.section@);
        let sec = &order[k];
        let counts = count_column(&doc.nodes, sec.as_str(), today);
        proof {
            let pre = texts(order@).take(k + 1);
            assert(pre.drop_last() =~= texts(order@).take(k as int));
            assert(pre.last() == sec@);
            reveal(Seq::filter);
        }
        if counts.0 > 0 {
            let mut filter = String::new();
            push_all(&mut filter, "section:");
            push_all(&mut filter, sec.as_str());
            let active = str_eq(query, filter.as_str());
            let label = column_label_text(sec.as_str(), counts.0, counts.1, counts.2, active);
            hs.push(ColumnHeader {
                section: sec.clone(),
                count: counts.0,
                done: counts.1,
                overdue: counts.2,
                active,
                label,
            });
            assert(hs@.map_values(|h: ColumnHeader| h.section@) =~= before.push(sec@));
        }
        k = k + 1;
    }
    assert(texts(order@).take(order@.len() as int) =~= texts(order@));
    hs
}

/// The counts of a section shown on its navigator pill: its nodes, those tagged blocked,
/// to do, done and in progress, those overdue, and those both blocked and overdue.
pub open spec fn pill_counts(nodes: Seq<Node>, k: int, section: Seq<char>, today: Seq<char>) -> (nat, nat, nat, nat, nat, nat, nat)
    decreases k,
{
    if k <= 0 {
        (0, 0, 0, 0, 0, 0, 0)
    } else {
        let c = pill_counts(nodes, k - 1, section, today);
        let n = nodes[k - 1];
        if n.section_name@ == section {
            let late = is_overdue(n, today);
            (
                c.0 + 1,
                c.1 + if n.tag == Some(NodeTag::Critical) { 1nat } else { 0nat },
                c.2 + if n.tag == Some(NodeTag::Warning) { 1nat } else { 0nat },
                c.3 + if n.tag == Some(NodeTag::Done) { 1nat } else { 0nat },
                c.4 + if n.tag == Some(NodeTag::Info) { 1nat } else { 0nat },
                c.5 + if late { 1nat } else { 0nat },
                c.6 + if late && n.tag == Some(NodeTag::Critical) { 1nat } else { 0nat },
            )
        } else {
            c
        }
    }
}

/// The status that colours a pill's border: blocked over to do over done over in progress.
pub open spec fn dominant_tag(critical: nat, warning: nat, done: nat, info: nat) -> Option<NodeTag> {
    if critical > 0 {
        Some(NodeTag::Critical)
    } else if warning > 0 {
        Some(NodeTag::Warning)
    } else if done > 0 {
        Some(NodeTag::Done)
    } else if info > 0 {
        Some(NodeTag::Info)
    } else {
        None
    }
}

/// The text of a pill: `🔥 ` when a blocked node is overdue, the first fourteen characters
/// of the section, `…` when it is longer, a space and the number of nodes.
pub open spec fn pill_label(section: Seq<char>, total: nat, on_fire: bool) -> Seq<char> {
    (if on_fire { "\u{1f525} "@ } else { Seq::empty() })
        + (if section.len() > 14 { section.take(14) + "\u{2026}"@ } else { section })
        + " "@ + decimal(total)
}

/// How many of the first `k` nodes are in `section` and carry the tag `t`.
pub open spec fn tagged_in(nodes: Seq<Node>, k: int, section: Seq<char>, t: Option<NodeTag>) -> nat {
    nodes.take(k).filter(in_section_tagged(section, t)).len()
}

/// Whether a node is in `section` and carries the tag `t`.
pub open spec fn in_section_tagged(section: Seq<char>, t: Option<NodeTag>) -> spec_fn(Node) -> bool {
    |n: Node| n.section_name@ == section && n.tag == t
}

/// A pill counts, for each status, every node of its section carrying that status's tag,
/// whatever the node's progress: blocked, to do, done and in progress; and it counts every
/// node of the section in its total.
pub proof fn law_pill_counts_every_tagged_node(nodes: Seq<Node>, k: int, section: Seq<char>, today: Seq<char>)
    requires
        0 <= k <= nodes.len(),
    ensures
        pill_counts(nodes, k, section, today).0 == nodes.take(k).filter(|n: Node| n.section_name@ == section).len(),
        pill_counts(nodes, k, section, today).1 == tagged_in(nodes, k, section, Some(NodeTag::Critical)),
        pill_counts(nodes, k, section, today).2 == tagged_in(nodes, k, section, Some(NodeTag::Warning)),
        pill_counts(nodes, k, section, today).3 == tagged_in(nodes, k, section, Some(NodeTag::Done)),
        pill_counts(nodes, k, section, today).4 == tagged_in(nodes, k, section, Some(NodeTag::Info)),
    decreases k,
{
    reveal(Seq::filter);
    if k > 0 {
        law_pill_counts_every_tagged_node(nodes, k - 1, section, today);
        assert(nodes.take(k).drop_last() =~= nodes.take(k - 1));
        assert(nodes.take(k).last() == nodes[k - 1]);
    } else {
        assert(nodes.take(0) =~= Seq::<Node>::empty());
    }
}

/// A section with a node tagged to do and none tagged blocked shows a pill coloured to do,
/// whatever that node's progress.
pub proof fn law_pill_colour_of_to_do(nodes: Seq<Node>, section: Seq<char>, today: Seq<char>, j: int)
    requires
        0 <= j < nodes.len(),
        nodes[j].section_name@ == section,
        nodes[j].tag == Some(NodeTag::Warning),
        forall|i: int| 0 <= i < nodes.len() && nodes[i].section_name@ == section ==> #[trigger] nodes[i].tag != Some(
            NodeTag::Critical,
        ),
    ensures
        ({
            let c = pill_counts(nodes, nodes.len() as int, section, today);
            c.2 >= 1 && dominant_tag(c.1, c.2, c.3, c.4) == Some(NodeTag::Warning)
        }),
{
    let len = nodes.len() as int;
    law_pill_counts_every_tagged_node(nodes, len, section, today);
    assert(nodes.take(len) =~= nodes);
    let tw = Some(NodeTag::Warning);
    let tc = Some(NodeTag::Critical);
    let pw = in_section_tagged(section, tw);
    let pc = in_section_tagged(section, tc);
    nodes.filter_lemma(pw);
    assert(pw(nodes[j]));
    assert(nodes.filter(pw).contains(nodes[j]));
    assert(nodes.filter(pw).len() > 0);
    assert(nodes.all(|x: Node| !pc(x))) by {
        assert forall|i: int| 0 <= i < nodes.len() implies !pc(#[trigger] nodes[i]) by {}
    }
    nodes.lemma_all_neg_filter_empty(pc);
}

/// One pill of the section navigator.
pub struct SectionPill {
    pub section: String,
    pub total: usize,
    pub critical: usize,
    pub warning: usize,
    pub done: usize,
    pub info: usize,
    pub overdue: usize,
    pub critical_overdue: usize,
    /// The status that colours the pill's border, if any.
    pub dominant: Option<NodeTag>,
    pub label: String,
}

/// The counts of one pill as plain numbers.
pub open spec fn pill_view(p: SectionPill) -> (nat, nat, nat, nat, nat, nat, nat) {
    (p.total as nat, p.critical as nat, p.warning as nat, p.done as nat, p.info as nat, p.overdue as nat, p.critical_overdue as nat)
}

/// Counts the nodes of `section` for its pill.
fn count_pill(nodes: &Vec<Node>, section: &str, today: &str) -> (r: [usize; 7])
    ensures
        (r[0] as nat, r[1] as nat, r[2] as nat, r[3] as nat, r[4] as nat, r[5] as nat, r[6] as nat) == pill_counts(
            nodes@,
            nodes@.len() as int,
            section@,
            today@,
        ),
{
    let mut c: [usize; 7] = [0, 0, 0, 0, 0, 0, 0];
    let mut k: usize = 0;
    while k < nodes.len()
        invariant
            0 <= k <= nodes@.len(),
            (c[0] as nat, c[1] as nat, c[2] as nat, c[3] as nat, c[4] as nat, c[5] as nat, c[6] as nat) == pill_counts(
                nodes@,
                k as int,
                section@,
                today@,
            ),
            c[0] <= k && c[1] <= k && c[2] <= k && c[3] <= k && c[4] <= k && c[5] <= k && c[6] <= k,
        decreases nodes@.len() - k,
    {
        let n = &nodes[k];
        if str_eq(n.section_name.as_str(), section) {
            let late = overdue(n.sublabel.as_str(), today);
            c[0] = c[0] + 1;
            if n.tag == Some(NodeTag::Critical) {
                c[1] = c[1] + 1;
                if late {
                    c[6] = c[6] + 1;
                }
            }
            if n.tag == Some(NodeTag::Warning) {
                c[2] = c[2] + 1;
            }
            if n.tag == Some(NodeTag::Done) {
                c[3] = c[3] + 1;
            }
            if n.tag == Some(NodeTag::Info) {
                c[4] = c[4] + 1;
            }
            if late {
                c[5] = c[5] + 1;
            }
        }
        k = k + 1;
    }
    c
}

/// The text of a navigator pill.
pub fn pill_label_text(section: &str, total: usize, on_fire: bool) -> (s: String)
    ensures
        s@ == pill_label(section@, total as nat, on_fire),
{
    let mut s = String::new();
    if on_fire {
        push_all(&mut s, "\u{1f525} ");
    }
    let cs = chars_of(section);
    if cs.len() > 14 {
        let head = slice_chars(&cs, 0, 14);
        let mut k: usize = 0;
        let ghost base = s@;
        while k < head.len()
            invariant
                0 <= k <= head@.len(),
                s@ == base + head@.take(k as int),
            decreases head@.len() - k,
        {
            s.push(head[k]);
            assert(head@.take(k + 1) =~= head@.take(k as int).push(head@[k as int]));
            k = k + 1;
        }
        assert(head@.take(head@.len() as int) =~= section@.take(14));
        push_all(&mut s, "\u{2026}");
    } else {
        push_all(&mut s, section);
    }
    push_all(&mut s, " ");
    push_all(&mut s, decimal_string(total).as_str());
    assert(s@ =~= pill_label(section@, total as nat, on_fire));
    s
}

/// The pills of the section navigator on the day `today`: one per section of the document,
/// sorted by name.
pub fn section_pills(doc: &FlowchartDocument, today: &str) -> (ps: Vec<SectionPill>)
    ensures
        ascending(ps@.map_values(|p: SectionPill| p.section@)),
        forall|t: Seq<char>|
            ps@.map_values(|p: SectionPill| p.section@).contains(t) <==> has_section(doc.nodes@, doc.nodes@.len() as int, t),
        forall|i: int|
            0 <= i < ps@.len() ==> {
                let p = #[trigger] ps@[i];
                let c = pill_counts(doc.nodes@, doc.nodes@.len() as int, p.section@, today@);
                &&& pill_view(p) == c
                &&& p.dominant == dominant_tag(c.1, c.2, c.3, c.4)
                &&& p.label@ == pill_label(p.section@, c.0, c.6 > 0)
            },
{
    let names = document_sections(doc);
    let mut ps: Vec<SectionPill> = Vec::new();
    let mut k: usize = 0;
    while k < names.len()
        invariant
            0 <= k <= names@.len(),
            ps@.len() == k,
            forall|i: int| 0 <= i < k ==> (#[trigger] ps@[i]).section@ == names@[i]@,
            forall|i: int|
                0 <= i < ps@.len() ==> {
                    let p = #[trigger] ps@[i];
                    let c = pill_counts(doc.nodes@, doc.nodes@.len() as int, p.section@, today@);
                    &&& pill_view(p) == c
                    &&& p.dominant == dominant_tag(c.1, c.2, c.3, c.4)
                    &&& p.label@ == pill_label(p.section@, c.0, c.6 > 0)
                },
        decreases names@.len() - k,
    {
        let sec = &names[k];
        let c = count_pill(&doc.nodes, sec.as_str(), today);
        let dominant = if c[1] > 0 {
            Some(NodeTag::Critical)
        } else if c[2] > 0 {
            Some(NodeTag::Warning)
        } else if c[3] > 0 {
            Some(NodeTag::Done)
        } else if c[4] > 0 {
            Some(NodeTag::Info)
        } else {
            None
        };
        let label = pill_label_text(sec.as_str(), c[0], c[6] > 0);
        ps.push(SectionPill {
            section: sec.clone(),
            total: c[0],
            critical: c[1],
            warning: c[2],
            done: c[3],
            info: c[4],
            overdue: c[5],
            critical_overdue: c[6],
            dominant,
            label,
        });
        k = k + 1;
    }
    assert(ps@.map_values(|p: SectionPill| p.section@) =~= texts(names@));
    ps
}

/// Every list of the document's sections sorted by name (the navigator's pills, the
/// progress summary's rows, the section menu) is the same list: it is fixed by the
/// sections the nodes are in.
pub proof fn law_sorted_sections_agree(nodes: Seq<Node>, a: Seq<Seq<char>>, b: Seq<Seq<char>>)
    requires
        ascending(a),
        ascending(b),
        forall|t: Seq<char>| a.contains(t) <==> has_section(nodes, nodes.len() as int, t),
        forall|t: Seq<char>| b.contains(t) <==> has_section(nodes, nodes.len() as int, t),
    ensures
        a == b,
{
    law_sorted_list_is_unique(a, b);
}

} // verus!
