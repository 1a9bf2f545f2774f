//! The canvas search: which nodes a search query picks out.
//!
//! A query is compared lowercased and trimmed. Prefixes such as `status:`, `section:`,
//! `priority:`, `due:` or `url:` and keywords such as `overdue`, `linked` or `has-url`
//! select by a node's tag, section, dates, owner, links and so on; any other query is
//! looked for in the node's label, description, section, URL and sublabel.
use vstd::prelude::*;
use std::collections::HashSet;
use crate::model::{FlowchartDocument, Node, NodeId, NodeKind, NodeTag};
use crate::selection::{has_edges, ids_where, is_connected};
use crate::text::{
    after, all_ascii, ascii_lower, begins_with, chars_begin_with, chars_eq, chars_le, chars_of, contains_chars,
    contains_run, first_line_after, lex_le, line_after_prefix, lower_chars, lowercase,
    slice_chars, trim, trim_chars, trim_end, trim_start, utf8_len, utf8_len_at_least,
};

verus! {

/// Whether a node's tag fits the status word `w` of a `status:` query.
pub open spec fn status_matches(n: Node, w: Seq<char>) -> bool {
    if w == "done"@ || w == "\u{2705}"@ {
        n.tag == Some(NodeTag::Done)
    } else if w == "wip"@ || w == "\u{1f504}"@ || w == "in progress"@ {
        n.tag == Some(NodeTag::Info)
    } else if w == "todo"@ || w == "\u{1f4cb}"@ || w == "pending"@ {
        n.tag == Some(NodeTag::Warning) && !n.half_done
    } else if w == "review"@ || w == "\u{1f441}"@ {
        n.tag == Some(NodeTag::Warning) && n.half_done
    } else if w == "blocked"@ || w == "\u{26d4}"@ {
        n.tag == Some(NodeTag::Critical)
    } else if w == "tagged"@ {
        n.tag.is_some()
    } else if w == "none"@ || w == "untagged"@ {
        n.tag.is_none()
    } else {
        false
    }
}

/// Whether a node's tag fits the priority word `w` of a `priority:` query.
pub open spec fn priority_matches(n: Node, w: Seq<char>) -> bool {
    if w == "p1"@ || w == "1"@ || w == "critical"@ {
        n.tag == Some(NodeTag::Critical)
    } else if w == "p2"@ || w == "2"@ || w == "high"@ {
        n.tag == Some(NodeTag::Warning)
    } else if w == "p3"@ || w == "3"@ || w == "medium"@ {
        n.tag == Some(NodeTag::Info)
    } else if w == "p4"@ || w == "4"@ || w == "low"@ {
        n.tag.is_none()
    } else {
        false
    }
}

/// The date of a node: the rest of the first sublabel line starting with the calendar
/// mark and a space, trimmed.
pub open spec fn due_date(n: Node) -> Option<Seq<char>> {
    match first_line_after(n.sublabel@, "\u{1f4c5} "@) {
        Some(d) => Some(trim(d)),
        None => None,
    }
}

/// The lowercased description of a shape node; empty for other kinds.
pub open spec fn description_lower(n: Node) -> Seq<char> {
    match n.kind {
        NodeKind::Shape { .. } => lowercase(n.description@),
        _ => Seq::empty(),
    }
}

/// The trimmed rest of `q` after the prefix `p`.
pub open spec fn arg(q: Seq<char>, p: Seq<char>) -> Seq<char> {
    trim(after(q, p.len() as int))
}

/// Whether node `n` (with `linked` telling whether some edge touches it) matches the
/// trimmed, lowercased query `q` on the day `today` (an ISO date).
pub open spec fn query_matches(n: Node, linked: bool, q: Seq<char>, today: Seq<char>) -> bool {
    if begins_with(q, "status:"@) {
        status_matches(n, arg(q, "status:"@))
    } else if begins_with(q, "section:"@) {
        contains_run(lowercase(n.section_name@), arg(q, "section:"@))
    } else if begins_with(q, "\u{a7}"@) {
        contains_run(lowercase(n.section_name@), arg(q, "\u{a7}"@))
    } else if begins_with(q, "icon:"@) {
        contains_run(lowercase(n.icon@), arg(q, "icon:"@))
    } else if q == "glow"@ || q == "highlighted"@ {
        n.glow || n.highlight
    } else if begins_with(q, "priority:"@) {
        priority_matches(n, arg(q, "priority:"@))
    } else if begins_with(q, "p:"@) {
        priority_matches(n, arg(q, "p:"@))
    } else if q == "escalated"@ {
        n.tag == Some(NodeTag::Critical) && n.glow
    } else if q == "overdue"@ || q == "due:overdue"@ || q == "past-due"@ {
        match due_date(n) {
            Some(d) => lex_le(d, today) && utf8_len(d) >= 8,
            None => false,
        }
    } else if q == "upcoming"@ || q == "due:upcoming"@ || q == "due:future"@ {
        match due_date(n) {
            Some(d) => !lex_le(d, today),
            None => false,
        }
    } else if q == "has-due"@ || q == "has-deadline"@ {
        begins_with(n.sublabel@, "\u{1f4c5}"@)
    } else if begins_with(q, "due:"@) {
        begins_with(n.sublabel@, "\u{1f4c5} "@) && contains_run(
            lowercase(trim(after(n.sublabel@, "\u{1f4c5} "@.len() as int))),
            lowercase(arg(q, "due:"@)),
        )
    } else if begins_with(q, "assigned:"@) {
        contains_run(lowercase(n.sublabel@), lowercase(arg(q, "assigned:"@)))
    } else if begins_with(q, "owner:"@) {
        contains_run(lowercase(n.sublabel@), lowercase(arg(q, "owner:"@)))
    } else if begins_with(q, "assignee:"@) {
        contains_run(lowercase(n.sublabel@), lowercase(arg(q, "assignee:"@)))
    } else if q == "assigned"@ || q == "has-owner"@ {
        begins_with(n.sublabel@, "\u{1f464}"@)
    } else if q == "unassigned"@ || q == "no-owner"@ {
        !begins_with(n.sublabel@, "\u{1f464}"@)
    } else if q == "linked"@ {
        linked
    } else if q == "unlinked"@ || q == "orphan"@ {
        !linked
    } else if begins_with(q, "url:"@) {
        contains_run(lowercase(n.url@), arg(q, "url:"@))
    } else if begins_with(q, "link:"@) {
        contains_run(lowercase(n.url@), arg(q, "link:"@))
    } else if q == "has-url"@ || q == "has-link"@ {
        n.url@.len() > 0
    } else if q == "no-url"@ || q == "no-link"@ {
        n.url@.len() == 0
    } else if q == "commented"@ || q == "has-comment"@ || q == "has-note"@ {
        n.comment@.len() > 0
    } else if q == "overdue"@ || q == "sla-breach"@ {
        match due_date(n) {
            Some(d) => lex_le(d, today),
            None => false,
        }
    } else {
        ||| contains_run(lowercase(n.label@), q)
        ||| contains_run(description_lower(n), q)
        ||| contains_run(lowercase(n.section_name@), q)
        ||| contains_run(lowercase(n.url@), q)
        ||| contains_run(lowercase(n.sublabel@), q)
    }
}

fn lower_of(s: &String) -> (r: Vec<char>)
    ensures
        r@ == lowercase(s@),
{
    let l = s.as_str().to_lowercase();
    chars_of(l.as_str())
}

/// The trimmed rest of `q` after the prefix `p`.
fn arg_of(q: &Vec<char>, p: &str) -> (r: Vec<char>)
    requires
        begins_with(q@, p@),
    ensures
        r@ == arg(q@, p@),
{
    let n = chars_of(p).len();
    let rest = slice_chars(q, n, q.len());
    trim_chars(&rest)
}

fn begins(q: &Vec<char>, p: &str) -> (r: bool)
    ensures
        r == begins_with(q@, p@),
{
    let pc = chars_of(p);
    chars_begin_with(q, &pc)
}

fn string_begins(s: &String, p: &str) -> (r: bool)
    ensures
        r == begins_with(s@, p@),
{
    let sc = chars_of(s.as_str());
    begins(&sc, p)
}

/// Whether a node's tag fits the status word `w`.
pub fn status_word_matches(n: &Node, w: &Vec<char>) -> (r: bool)
    ensures
        r == status_matches(*n, w@),
{
    if chars_eq(w, "done") || chars_eq(w, "\u{2705}") {
        n.tag == Some(NodeTag::Done)
    } else if chars_eq(w, "wip") || chars_eq(w, "\u{1f504}") || chars_eq(w, "in progress") {
        n.tag == Some(NodeTag::Info)
    } else if chars_eq(w, "todo") || chars_eq(w, "\u{1f4cb}") || chars_eq(w, "pending") {
        n.tag == Some(NodeTag::Warning) && !n.half_done
    } else if chars_eq(w, "review") || chars_eq(w, "\u{1f441}") {
        n.tag == Some(NodeTag::Warning) && n.half_done
    } else if chars_eq(w, "blocked") || chars_eq(w, "\u{26d4}") {
        n.tag == Some(NodeTag::Critical)
    } else if chars_eq(w, "tagged") {
        n.tag.is_some()
    } else if chars_eq(w, "none") || chars_eq(w, "untagged") {
        n.tag.is_none()
    } else {
        false
    }
}

/// Whether a node's tag fits the priority word `w`.
pub fn priority_word_matches(n: &Node, w: &Vec<char>) -> (r: bool)
    ensures
        r == priority_matches(*n, w@),
{
    if chars_eq(w, "p1") || chars_eq(w, "1") || chars_eq(w, "critical") {
        n.tag == Some(NodeTag::Critical)
    } else if chars_eq(w, "p2") || chars_eq(w, "2") || chars_eq(w, "high") {
        n.tag == Some(NodeTag::Warning)
    } else if chars_eq(w, "p3") || chars_eq(w, "3") || chars_eq(w, "medium") {
        n.tag == Some(NodeTag::Info)
    } else if chars_eq(w, "p4") || chars_eq(w, "4") || chars_eq(w, "low") {
        n.tag.is_none()
    } else {
        false
    }
}

/// The node's due date, as `due_date` describes it.
fn node_due_date(n: &Node) -> (r: Option<Vec<char>>)
    ensures
        match r {
            Some(v) => due_date(*n) == Some(v@),
            None => due_date(*n).is_none(),
        },
{
    let s = chars_of(n.sublabel.as_str());
    let mark = chars_of("\u{1f4c5} ");
    match line_after_prefix(&s, &mark) {
        Some(d) => Some(trim_chars(&d)),
        None => None,
    }
}

/// Whether the node's due date is on or before `today` (and, when `full_date` is set,
/// at least eight bytes long).
fn due_on_or_before(n: &Node, today: &Vec<char>, full_date: bool) -> (r: bool)
    ensures
        r == match due_date(*n) {
            Some(d) => lex_le(d, today@) && (!full_date || utf8_len(d) >= 8),
            None => false,
        },
{
    match node_due_date(n) {
        Some(d) => {
            let le = chars_le(&d, today);
            if !le {
                false
            } else if !full_date {
                true
            } else {
                utf8_len_at_least(&d, 8)
            }
        },
        None => false,
    }
}

/// Whether some field that a plain query searches contains `q`.
fn text_matches(n: &Node, q: &Vec<char>) -> (r: bool)
    ensures
        r == (contains_run(lowercase(n.label@), q@) || contains_run(description_lower(*n), q@)
            || contains_run(lowercase(n.section_name@), q@) || contains_run(lowercase(n.url@), q@)
            || contains_run(lowercase(n.sublabel@), q@)),
{
    if contains_chars(&lower_of(&n.label), q) {
        return true;
    }
    let desc: Vec<char> = match n.kind {
        NodeKind::Shape { .. } => lower_of(&n.description),
        _ => Vec::new(),
    };
    assert(desc@ == description_lower(*n));
    contains_chars(&desc, q) || contains_chars(&lower_of(&n.section_name), q) || contains_chars(
        &lower_of(&n.url),
        q,
    ) || contains_chars(&lower_of(&n.sublabel), q)
}

/// Whether node `n` matches the trimmed, lowercased query `q` on the day `today`;
/// `linked` tells whether some edge touches the node.
pub fn node_matches_query(n: &Node, linked: bool, q: &Vec<char>, today: &Vec<char>) -> (r: bool)
    ensures
        r == query_matches(*n, linked, q@, today@),
{
    if begins(q, "status:") {
        status_word_matches(n, &arg_of(q, "status:"))
    } else if begins(q, "section:") {
        contains_chars(&lower_of(&n.section_name), &arg_of(q, "section:"))
    } else if begins(q, "\u{a7}") {
        contains_chars(&lower_of(&n.section_name), &arg_of(q, "\u{a7}"))
    } else if begins(q, "icon:") {
        contains_chars(&lower_of(&n.icon), &arg_of(q, "icon:"))
    } else if chars_eq(q, "glow") || chars_eq(q, "highlighted") {
        n.glow || n.highlight
    } else if begins(q, "priority:") {
        priority_word_matches(n, &arg_of(q, "priority:"))
    } else if begins(q, "p:") {
        priority_word_matches(n, &arg_of(q, "p:"))
    } else if chars_eq(q, "escalated") {
        n.tag == Some(NodeTag::Critical) && n.glow
    } else if chars_eq(q, "overdue") || chars_eq(q, "due:overdue") || chars_eq(q, "past-due") {
        due_on_or_before(n, today, true)
    } else if chars_eq(q, "upcoming") || chars_eq(q, "due:upcoming") || chars_eq(q, "due:future") {
        match node_due_date(n) {
            Some(d) => !chars_le(&d, today),
            None => false,
        }
    } else if chars_eq(q, "has-due") || chars_eq(q, "has-deadline") {
        string_begins(&n.sublabel, "\u{1f4c5}")
    } else if begins(q, "due:") {
        due_text_matches(n, q)
    } else if begins(q, "assigned:") {
        contains_chars(&lower_of(&n.sublabel), &lower_chars(&arg_of(q, "assigned:")))
    } else if begins(q, "owner:") {
        contains_chars(&lower_of(&n.sublabel), &lower_chars(&arg_of(q, "owner:")))
    } else if begins(q, "assignee:") {
        contains_chars(&lower_of(&n.sublabel), &lower_chars(&arg_of(q, "assignee:")))
    } else if chars_eq(q, "assigned") || chars_eq(q, "has-owner") {
        string_begins(&n.sublabel, "\u{1f464}")
    } else if chars_eq(q, "unassigned") || chars_eq(q, "no-owner") {
        !string_begins(&n.sublabel, "\u{1f464}")
    } else if chars_eq(q, "linked") {
        linked
    } else if chars_eq(q, "unlinked") || chars_eq(q, "orphan") {
        !linked
    } else if begins(q, "url:") {
        contains_chars(&lower_of(&n.url), &arg_of(q, "url:"))
    } else if begins(q, "link:") {
        contains_chars(&lower_of(&n.url), &arg_of(q, "link:"))
    } else if chars_eq(q, "has-url") || chars_eq(q, "has-link") {
        !n.url.as_str().is_empty()
    } else if chars_eq(q, "no-url") || chars_eq(q, "no-link") {
        n.url.as_str().is_empty()
    } else if chars_eq(q, "commented") || chars_eq(q, "has-comment") || chars_eq(q, "has-note") {
        !n.comment.as_str().is_empty()
    } else if chars_eq(q, "overdue") || chars_eq(q, "sla-breach") {
        due_on_or_before(n, today, false)
    } else {
        text_matches(n, q)
    }
}

/// The `due:` query: the sublabel starts with the calendar mark and a space, and the rest
/// of it, trimmed and lowercased, contains the lowercased argument.
fn due_text_matches(n: &Node, q: &Vec<char>) -> (r: bool)
    requires
        begins_with(q@, "due:"@),
    ensures
        r == (begins_with(n.sublabel@, "\u{1f4c5} "@) && contains_run(
            lowercase(trim(after(n.sublabel@, "\u{1f4c5} "@.len() as int))),
            lowercase(arg(q@, "due:"@)),
        )),
{
    let target = lower_chars(&arg_of(q, "due:"));
    let s = chars_of(n.sublabel.as_str());
    let mark = chars_of("\u{1f4c5} ");
    if !chars_begin_with(&s, &mark) {
        return false;
    }
    let rest = slice_chars(&s, mark.len(), s.len());
    let date = lower_chars(&trim_chars(&rest));
    contains_chars(&date, &target)
}

/// The search query as it is compared: trimmed, then lowercased.
pub open spec fn normalized_query(query: Seq<char>) -> Seq<char> {
    lowercase(trim(query))
}

/// The nodes a search picks out: none for an empty query; otherwise those matching the
/// trimmed, lowercased query on the day `today` (an ISO date, `YYYY-MM-DD`).
pub fn search_matches(doc: &FlowchartDocument, query: &str, today: &str) -> (found: HashSet<NodeId>)
    ensures
        all_ascii(trim(query@)) ==> normalized_query(query@) == trim(query@).map_values(|c: char| ascii_lower(c)),
        query@.len() == 0 ==> found@.len() == 0,
        query@.len() > 0 ==> found@ == ids_where(
            doc.nodes@,
            doc.nodes@.len() as int,
            |n: Node| query_matches(n, is_connected(doc.edges@, n.id), normalized_query(query@), today@),
        ),
{
    let mut found: HashSet<NodeId> = HashSet::new();
    let t = chars_of(today);
    let qc = chars_of(query);
    let q = lower_chars(&trim_chars(&qc));
    if query.is_empty() {
        return found;
    }
    let ghost p = |n: Node| query_matches(n, is_connected(doc.edges@, n.id), normalized_query(query@), today@);
    for k in 0..doc.nodes.len()
        invariant
            q@ == normalized_query(query@),
            t@ == today@,
            p == (|n: Node| query_matches(n, is_connected(doc.edges@, n.id), normalized_query(query@), today@)),
            found@ == ids_where(doc.nodes@, k as int, p),
    {
        let node = &doc.nodes[k];
        let linked = has_edges(&doc.edges, node.id);
        let keep = node_matches_query(node, linked, &q, &t);
        if keep {
            found.insert(node.id);
        }
        proof {
            assert(keep == p(doc.nodes@[k as int]));
            assert forall|v: NodeId| #[trigger] found@.contains(v) <==> ids_where(doc.nodes@, k + 1, p).contains(v) by {
                if v == node.id && keep {
                    assert(doc.nodes@[k as int].id == v);
                }
                if ids_where(doc.nodes@, k + 1, p).contains(v) {
                    let i = choose|i: int| 0 <= i < k + 1 && #[trigger] doc.nodes@[i].id == v && p(doc.nodes@[i]);
                    if i < k {
                        assert(ids_where(doc.nodes@, k as int, p).contains(v));
                    }
                }
                if found@.contains(v) && !(v == node.id && keep) {
                    assert(ids_where(doc.nodes@, k as int, p).contains(v));
                    let i = choose|i: int| 0 <= i < k && #[trigger] doc.nodes@[i].id == v && p(doc.nodes@[i]);
                    assert(doc.nodes@[i].id == v);
                }
            }
            assert(found@ =~= ids_where(doc.nodes@, k + 1, p));
        }
    }
    found
}

/// A `status:` search for work in progress (`wip`, `in progress` or the arrows mark)
/// picks out exactly the nodes tagged in progress, whatever else they carry.
pub proof fn law_status_wip_is_in_progress(n: Node, linked: bool, today: Seq<char>)
    ensures
        status_matches(n, "wip"@) <==> n.tag == Some(NodeTag::Info),
        status_matches(n, "in progress"@) <==> n.tag == Some(NodeTag::Info),
        query_matches(n, linked, "status:wip"@, today) <==> n.tag == Some(NodeTag::Info),
{
    reveal_strlit("wip");
    reveal_strlit("in progress");
    reveal_strlit("done");
    reveal_strlit("\u{2705}");
    reveal_strlit("\u{1f504}");
    reveal_strlit("status:wip");
    reveal_strlit("status:");
    assert("in progress"@ != "done"@ && "in progress"@ != "\u{2705}"@ && "in progress"@ != "wip"@
        && "in progress"@ != "\u{1f504}"@) by {
        assert("in progress"@.len() == 11);
    }
    let q = "status:wip"@;
    assert(begins_with(q, "status:"@)) by {
        assert(q.subrange(0, 7) =~= "status:"@);
    }
    assert(after(q, 7) =~= "wip"@);
    assert(trim_start("wip"@) == "wip"@);
    assert(trim_end("wip"@) == "wip"@);
    assert(arg(q, "status:"@) == "wip"@);
}

/// Searching for `status:wip` finds exactly the nodes tagged in progress.
pub proof fn law_search_status_wip(doc: FlowchartDocument, today: Seq<char>, found: Set<NodeId>)
    requires
        all_ascii(trim("status:wip"@)) ==> normalized_query("status:wip"@) == trim("status:wip"@).map_values(
            |c: char| ascii_lower(c),
        ),
        found == ids_where(
            doc.nodes@,
            doc.nodes@.len() as int,
            |n: Node| query_matches(n, is_connected(doc.edges@, n.id), normalized_query("status:wip"@), today),
        ),
    ensures
        found == ids_where(doc.nodes@, doc.nodes@.len() as int, |n: Node| n.tag == Some(NodeTag::Info)),
{
    reveal_strlit("status:wip");
    let q = "status:wip"@;
    assert(trim_start(q) == q);
    assert(trim_end(q) == q);
    assert(all_ascii(q));
    assert(q.map_values(|c: char| ascii_lower(c)) =~= q);
    assert forall|n: Node| query_matches(n, is_connected(doc.edges@, n.id), q, today) <==> n.tag == Some(NodeTag::Info) by {
        law_status_wip_is_in_progress(n, is_connected(doc.edges@, n.id), today);
    }
    assert(found =~= ids_where(doc.nodes@, doc.nodes@.len() as int, |n: Node| n.tag == Some(NodeTag::Info)));
}

/// Each status word picks out the nodes of its status: `done` those tagged done, `todo`
/// those tagged to do and not yet half done, `review` those tagged to do and half done,
/// `blocked` those tagged blocked, `tagged` every tagged node and `untagged` the others.
pub proof fn law_status_words(n: Node)
    ensures
        status_matches(n, "done"@) <==> n.tag == Some(NodeTag::Done),
        status_matches(n, "todo"@) <==> n.tag == Some(NodeTag::Warning) && !n.half_done,
        status_matches(n, "pending"@) <==> n.tag == Some(NodeTag::Warning) && !n.half_done,
        status_matches(n, "review"@) <==> n.tag == Some(NodeTag::Warning) && n.half_done,
        status_matches(n, "blocked"@) <==> n.tag == Some(NodeTag::Critical),
        status_matches(n, "tagged"@) <==> n.tag.is_some(),
        status_matches(n, "untagged"@) <==> n.tag.is_none(),
        status_matches(n, "none"@) <==> n.tag.is_none(),
{
    reveal_strlit("done");
    reveal_strlit("\u{2705}");
    reveal_strlit("wip");
    reveal_strlit("\u{1f504}");
    reveal_strlit("in progress");
    reveal_strlit("todo");
    reveal_strlit("\u{1f4cb}");
    reveal_strlit("pending");
    reveal_strlit("review");
    reveal_strlit("\u{1f441}");
    reveal_strlit("blocked");
    reveal_strlit("\u{26d4}");
    reveal_strlit("tagged");
    reveal_strlit("none");
    reveal_strlit("untagged");
    let ws = seq!["done"@, "\u{2705}"@, "wip"@, "\u{1f504}"@, "in progress"@, "todo"@, "\u{1f4cb}"@, "pending"@, "review"@, "\u{1f441}"@, "blocked"@, "\u{26d4}"@, "tagged"@, "none"@, "untagged"@];
    assert(ws[0] == "done"@ && ws[1] == "\u{2705}"@ && ws[2] == "wip"@ && ws[3] == "\u{1f504}"@ && ws[4] == "in progress"@ && ws[5] == "todo"@ && ws[6] == "\u{1f4cb}"@ && ws[7] == "pending"@ && ws[8] == "review"@ && ws[9] == "\u{1f441}"@ && ws[10] == "blocked"@ && ws[11] == "\u{26d4}"@ && ws[12] == "tagged"@ && ws[13] == "none"@ && ws[14] == "untagged"@);
    assert forall|a: int, b: int| 0 <= a < 15 && 0 <= b < 15 && a != b implies #[trigger] ws[a] != #[trigger] ws[b] by {
        if ws[a].len() == ws[b].len() {
            assert(ws[a][0] != ws[b][0]);
        }
    }
}

} // verus!
