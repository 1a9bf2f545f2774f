//! The floating action bar's one-click cycles: a node's status and its support-workflow
//! section, and the owner chip that filters by owner.
use vstd::prelude::*;
use crate::edits::{find_node_index, first_with_id};
use crate::model::{FlowchartDocument, Node, NodeId, NodeTag};
use crate::text::{after, begins_with, chars_of, first_line_after, line_after_prefix, push_all, str_eq, trim, trimmed};

verus! {

/// A node's status as the bar cycles it: its tag, whether its progress has reached one
/// half, and whether it is complete.
pub struct Status {
    pub tag: Option<NodeTag>,
    pub half_done: bool,
    pub finished: bool,
}

/// The status after a click on the status badge: none, to do, in progress, in review, done,
/// blocked, and none again. Progress is reset to nothing, set to one half, three quarters
/// and complete along the way.
pub open spec fn next_status(tag: Option<NodeTag>, half_done: bool) -> (Option<NodeTag>, bool, bool) {
    match tag {
        None => (Some(NodeTag::Warning), false, false),
        Some(NodeTag::Warning) => if !half_done {
            (Some(NodeTag::Info), true, false)
        } else {
            (Some(NodeTag::Done), true, true)
        },
        Some(NodeTag::Info) => (Some(NodeTag::Warning), true, false),
        Some(NodeTag::Done) => (Some(NodeTag::Critical), false, false),
        Some(NodeTag::Critical) => (None, false, false),
    }
}

/// Whether every node in `section` is tagged done, and there is one.
pub open spec fn all_done(nodes: Seq<Node>, section: Seq<char>) -> bool {
    &&& exists|i: int| 0 <= i < nodes.len() && #[trigger] nodes[i].section_name@ == section
    &&& forall|i: int| 0 <= i < nodes.len() && #[trigger] nodes[i].section_name@ == section ==> nodes[i].tag == Some(NodeTag::Done)
}

/// The status message after cycling a node in `section`: a celebration when every node of
/// that (non-empty) section is now done.
pub open spec fn status_message(nodes: Seq<Node>, section: Seq<char>) -> Seq<char> {
    if section.len() > 0 && all_done(nodes, section) {
        "\u{1f389} All done in \""@ + section + "\"!"@
    } else {
        "Status updated"@
    }
}

/// Whether every node in `section` is tagged done, and there is one.
fn every_done(nodes: &Vec<Node>, section: &str) -> (r: bool)
    ensures
        r == all_done(nodes@, section@),
{
    let mut any = false;
    let mut k: usize = 0;
    while k < nodes.len()
        invariant
            0 <= k <= nodes@.len(),
            any == exists|i: int| 0 <= i < k && #[trigger] nodes@[i].section_name@ == section@,
            forall|i: int| 0 <= i < k && #[trigger] nodes@[i].section_name@ == section@ ==> nodes@[i].tag == Some(NodeTag::Done),
        decreases nodes@.len() - k,
    {
        if str_eq(nodes[k].section_name.as_str(), section) {
            if nodes[k].tag != Some(NodeTag::Done) {
                return false;
            }
            any = true;
        }
        k = k + 1;
    }
    any
}

/// Cycles the status of the first node with identifier `id` and returns the status message;
/// nothing happens, and `None` is returned, when no node has it.
pub fn cycle_status(doc: &mut FlowchartDocument, id: NodeId) -> (msg: Option<String>)
    ensures
        final(doc).edges@ == old(doc).edges@,
        final(doc).nodes@.len() == old(doc).nodes@.len(),
        match msg {
            None => final(doc).nodes@ == old(doc).nodes@ && forall|i: int| 0 <= i < old(doc).nodes@.len() ==> #[trigger] old(doc).nodes@[i].id != id,
            Some(m) => exists|i: int|
                0 <= i < old(doc).nodes@.len() && old(doc).nodes@[i].id == id && first_with_id(old(doc).nodes@, i) && {
                    let n = old(doc).nodes@[i];
                    let s = next_status(n.tag, n.half_done);
                    &&& #[trigger] final(doc).nodes@ == old(doc).nodes@.update(i, Node { tag: s.0, half_done: s.1, finished: s.2, ..n })
                    &&& m@ == status_message(final(doc).nodes@, n.section_name@)
                },
        },
{
    match find_node_index(&doc.nodes, id) {
        None => None,
        Some(i) => {
            let ghost before = doc.nodes@;
            let (tag, half, fin) = match doc.nodes[i].tag {
                None => (Some(NodeTag::Warning), false, false),
                Some(NodeTag::Warning) => {
                    if !doc.nodes[i].half_done {
                        (Some(NodeTag::Info), true, false)
                    } else {
                        (Some(NodeTag::Done), true, true)
                    }
                },
                Some(NodeTag::Info) => (Some(NodeTag::Warning), true, false),
                Some(NodeTag::Done) => (Some(NodeTag::Critical), false, false),
                Some(NodeTag::Critical) => (None, false, false),
            };
            let mut taken = Node::new(0, crate::model::NodeKind::Text, String::new());
            std::mem::swap(&mut doc.nodes[i], &mut taken);
            taken.tag = tag;
            taken.half_done = half;
            taken.finished = fin;
            let section = taken.section_name.clone();
            doc.nodes.set(i, taken);
            let m = if !section.as_str().is_empty() && every_done(&doc.nodes, section.as_str()) {
                let mut m = String::new();
                push_all(&mut m, "\u{1f389} All done in \"");
                push_all(&mut m, section.as_str());
                push_all(&mut m, "\"!");
                m
            } else {
                "Status updated".to_owned()
            };
            assert(doc.nodes@ == before.update(i as int, Node { tag: tag, half_done: half, finished: fin, ..before[i as int] }));
            Some(m)
        },
    }
}

/// Cycling the status of a node that starts with none comes back to none, with no
/// progress, after six clicks, passing through each of the five statuses.
pub proof fn law_status_cycle_returns()
    ensures
        ({
            let s1 = next_status(None, false);
            let s2 = next_status(s1.0, s1.1);
            let s3 = next_status(s2.0, s2.1);
            let s4 = next_status(s3.0, s3.1);
            let s5 = next_status(s4.0, s4.1);
            let s6 = next_status(s5.0, s5.1);
            &&& s1 == (Some(NodeTag::Warning), false, false)
            &&& s2 == (Some(NodeTag::Info), true, false)
            &&& s3 == (Some(NodeTag::Warning), true, false)
            &&& s4 == (Some(NodeTag::Done), true, true)
            &&& s5 == (Some(NodeTag::Critical), false, false)
            &&& s6 == (None::<NodeTag>, false, false)
        }),
{
}

/// Whatever its status, a node reaches "none" within six clicks.
pub proof fn law_status_cycle_reaches_none(tag: Option<NodeTag>, half_done: bool)
    ensures
        ({
            let s1 = next_status(tag, half_done);
            let s2 = next_status(s1.0, s1.1);
            let s3 = next_status(s2.0, s2.1);
            let s4 = next_status(s3.0, s3.1);
            let s5 = next_status(s4.0, s4.1);
            let s6 = next_status(s5.0, s5.1);
            s1.0.is_none() || s2.0.is_none() || s3.0.is_none() || s4.0.is_none() || s5.0.is_none() || s6.0.is_none()
        }),
{
}

/// The support-workflow stages the section pill steps through.
pub open spec fn stages() -> Seq<Seq<char>> {
    seq!["Intake"@, "Triage"@, "In Progress"@, "Resolved"@, "Escalated"@, "Closed"@]
}

/// The section after a click on the section pill: `Intake` from none, the next stage from a
/// stage, and none after the last stage or from a section that is not a stage.
pub open spec fn next_section(current: Seq<char>) -> Seq<char> {
    if current.len() == 0 {
        "Intake"@
    } else if exists|i: int| 0 <= i < 6 && #[trigger] stages()[i] == current {
        let i = choose|i: int| 0 <= i < 6 && stages()[i] == current;
        if i + 1 < 6 { stages()[i + 1] } else { Seq::empty() }
    } else {
        Seq::empty()
    }
}

/// The section after a click on the section pill.
pub fn next_section_name(current: &str) -> (r: String)
    ensures
        r@ == next_section(current@),
{
    proof {
        reveal_strlit("Intake");
        reveal_strlit("Triage");
        reveal_strlit("In Progress");
        reveal_strlit("Resolved");
        reveal_strlit("Escalated");
        reveal_strlit("Closed");
    }
    if current.is_empty() {
        return "Intake".to_owned();
    }
    let names: [&str; 6] = ["Intake", "Triage", "In Progress", "Resolved", "Escalated", "Closed"];
    assert(names@.map_values(|s: &str| s@) =~= stages());
    let mut k: usize = 0;
    while k < 6
        invariant
            0 <= k <= 6,
            names@.map_values(|s: &str| s@) == stages(),
            forall|j: int| 0 <= j < k ==> stages()[j] != current@,
        decreases 6 - k,
    {
        assert(names@.map_values(|s: &str| s@)[k as int] == names@[k as int]@);
        if str_eq(names[k], current) {
            proof {
                lemma_stages_distinct();
                lemma_stage_step(k as int);
            }
            if k + 1 < 6 {
                assert(names@.map_values(|s: &str| s@)[k + 1] == names@[k + 1]@);
                return names[k + 1].to_owned();
            } else {
                return String::new();
            }
        }
        k = k + 1;
    }
    String::new()
}

/// The status message after cycling a node's section to `next`.
pub open spec fn section_cycle_message(next: Seq<char>) -> Seq<char> {
    if next.len() == 0 { "Section cleared"@ } else { "\u{2192} "@ + next }
}

/// Cycles the section of the first node with identifier `id` and returns the status
/// message; `None`, with nothing changed, when no node has it.
pub fn cycle_section(doc: &mut FlowchartDocument, id: NodeId) -> (msg: Option<String>)
    ensures
        final(doc).edges@ == old(doc).edges@,
        final(doc).nodes@.len() == old(doc).nodes@.len(),
        match msg {
            None => final(doc).nodes@ == old(doc).nodes@ && forall|i: int| 0 <= i < old(doc).nodes@.len() ==> #[trigger] old(doc).nodes@[i].id != id,
            Some(m) => exists|i: int|
                0 <= i < old(doc).nodes@.len() && old(doc).nodes@[i].id == id && first_with_id(old(doc).nodes@, i) && {
                    let n = old(doc).nodes@[i];
                    let next = next_section(n.section_name@);
                    &&& (#[trigger] final(doc).nodes@[i]).section_name@ == next
                    &&& final(doc).nodes@ == old(doc).nodes@.update(i, Node { section_name: final(doc).nodes@[i].section_name, ..n })
                    &&& m@ == section_cycle_message(next)
                },
        },
{
    match find_node_index(&doc.nodes, id) {
        None => None,
        Some(i) => {
            let ghost before = doc.nodes@;
            let next = next_section_name(doc.nodes[i].section_name.as_str());
            let m = if next.as_str().is_empty() {
                "Section cleared".to_owned()
            } else {
                let mut m = String::new();
                push_all(&mut m, "\u{2192} ");
                push_all(&mut m, next.as_str());
                m
            };
            let mut taken = Node::new(0, crate::model::NodeKind::Text, String::new());
            std::mem::swap(&mut doc.nodes[i], &mut taken);
            taken.section_name = next;
            let ghost t = taken;
            doc.nodes.set(i, taken);
            assert(doc.nodes@ == before.update(i as int, Node { section_name: t.section_name, ..before[i as int] }));
            assert(doc.nodes@[i as int].section_name@ == next_section(before[i as int].section_name@));
            assert(doc.nodes@ == old(doc).nodes@.update(i as int, Node { section_name: doc.nodes@[i as int].section_name, ..old(doc).nodes@[i as int] }));
            Some(m)
        },
    }
}

/// Clicking the section pill seven times from no section comes back to no section, after
/// stepping through every stage in order.
pub proof fn law_section_cycle_returns()
    ensures
        ({
            let s1 = next_section(Seq::empty());
            let s2 = next_section(s1);
            let s3 = next_section(s2);
            let s4 = next_section(s3);
            let s5 = next_section(s4);
            let s6 = next_section(s5);
            let s7 = next_section(s6);
            &&& s1 == stages()[0] && s2 == stages()[1] && s3 == stages()[2]
            &&& s4 == stages()[3] && s5 == stages()[4] && s6 == stages()[5]
            &&& s7 == Seq::<char>::empty()
        }),
{
    lemma_stages_distinct();
    lemma_stage_step(0);
    lemma_stage_step(1);
    lemma_stage_step(2);
    lemma_stage_step(3);
    lemma_stage_step(4);
    lemma_stage_step(5);
}

/// The stages are distinct and none is empty.
proof fn lemma_stages_distinct()
    ensures
        forall|t: int| 0 <= t < 6 ==> #[trigger] stages()[t].len() > 0 && (forall|j: int| 0 <= j < 6 && j != t ==> stages()[j] != stages()[t]),
{
    reveal_strlit("Intake");
    reveal_strlit("Triage");
    reveal_strlit("In Progress");
    reveal_strlit("Resolved");
    reveal_strlit("Escalated");
    reveal_strlit("Closed");
    assert forall|k: int| 0 <= k < 6 implies #[trigger] stages()[k].len() > 0 && (forall|j: int| 0 <= j < 6 && j != k ==> stages()[j] != stages()[k]) by {
        assert forall|j: int| 0 <= j < 6 && j != k implies stages()[j] != stages()[k] by {
            if stages()[j] == stages()[k] {
                assert(stages()[j].len() == stages()[k].len());
                assert(stages()[j][0] == stages()[k][0]);
                assert(stages()[j][1] == stages()[k][1]);
            }
        }
    }
}

proof fn lemma_stage_step(k: int)
    requires
        0 <= k < 6,
        forall|t: int| 0 <= t < 6 ==> #[trigger] stages()[t].len() > 0 && (forall|j: int| 0 <= j < 6 && j != t ==> stages()[j] != stages()[t]),
    ensures
        next_section(stages()[k]) == if k + 1 < 6 { stages()[k + 1] } else { Seq::<char>::empty() },
{
    assert(stages()[k].len() > 0);
    let i = choose|i: int| 0 <= i < 6 && stages()[i] == stages()[k];
    assert(i == k);
}

/// The owner line shown on the bar's owner chip: the first sublabel line starting with `👤 `.
pub open spec fn owner_line(s: Seq<char>) -> Option<Seq<char>> {
    match first_line_after(s, "\u{1f464} "@) {
        Some(rest) => Some("\u{1f464} "@ + rest),
        None => None,
    }
}

/// The search after a click on the owner chip showing `line`: `assigned:` and the owner's
/// name, pinned, with the message naming the line.
pub open spec fn owner_chip_click(line: Seq<char>) -> (Seq<char>, Seq<char>) {
    let name = if begins_with(line, "\u{1f464} "@) { trim(after(line, 2)) } else { trim(line) };
    ("assigned:"@ + name, "Filtering: "@ + line)
}

/// The owner chip's line for a sublabel, if it has one.
pub fn owner_chip(sublabel: &str) -> (r: Option<String>)
    ensures
        match r {
            Some(l) => owner_line(sublabel@) == Some(l@),
            None => owner_line(sublabel@).is_none(),
        },
{
    let cs = chars_of(sublabel);
    let mark = chars_of("\u{1f464} ");
    match line_after_prefix(&cs, &mark) {
        Some(rest) => {
            let mut l = String::new();
            push_all(&mut l, "\u{1f464} ");
            let mut k: usize = 0;
            let ghost base = l@;
            while k < rest.len()
                invariant
                    0 <= k <= rest@.len(),
                    l@ == base + rest@.take(k as int),
                decreases rest@.len() - k,
            {
                l.push(rest[k]);
                assert(rest@.take(k + 1) =~= rest@.take(k as int).push(rest@[k as int]));
                k = k + 1;
            }
            assert(rest@.take(rest@.len() as int) =~= rest@);
            Some(l)
        },
        None => None,
    }
}

/// The pinned query and the message after a click on the owner chip showing `line`.
pub fn click_owner_chip(line: &str) -> (r: (String, String))
    ensures
        (r.0@, r.1@) == owner_chip_click(line@),
{
    let cs = chars_of(line);
    let mark = chars_of("\u{1f464} ");
    let name = if crate::text::chars_begin_with(&cs, &mark) {
        proof {
            reveal_strlit("\u{1f464} ");
        }
        let rest = crate::text::slice_chars(&cs, 2, cs.len());
        trimmed(&rest)
    } else {
        trimmed(&cs)
    };
    let mut query = String::new();
    push_all(&mut query, "assigned:");
    push_all(&mut query, name.as_str());
    let mut message = String::new();
    push_all(&mut message, "Filtering: ");
    push_all(&mut message, line);
    (query, message)
}

/// The text of the bar's section pill: `§`, or `§ ` and the first twelve characters of the
/// section.
pub open spec fn section_pill_label(section: Seq<char>) -> Seq<char> {
    if section.len() == 0 {
        "\u{a7}"@
    } else {
        "\u{a7} "@ + (if section.len() > 12 { section.take(12) } else { section })
    }
}

/// The text of the bar's section pill.
pub fn section_pill_text(section: &str) -> (s: String)
    ensures
        s@ == section_pill_label(section@),
{
    if section.is_empty() {
        return "\u{a7}".to_owned();
    }
    let mut s = String::new();
    push_all(&mut s, "\u{a7} ");
    let cs = chars_of(section);
    let stop: usize = if cs.len() > 12 { 12 } else { cs.len() };
    let ghost base = s@;
    let mut k: usize = 0;
    while k < stop
        invariant
            0 <= k <= stop <= cs@.len(),
            s@ == base + cs@.take(k as int),
        decreases stop - k,
    {
        s.push(cs[k]);
        assert(cs@.take(k + 1) =~= cs@.take(k as int).push(cs@[k as int]));
        k = k + 1;
    }
    assert(cs@.take(cs@.len() as int) =~= cs@);
    s
}

} // verus!
