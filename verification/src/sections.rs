//! Per-section summaries: the order of sections and their progress counts.
use vstd::prelude::*;
use crate::model::{FlowchartDocument, Node, NodeTag};
use crate::text::{chars_le, chars_of, lemma_lex_antisymmetric, lemma_lex_total, lemma_lex_transitive, lex_le, str_eq};

verus! {

/// The distinct non-empty section names of `nodes`, in order of first occurrence.
pub open spec fn section_order_spec(nodes: Seq<Node>) -> Seq<Seq<char>>
    decreases nodes.len(),
{
    if nodes.len() == 0 {
        Seq::empty()
    } else {
        let acc = section_order_spec(nodes.drop_last());
        let s = nodes.last().section_name@;
        if s.len() > 0 && !acc.contains(s) {
            acc.push(s)
        } else {
            acc
        }
    }
}

/// The distinct non-empty section names of the document, in order of first occurrence.
pub fn section_order(doc: &FlowchartDocument) -> (names: Vec<String>)
    ensures
        names@.map_values(|s: String| s@) == section_order_spec(doc.nodes@),
{
    let mut names: Vec<String> = Vec::new();
    for k in 0..doc.nodes.len()
        invariant
            names@.map_values(|s: String| s@) == section_order_spec(doc.nodes@.take(k as int)),
    {
        let ghost acc = names@.map_values(|s: String| s@);
        let name = &doc.nodes[k].section_name;
        let mut known = name.as_str().is_empty();
        let mut t: usize = 0;
        while t < names.len() && !known
            invariant
                0 <= t <= names@.len(),
                acc == names@.map_values(|s: String| s@),
                known <==> (name@.len() == 0 || exists|u: int| 0 <= u < t && acc[u] == name@),
            decreases names@.len() - t,
        {
            let same = str_eq(names[t].as_str(), name.as_str());
            assert(acc[t as int] == names@[t as int]@);
            if same {
                known = true;
            }
            proof {
                if (exists|u: int| 0 <= u < t + 1 && acc[u] == name@) && !same {
                    let u = choose|u: int| 0 <= u < t + 1 && acc[u] == name@;
                    assert(u < t);
                }
            }
            t = t + 1;
        }
        proof {
            let pre = doc.nodes@.take(k + 1);
            assert(pre.drop_last() =~= doc.nodes@.take(k as int));
            assert(pre.last() == doc.nodes@[k as int]);
            if known && name@.len() > 0 {
                let u = choose|u: int| 0 <= u < t && acc[u] == name@;
                assert(acc.contains(name@));
            }
            if !known {
                assert(!acc.contains(name@));
            }
        }
        if !known {
            names.push(name.clone());
            proof {
                assert(names@.map_values(|s: String| s@) =~= acc.push(name@));
            }
        }
    }
    assert(doc.nodes@.take(doc.nodes@.len() as int) =~= doc.nodes@);
    names
}

/// The status counts of one section: done, in progress, in review, blocked, and all nodes.
#[derive(Debug, Clone)]
pub struct SectionProgress {
    pub name: String,
    pub done: usize,
    pub wip: usize,
    pub review: usize,
    pub blocked: usize,
    pub total: usize,
}

/// One node's contribution to its section's counts: (done, in progress, in review, blocked).
pub open spec fn contribution(n: Node) -> (nat, nat, nat, nat) {
    (
        if n.tag == Some(NodeTag::Done) { 1 } else { 0 },
        if n.tag == Some(NodeTag::Info) { 1 } else { 0 },
        if n.tag == Some(NodeTag::Warning) && n.half_done { 1 } else { 0 },
        if n.tag == Some(NodeTag::Critical) { 1 } else { 0 },
    )
}

/// The counts (done, in progress, in review, blocked, total) of the section `name` among
/// the first `k` nodes.
pub open spec fn tally(nodes: Seq<Node>, k: int, name: Seq<char>) -> (nat, nat, nat, nat, nat)
    decreases k,
{
    if k <= 0 {
        (0, 0, 0, 0, 0)
    } else {
        let t = tally(nodes, k - 1, name);
        let n = nodes[k - 1];
        if n.section_name@ == name {
            let c = contribution(n);
            (t.0 + c.0, t.1 + c.1, t.2 + c.2, t.3 + c.3, t.4 + 1)
        } else {
            t
        }
    }
}

/// A row's counts as plain numbers.
pub open spec fn row_counts(r: SectionProgress) -> (nat, nat, nat, nat, nat) {
    (r.done as nat, r.wip as nat, r.review as nat, r.blocked as nat, r.total as nat)
}

/// Whether some of the first `k` nodes is in the section `s` (a non-empty name).
pub open spec fn has_section(nodes: Seq<Node>, k: int, s: Seq<char>) -> bool {
    s.len() > 0 && exists|t: int| 0 <= t < k && #[trigger] nodes[t].section_name@ == s
}

proof fn lemma_tally_absent(nodes: Seq<Node>, k: int, name: Seq<char>)
    requires
        0 <= k <= nodes.len(),
        forall|t: int| 0 <= t < k ==> #[trigger] nodes[t].section_name@ != name,
    ensures
        tally(nodes, k, name) == (0nat, 0nat, 0nat, 0nat, 0nat),
    decreases k,
{
    if k > 0 {
        lemma_tally_absent(nodes, k - 1, name);
    }
}

proof fn lemma_tally_bound(nodes: Seq<Node>, k: int, name: Seq<char>)
    requires
        0 <= k <= nodes.len(),
    ensures
        tally(nodes, k, name).0 <= k && tally(nodes, k, name).1 <= k && tally(nodes, k, name).2 <= k
            && tally(nodes, k, name).3 <= k && tally(nodes, k, name).4 <= k,
    decreases k,
{
    if k > 0 {
        lemma_tally_bound(nodes, k - 1, name);
    }
}

/// Whether the rows' names are strictly increasing.
pub open spec fn names_ascending(rows: Seq<SectionProgress>) -> bool {
    forall|i: int, j: int|
        0 <= i < j < rows.len() ==> lex_le(#[trigger] rows[i].name@, #[trigger] rows[j].name@)
            && rows[i].name@ != rows[j].name@
}

/// The status counts of every non-empty section, one row per section, sorted by name.
/// Every row names a section of the first `k` nodes.
pub open spec fn rows_named_from(rows: Seq<SectionProgress>, nodes: Seq<Node>, k: int) -> bool {
    forall|i: int| 0 <= i < rows.len() ==> has_section(nodes, k, #[trigger] rows[i].name@)
}

/// Every section of the first `k` nodes has a row.
pub open spec fn rows_cover(rows: Seq<SectionProgress>, nodes: Seq<Node>, k: int) -> bool {
    forall|t: int|
        0 <= t < k && #[trigger] nodes[t].section_name@.len() > 0 ==> exists|i: int|
            0 <= i < rows.len() && rows[i].name@ == nodes[t].section_name@
}

/// The status counts of every non-empty section, one row per section, sorted by name.
pub fn section_progress(doc: &FlowchartDocument) -> (rows: Vec<SectionProgress>)
    ensures
        names_ascending(rows@),
        forall|s: Seq<char>|
            (exists|i: int| 0 <= i < rows@.len() && #[trigger] rows@[i].name@ == s) <==> has_section(
                doc.nodes@,
                doc.nodes@.len() as int,
                s,
            ),
        forall|i: int|
            0 <= i < rows@.len() ==> row_counts(#[trigger] rows@[i]) == tally(
                doc.nodes@,
                doc.nodes@.len() as int,
                rows@[i].name@,
            ),
{
    let mut rows: Vec<SectionProgress> = Vec::new();
    for k in 0..doc.nodes.len()
        invariant
            names_ascending(rows@),
            rows_named_from(rows@, doc.nodes@, k as int),
            rows_cover(rows@, doc.nodes@, k as int),
            forall|i: int|
                0 <= i < rows@.len() ==> row_counts(#[trigger] rows@[i]) == tally(
                    doc.nodes@,
                    k as int,
                    rows@[i].name@,
                ),
    {
        let node = &doc.nodes[k];
        let name = &node.section_name;
        let ghost old_rows = rows@;
        let ghost k1: int = k + 1;
        proof {
            assert forall|i: int| 0 <= i < rows@.len() implies row_counts(#[trigger] rows@[i]).4 <= k by {
                lemma_tally_bound(doc.nodes@, k as int, rows@[i].name@);
            }
            lemma_tally_bound(doc.nodes@, k as int, name@);
        }
        if !name.as_str().is_empty() {
            let nc = chars_of(name.as_str());
            let mut j: usize = 0;
            let mut found = false;
            let mut past = false;
            while j < rows.len() && !found && !past
                invariant
                    0 <= j <= rows@.len(),
                    rows@ == old_rows,
                    nc@ == name@,
                    !(found && past),
                    found ==> j < rows@.len() && rows@[j as int].name@ == name@,
                    past ==> j < rows@.len() && !lex_le(rows@[j as int].name@, name@),
                    !found ==> forall|t: int| 0 <= t < j ==> lex_le(#[trigger] rows@[t].name@, name@) && rows@[t].name@ != name@,
                decreases rows@.len() - j + if found || past { 0int } else { 1int },
            {
                let rc = chars_of(rows[j].name.as_str());
                if str_eq(rows[j].name.as_str(), name.as_str()) {
                    found = true;
                } else if chars_le(&rc, &nc) {
                    j = j + 1;
                } else {
                    past = true;
                }
            }
            let c_done: usize = if node.tag == Some(NodeTag::Done) { 1 } else { 0 };
            let c_wip: usize = if node.tag == Some(NodeTag::Info) { 1 } else { 0 };
            let c_review: usize = if node.tag == Some(NodeTag::Warning) && node.half_done { 1 } else { 0 };
            let c_blocked: usize = if node.tag == Some(NodeTag::Critical) { 1 } else { 0 };
            if found {
                let r = &rows[j];
                assert(row_counts(rows@[j as int]) == tally(doc.nodes@, k as int, name@));
                let updated = SectionProgress {
                    name: r.name.clone(),
                    done: r.done + c_done,
                    wip: r.wip + c_wip,
                    review: r.review + c_review,
                    blocked: r.blocked + c_blocked,
                    total: r.total + 1,
                };
                let ghost upd = updated;
                rows.set(j, updated);
                proof {
                    assert(rows@ == old_rows.update(j as int, upd));
                    assert forall|i: int| 0 <= i < rows@.len() implies #[trigger] rows@[i].name@ == old_rows[i].name@ by {
                        if i != j {
                            assert(rows@[i] == old_rows[i]);
                        }
                    }
                    assert forall|i: int, i2: int| 0 <= i < i2 < rows@.len() implies lex_le(#[trigger] rows@[i].name@, #[trigger] rows@[i2].name@)
                        && rows@[i].name@ != rows@[i2].name@ by {
                        assert(old_rows[i].name@ == rows@[i].name@);
                        assert(old_rows[i2].name@ == rows@[i2].name@);
                    }
                    lemma_named_grows(rows@, doc.nodes@, k as int);
                    assert forall|t: int| 0 <= t < k1 && #[trigger] doc.nodes@[t].section_name@.len() > 0 implies exists|i: int|
                        0 <= i < rows@.len() && rows@[i].name@ == doc.nodes@[t].section_name@ by {
                        if t < k {
                            let i = choose|i: int| 0 <= i < old_rows.len() && old_rows[i].name@ == doc.nodes@[t].section_name@;
                            assert(rows@[i].name@ == old_rows[i].name@);
                        } else {
                            assert(rows@[j as int].name@ == name@);
                        }
                    }
                    assert forall|i: int| 0 <= i < rows@.len() implies row_counts(#[trigger] rows@[i]) == tally(doc.nodes@, k + 1, rows@[i].name@) by {
                        if i != j {
                            assert(rows@[i] == old_rows[i]);
                        }
                    }
                }
            } else {
                proof {
                    assert forall|t: int| 0 <= t < k implies #[trigger] doc.nodes@[t].section_name@ != name@ by {
                        if doc.nodes@[t].section_name@ == name@ {
                            let i = choose|i: int| 0 <= i < old_rows.len() && old_rows[i].name@ == doc.nodes@[t].section_name@;
                            if i >= j {
                                assert(j < old_rows.len());
                                assert(!lex_le(old_rows[j as int].name@, name@));
                                lemma_lex_total(old_rows[j as int].name@, name@);
                                if i > j {
                                    assert(lex_le(old_rows[j as int].name@, old_rows[i].name@));
                                }
                            }
                        }
                    }
                    lemma_tally_absent(doc.nodes@, k as int, name@);
                }
                let fresh = SectionProgress {
                    name: name.clone(),
                    done: c_done,
                    wip: c_wip,
                    review: c_review,
                    blocked: c_blocked,
                    total: 1,
                };
                let ghost fr = fresh;
                rows.insert(j, fresh);
                proof {
                    assert(rows@ == old_rows.insert(j as int, fr));
                    assert forall|i: int, i2: int| 0 <= i < i2 < rows@.len() implies lex_le(#[trigger] rows@[i].name@, #[trigger] rows@[i2].name@)
                        && rows@[i].name@ != rows@[i2].name@ by {
                        if i2 < j {
                            assert(rows@[i] == old_rows[i] && rows@[i2] == old_rows[i2]);
                        } else if i2 == j {
                            assert(rows@[i] == old_rows[i]);
                        } else if i == j {
                            assert(rows@[i2] == old_rows[i2 - 1]);
                            assert(!lex_le(old_rows[j as int].name@, name@));
                            lemma_lex_total(old_rows[j as int].name@, name@);
                            if i2 - 1 > j {
                                lemma_lex_transitive(name@, old_rows[j as int].name@, old_rows[i2 - 1].name@);
                                if name@ == old_rows[i2 - 1].name@ {
                                    lemma_lex_antisymmetric(old_rows[j as int].name@, name@);
                                }
                            }
                        } else if i < j {
                            assert(rows@[i] == old_rows[i] && rows@[i2] == old_rows[i2 - 1]);
                            if i < i2 - 1 {
                                assert(lex_le(old_rows[i].name@, old_rows[i2 - 1].name@));
                            }
                        } else {
                            assert(rows@[i] == old_rows[i - 1] && rows@[i2] == old_rows[i2 - 1]);
                        }
                    }
                    assert forall|i: int| 0 <= i < rows@.len() implies has_section(doc.nodes@, k1, #[trigger] rows@[i].name@) by {
                        if i == j {
                            assert(doc.nodes@[k as int].section_name@ == rows@[i].name@);
                        } else {
                            let oi = if i < j { i } else { i - 1 };
                            assert(rows@[i] == old_rows[oi]);
                            assert(has_section(doc.nodes@, k as int, old_rows[oi].name@));
                            let t = choose|t: int| 0 <= t < k && #[trigger] doc.nodes@[t].section_name@ == old_rows[oi].name@;
                            assert(doc.nodes@[t].section_name@ == rows@[i].name@);
                        }
                    }
                    assert forall|t: int| 0 <= t < k1 && #[trigger] doc.nodes@[t].section_name@.len() > 0 implies exists|i: int|
                        0 <= i < rows@.len() && rows@[i].name@ == doc.nodes@[t].section_name@ by {
                        if t < k {
                            let i = choose|i: int| 0 <= i < old_rows.len() && old_rows[i].name@ == doc.nodes@[t].section_name@;
                            let ni = if i < j { i } else { i + 1 };
                            assert(rows@[ni] == old_rows[i]);
                        } else {
                            assert(rows@[j as int].name@ == name@);
                        }
                    }
                    assert forall|i: int| 0 <= i < rows@.len() implies row_counts(#[trigger] rows@[i]) == tally(doc.nodes@, k + 1, rows@[i].name@) by {
                        if i < j {
                            assert(rows@[i] == old_rows[i]);
                        } else if i > j {
                            assert(rows@[i] == old_rows[i - 1]);
                        }
                    }
                }
            }
        } else {
            proof {
                lemma_named_grows(rows@, doc.nodes@, k as int);
                assert forall|t: int| 0 <= t < k1 && #[trigger] doc.nodes@[t].section_name@.len() > 0 implies exists|i: int|
                    0 <= i < rows@.len() && rows@[i].name@ == doc.nodes@[t].section_name@ by {
                    assert(t < k);
                }
            }
        }
    }
    proof {
        let n = doc.nodes@.len() as int;
        assert forall|s: Seq<char>|
            (exists|i: int| 0 <= i < rows@.len() && #[trigger] rows@[i].name@ == s) <==> has_section(doc.nodes@, n, s) by {
            if has_section(doc.nodes@, n, s) {
                let t = choose|t: int| 0 <= t < n && #[trigger] doc.nodes@[t].section_name@ == s;
                assert(doc.nodes@[t].section_name@.len() > 0);
            }
        }
    }
    rows
}

proof fn lemma_named_grows(rows: Seq<SectionProgress>, nodes: Seq<Node>, k: int)
    requires
        rows_named_from(rows, nodes, k),
        0 <= k < nodes.len(),
    ensures
        rows_named_from(rows, nodes, k + 1),
{
    assert forall|i: int| 0 <= i < rows.len() implies has_section(nodes, k + 1, #[trigger] rows[i].name@) by {
        assert(has_section(nodes, k, rows[i].name@));
        let t = choose|t: int| 0 <= t < k && #[trigger] nodes[t].section_name@ == rows[i].name@;
        assert(nodes[t].section_name@ == rows[i].name@);
    }
}

} // verus!
