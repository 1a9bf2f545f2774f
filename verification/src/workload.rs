//! The workload table: how many nodes each owner has in each section.
//!
//! A node's owner is named on the first line of its sublabel that starts with `👤 `;
//! a node without one counts as `Unassigned`.
use vstd::prelude::*;
use crate::model::{FlowchartDocument, Node};
use crate::sections::{section_order, section_order_spec};
use crate::sorted::{ascending, insert_sorted, texts};
use crate::text::{chars_of, first_line_after, line_after_prefix, str_eq, trim, trimmed};

verus! {

/// The owner of node `n`: the trimmed rest of the first sublabel line that starts with
/// `👤 `, or `Unassigned`.
pub open spec fn owner_of(n: Node) -> Seq<char> {
    match first_line_after(n.sublabel@, "\u{1f464} "@) {
        Some(a) => trim(a),
        None => "Unassigned"@,
    }
}

/// The owner of node `n`.
pub fn node_owner(n: &Node) -> (r: String)
    ensures
        r@ == owner_of(*n),
{
    let s = chars_of(n.sublabel.as_str());
    let mark = chars_of("\u{1f464} ");
    match line_after_prefix(&s, &mark) {
        Some(rest) => trimmed(&rest),
        None => "Unassigned".to_owned(),
    }
}

/// The number of the first `k` nodes owned by `who` in the section `section`.
pub open spec fn owned_in(nodes: Seq<Node>, k: int, who: Seq<char>, section: Seq<char>) -> nat
    decreases k,
{
    if k <= 0 {
        0
    } else {
        owned_in(nodes, k - 1, who, section) + if owner_of(nodes[k - 1]) == who && nodes[k - 1].section_name@ == section {
            1nat
        } else {
            0nat
        }
    }
}

/// The number of the first `k` nodes owned by `who` that are in some section.
pub open spec fn owned_in_sections(nodes: Seq<Node>, k: int, who: Seq<char>) -> nat
    decreases k,
{
    if k <= 0 {
        0
    } else {
        owned_in_sections(nodes, k - 1, who) + if owner_of(nodes[k - 1]) == who && nodes[k - 1].section_name@.len() > 0 {
            1nat
        } else {
            0nat
        }
    }
}

/// Whether some of the first `k` nodes is owned by `who`.
pub open spec fn owns_some(nodes: Seq<Node>, k: int, who: Seq<char>) -> bool {
    exists|i: int| 0 <= i < k && owner_of(#[trigger] nodes[i]) == who
}

/// One owner's row of the workload table.
pub struct WorkloadRow {
    pub owner: String,
    /// The number of the owner's nodes in each section, in the order of the table's sections.
    pub counts: Vec<usize>,
    /// The number of the owner's nodes that are in some section.
    pub total: usize,
}

/// The workload table: one row per owner, sorted by owner, one column per section.
pub struct Workload {
    /// The sections, in order of first occurrence.
    pub sections: Vec<String>,
    pub rows: Vec<WorkloadRow>,
}

/// Counts nodes `i` (with owners `owners[i]`) that are owned by `who` and in `section`.
fn count_owned(nodes: &Vec<Node>, owners: &Vec<String>, who: &str, section: &str) -> (c: usize)
    requires
        owners@.len() == nodes@.len(),
        forall|i: int| 0 <= i < nodes@.len() ==> #[trigger] owners@[i]@ == owner_of(nodes@[i]),
    ensures
        c == owned_in(nodes@, nodes@.len() as int, who@, section@),
{
    let mut c: usize = 0;
    let mut k: usize = 0;
    while k < nodes.len()
        invariant
            0 <= k <= nodes@.len(),
            owners@.len() == nodes@.len(),
            forall|i: int| 0 <= i < nodes@.len() ==> #[trigger] owners@[i]@ == owner_of(nodes@[i]),
            c == owned_in(nodes@, k as int, who@, section@),
            c <= k,
        decreases nodes@.len() - k,
    {
        assert(owners@[k as int]@ == owner_of(nodes@[k as int]));
        if str_eq(owners[k].as_str(), who) && str_eq(nodes[k].section_name.as_str(), section) {
            c = c + 1;
        }
        k = k + 1;
    }
    c
}

/// Counts nodes `i` (with owners `owners[i]`) that are owned by `who` and in some section.
fn count_owned_in_sections(nodes: &Vec<Node>, owners: &Vec<String>, who: &str) -> (c: usize)
    requires
        owners@.len() == nodes@.len(),
        forall|i: int| 0 <= i < nodes@.len() ==> #[trigger] owners@[i]@ == owner_of(nodes@[i]),
    ensures
        c == owned_in_sections(nodes@, nodes@.len() as int, who@),
{
    let mut c: usize = 0;
    let mut k: usize = 0;
    while k < nodes.len()
        invariant
            0 <= k <= nodes@.len(),
            owners@.len() == nodes@.len(),
            forall|i: int| 0 <= i < nodes@.len() ==> #[trigger] owners@[i]@ == owner_of(nodes@[i]),
            c == owned_in_sections(nodes@, k as int, who@),
            c <= k,
        decreases nodes@.len() - k,
    {
        assert(owners@[k as int]@ == owner_of(nodes@[k as int]));
        if str_eq(owners[k].as_str(), who) && !nodes[k].section_name.as_str().is_empty() {
            c = c + 1;
        }
        k = k + 1;
    }
    c
}

/// The workload table of the document: the sections in order of first occurrence, and for
/// each owner, sorted, the number of their nodes in each section and in all sections.
pub fn workload(doc: &FlowchartDocument) -> (w: Workload)
    ensures
        texts(w.sections@) == section_order_spec(doc.nodes@),
        ascending(w.rows@.map_values(|r: WorkloadRow| r.owner@)),
        forall|t: Seq<char>|
            w.rows@.map_values(|r: WorkloadRow| r.owner@).contains(t) <==> owns_some(doc.nodes@, doc.nodes@.len() as int, t),
        forall|i: int|
            0 <= i < w.rows@.len() ==> {
                &&& (#[trigger] w.rows@[i]).counts@.len() == w.sections@.len()
                &&& forall|c: int|
                    0 <= c < w.sections@.len() ==> w.rows@[i].counts@[c] == owned_in(
                        doc.nodes@,
                        doc.nodes@.len() as int,
                        w.rows@[i].owner@,
                        w.sections@[c]@,
                    )
                &&& w.rows@[i].total == owned_in_sections(doc.nodes@, doc.nodes@.len() as int, w.rows@[i].owner@)
            },
{
    let sections = section_order(doc);
    // The owner of each node, then the owners sorted.
    let mut owners: Vec<String> = Vec::new();
    let mut names: Vec<String> = Vec::new();
    let mut k: usize = 0;
    while k < doc.nodes.len()
        invariant
            0 <= k <= doc.nodes@.len(),
            owners@.len() == k,
            forall|i: int| 0 <= i < k ==> #[trigger] owners@[i]@ == owner_of(doc.nodes@[i]),
            ascending(texts(names@)),
            forall|t: Seq<char>| texts(names@).contains(t) <==> owns_some(doc.nodes@, k as int, t),
        decreases doc.nodes@.len() - k,
    {
        let ghost before = texts(names@);
        let o = node_owner(&doc.nodes[k]);
        let ghost ov = o@;
        insert_sorted(&mut names, o.clone());
        owners.push(o);
        proof {
            assert(owners@[k as int]@ == ov);
            assert forall|t: Seq<char>| texts(names@).contains(t) <==> owns_some(doc.nodes@, k + 1, t) by {
                if owns_some(doc.nodes@, k + 1, t) {
                    let w = choose|w: int| 0 <= w < k + 1 && owner_of(#[trigger] doc.nodes@[w]) == t;
                    if w < k {
                        assert(owns_some(doc.nodes@, k as int, t));
                    }
                }
                if owns_some(doc.nodes@, k as int, t) {
                    let w = choose|w: int| 0 <= w < k && owner_of(#[trigger] doc.nodes@[w]) == t;
                    assert(owner_of(doc.nodes@[w]) == t);
                }
                if t == ov {
                    assert(owner_of(doc.nodes@[k as int]) == t);
                }
            }
        }
        k = k + 1;
    }
    let mut rows: Vec<WorkloadRow> = Vec::new();
    let mut r: usize = 0;
    while r < names.len()
        invariant
            0 <= r <= names@.len(),
            owners@.len() == doc.nodes@.len(),
            forall|i: int| 0 <= i < doc.nodes@.len() ==> #[trigger] owners@[i]@ == owner_of(doc.nodes@[i]),
            rows@.len() == r,
            forall|i: int| 0 <= i < r ==> (#[trigger] rows@[i]).owner@ == names@[i]@,
            forall|i: int|
                0 <= i < r ==> {
                    &&& (#[trigger] rows@[i]).counts@.len() == sections@.len()
                    &&& forall|c: int|
                        0 <= c < sections@.len() ==> rows@[i].counts@[c] == owned_in(
                            doc.nodes@,
                            doc.nodes@.len() as int,
                            rows@[i].owner@,
                            sections@[c]@,
                        )
                    &&& rows@[i].total == owned_in_sections(doc.nodes@, doc.nodes@.len() as int, rows@[i].owner@)
                },
        decreases names@.len() - r,
    {
        let who = names[r].as_str();
        let mut counts: Vec<usize> = Vec::new();
        let mut c: usize = 0;
        while c < sections.len()
            invariant
                0 <= c <= sections@.len(),
                owners@.len() == doc.nodes@.len(),
                forall|i: int| 0 <= i < doc.nodes@.len() ==> #[trigger] owners@[i]@ == owner_of(doc.nodes@[i]),
                who@ == names@[r as int]@,
                counts@.len() == c,
                forall|j: int|
                    0 <= j < c ==> #[trigger] counts@[j] == owned_in(doc.nodes@, doc.nodes@.len() as int, who@, sections@[j]@),
            decreases sections@.len() - c,
        {
            let n = count_owned(&doc.nodes, &owners, who, sections[c].as_str());
            counts.push(n);
            c = c + 1;
        }
        let total = count_owned_in_sections(&doc.nodes, &owners, who);
        rows.push(WorkloadRow { owner: names[r].clone(), counts, total });
        r = r + 1;
    }
    proof {
        assert(rows@.map_values(|x: WorkloadRow| x.owner@) =~= texts(names@));
    }
    Workload { sections, rows }
}

/// The sum, over the sections `order`, of the number of the first `k` nodes owned by `who`
/// in each.
pub open spec fn sum_over(nodes: Seq<Node>, k: int, who: Seq<char>, order: Seq<Seq<char>>) -> nat
    decreases order.len(),
{
    if order.len() == 0 {
        0
    } else {
        sum_over(nodes, k, who, order.drop_last()) + owned_in(nodes, k, who, order.last())
    }
}

/// A row's total is the sum of its counts: every node in a section is counted in exactly
/// one column.
pub proof fn law_total_is_sum_of_counts(nodes: Seq<Node>, who: Seq<char>)
    ensures
        sum_over(nodes, nodes.len() as int, who, section_order_spec(nodes)) == owned_in_sections(nodes, nodes.len() as int, who),
{
    lemma_sum_prefix(nodes, who, nodes.len() as int);
    assert(nodes.take(nodes.len() as int) =~= nodes);
}

/// The sections of the first `k` nodes are non-empty and distinct, and are the sections
/// those nodes are in.
proof fn lemma_order_shape(nodes: Seq<Node>, k: int)
    requires
        0 <= k <= nodes.len(),
    ensures
        section_order_spec(nodes.take(k)).no_duplicates(),
        forall|t: Seq<char>| #[trigger] section_order_spec(nodes.take(k)).contains(t) <==> (t.len() > 0 && exists|i: int| 0 <= i < k && nodes[i].section_name@ == t),
    decreases k,
{
    let order = section_order_spec(nodes.take(k));
    if k > 0 {
        lemma_order_shape(nodes, k - 1);
        let pre = nodes.take(k);
        assert(pre.drop_last() =~= nodes.take(k - 1));
        assert(pre.last() == nodes[k - 1]);
        let prev = section_order_spec(nodes.take(k - 1));
        assert forall|t: Seq<char>| #[trigger] order.contains(t) <==> (t.len() > 0 && exists|i: int| 0 <= i < k && nodes[i].section_name@ == t) by {
            if t.len() > 0 && exists|i: int| 0 <= i < k && nodes[i].section_name@ == t {
                let i = choose|i: int| 0 <= i < k && nodes[i].section_name@ == t;
                if i < k - 1 {
                    assert(prev.contains(t));
                    let j = choose|j: int| 0 <= j < prev.len() && prev[j] == t;
                    assert(order[j] == t);
                } else {
                    if !prev.contains(t) {
                        assert(order[prev.len() as int] == t);
                    }
                    else {
                        let j = choose|j: int| 0 <= j < prev.len() && prev[j] == t;
                        assert(order[j] == t);
                    }
                }
            }
            if order.contains(t) {
                let j = choose|j: int| 0 <= j < order.len() && order[j] == t;
                if j < prev.len() {
                    assert(prev[j] == t);
                    assert(prev.contains(t));
                } else {
                    assert(nodes[k - 1].section_name@ == t);
                }
            }
        }
    } else {
        assert(order =~= Seq::<Seq<char>>::empty());
    }
}

/// The first `k` nodes owned by `who` in a section none of them is in: none.
proof fn lemma_owned_absent(nodes: Seq<Node>, k: int, who: Seq<char>, s: Seq<char>)
    requires
        0 <= k <= nodes.len(),
        forall|i: int| 0 <= i < k ==> #[trigger] nodes[i].section_name@ != s,
    ensures
        owned_in(nodes, k, who, s) == 0,
    decreases k,
{
    if k > 0 {
        lemma_owned_absent(nodes, k - 1, who, s);
    }
}

/// Counting one more node changes the sum over sections that do not hold it by nothing,
/// and the sum over distinct sections holding it by whether `who` owns it.
proof fn lemma_sum_step(nodes: Seq<Node>, k: int, who: Seq<char>, order: Seq<Seq<char>>)
    requires
        0 <= k < nodes.len(),
        order.no_duplicates(),
    ensures
        sum_over(nodes, k + 1, who, order) == sum_over(nodes, k, who, order) + if order.contains(nodes[k].section_name@)
            && owner_of(nodes[k]) == who {
            1nat
        } else {
            0nat
        },
    decreases order.len(),
{
    if order.len() > 0 {
        let rest = order.drop_last();
        assert(rest.no_duplicates()) by {
            assert forall|i: int, j: int| 0 <= i < rest.len() && 0 <= j < rest.len() && i != j implies rest[i] != rest[j] by {
                assert(rest[i] == order[i] && rest[j] == order[j]);
            }
        }
        lemma_sum_step(nodes, k, who, rest);
        let s = nodes[k].section_name@;
        if order.last() == s {
            assert(!rest.contains(s)) by {
                if rest.contains(s) {
                    let j = choose|j: int| 0 <= j < rest.len() && rest[j] == s;
                    assert(order[j] == order[order.len() - 1]);
                }
            }
            assert(order.contains(s)) by {
                assert(order[order.len() - 1] == s);
            }
        } else {
            assert(order.contains(s) == rest.contains(s)) by {
                if order.contains(s) {
                    let j = choose|j: int| 0 <= j < order.len() && order[j] == s;
                    assert(rest[j] == s);
                }
                if rest.contains(s) {
                    let j = choose|j: int| 0 <= j < rest.len() && rest[j] == s;
                    assert(order[j] == s);
                }
            }
        }
    }
}

/// The law over the first `k` nodes.
proof fn lemma_sum_prefix(nodes: Seq<Node>, who: Seq<char>, k: int)
    requires
        0 <= k <= nodes.len(),
    ensures
        sum_over(nodes, k, who, section_order_spec(nodes.take(k))) == owned_in_sections(nodes, k, who),
    decreases k,
{
    if k == 0 {
        assert(section_order_spec(nodes.take(0)) =~= Seq::<Seq<char>>::empty()) by {
            assert(nodes.take(0).len() == 0);
        }
    } else {
        lemma_sum_prefix(nodes, who, k - 1);
        lemma_order_shape(nodes, k - 1);
        let prev = section_order_spec(nodes.take(k - 1));
        let pre = nodes.take(k);
        assert(pre.drop_last() =~= nodes.take(k - 1));
        assert(pre.last() == nodes[k - 1]);
        let s = nodes[k - 1].section_name@;
        lemma_sum_step(nodes, k - 1, who, prev);
        if s.len() > 0 && !prev.contains(s) {
            assert forall|i: int| 0 <= i < k - 1 implies #[trigger] nodes[i].section_name@ != s by {
                if nodes[i].section_name@ == s {
                    assert(prev.contains(s));
                }
            }
            lemma_owned_absent(nodes, k - 1, who, s);
            let order = prev.push(s);
            assert(order.drop_last() =~= prev);
        } else if s.len() == 0 {
            assert(!prev.contains(s));
        }
    }
}

} // verus!
