//! Collapsing every node to its title bar, and expanding them all again. The sizes a
//! node is drawn at are kept by the canvas; here the nodes' state changes and is counted.
use vstd::prelude::*;
use crate::messages::{decimal, decimal_string};
use crate::model::{FlowchartDocument, Node, NodeKind};
use crate::text::push_all;

verus! {

/// Whether collapsing every node folds `n`: it is neither collapsed already nor a frame.
pub open spec fn folds(n: Node) -> bool {
    !n.collapsed && !n.is_frame
}

/// Node `n` as collapsing every node leaves it.
pub open spec fn after_collapse(n: Node) -> Node {
    if folds(n) { Node { collapsed: true, ..n } } else { n }
}

/// Node `n` as expanding every node leaves it.
pub open spec fn after_expand(n: Node) -> Node {
    Node { collapsed: false, ..n }
}

/// Node `i` of `doc` replaced by `n`.
fn put(doc: &mut FlowchartDocument, i: usize, n: Node)
    requires
        i < old(doc).nodes@.len(),
    ensures
        final(doc).nodes@ == old(doc).nodes@.update(i as int, n),
        final(doc).edges@ == old(doc).edges@,
{
    doc.nodes.set(i, n);
}

/// Node `i` of `doc`, taken out and replaced by a placeholder.
fn take(doc: &mut FlowchartDocument, i: usize) -> (n: Node)
    requires
        i < old(doc).nodes@.len(),
    ensures
        n == old(doc).nodes@[i as int],
        final(doc).nodes@.len() == old(doc).nodes@.len(),
        forall|j: int| 0 <= j < old(doc).nodes@.len() && j != i ==> final(doc).nodes@[j] == old(doc).nodes@[j],
        final(doc).edges@ == old(doc).edges@,
{
    let mut taken = Node::new(0, NodeKind::Text, String::new());
    std::mem::swap(&mut doc.nodes[i], &mut taken);
    taken
}

/// Collapses every node that is neither collapsed already nor a frame, and returns how
/// many it collapsed.
pub fn collapse_all(doc: &mut FlowchartDocument) -> (count: usize)
    ensures
        final(doc).edges@ == old(doc).edges@,
        final(doc).nodes@ == old(doc).nodes@.map_values(|n: Node| after_collapse(n)),
        count == old(doc).nodes@.filter(|n: Node| folds(n)).len(),
{
    let ghost before = doc.nodes@;
    let ghost p = |n: Node| folds(n);
    let mut count: usize = 0;
    let mut i: usize = 0;
    while i < doc.nodes.len()
        invariant
            0 <= i <= doc.nodes@.len(),
            doc.nodes@.len() == before.len(),
            doc.edges@ == old(doc).edges@,
            p == (|n: Node| folds(n)),
            forall|j: int| 0 <= j < i ==> #[trigger] doc.nodes@[j] == after_collapse(before[j]),
            forall|j: int| i <= j < before.len() ==> #[trigger] doc.nodes@[j] == before[j],
            count == before.take(i as int).filter(p).len(),
            count <= i,
        decreases before.len() - i,
    {
        proof {
            reveal(Seq::filter);
            assert(before.take(i + 1).drop_last() =~= before.take(i as int));
            assert(before.take(i + 1).last() == before[i as int]);
        }
        if !doc.nodes[i].collapsed && !doc.nodes[i].is_frame {
            let mut n = take(doc, i);
            n.collapsed = true;
            put(doc, i, n);
            count = count + 1;
        }
        i = i + 1;
    }
    assert(before.take(i as int) =~= before);
    assert(doc.nodes@ =~= before.map_values(|n: Node| after_collapse(n)));
    count
}

/// Expands every collapsed node, and returns how many were collapsed.
pub fn expand_all(doc: &mut FlowchartDocument) -> (count: usize)
    ensures
        final(doc).edges@ == old(doc).edges@,
        final(doc).nodes@ == old(doc).nodes@.map_values(|n: Node| after_expand(n)),
        count == old(doc).nodes@.filter(|n: Node| n.collapsed).len(),
{
    let ghost before = doc.nodes@;
    let ghost p = |n: Node| n.collapsed;
    let mut count: usize = 0;
    let mut i: usize = 0;
    while i < doc.nodes.len()
        invariant
            0 <= i <= doc.nodes@.len(),
            doc.nodes@.len() == before.len(),
            doc.edges@ == old(doc).edges@,
            p == (|n: Node| n.collapsed),
            forall|j: int| 0 <= j < i ==> #[trigger] doc.nodes@[j] == after_expand(before[j]),
            forall|j: int| i <= j < before.len() ==> #[trigger] doc.nodes@[j] == before[j],
            count == before.take(i as int).filter(p).len(),
            count <= i,
        decreases before.len() - i,
    {
        proof {
            reveal(Seq::filter);
            assert(before.take(i + 1).drop_last() =~= before.take(i as int));
            assert(before.take(i + 1).last() == before[i as int]);
        }
        if doc.nodes[i].collapsed {
            let mut n = take(doc, i);
            n.collapsed = false;
            put(doc, i, n);
            count = count + 1;
        }
        i = i + 1;
    }
    assert(before.take(i as int) =~= before);
    assert(doc.nodes@ =~= before.map_values(|n: Node| after_expand(n)));
    count
}

/// Collapsing every node twice folds nothing the second time: each node is as the first
/// collapse left it, and none is left to fold.
pub proof fn law_collapse_all_twice(nodes: Seq<Node>)
    ensures
        nodes.map_values(|n: Node| after_collapse(n)).map_values(|n: Node| after_collapse(n))
            == nodes.map_values(|n: Node| after_collapse(n)),
        nodes.map_values(|n: Node| after_collapse(n)).filter(|n: Node| folds(n)).len() == 0,
{
    let once = nodes.map_values(|n: Node| after_collapse(n));
    assert(once.map_values(|n: Node| after_collapse(n)) =~= once);
    assert forall|i: int| 0 <= i < once.len() implies !folds(#[trigger] once[i]) by {}
    assert(once.all(|x: Node| !folds(x)));
    once.lemma_all_neg_filter_empty(|n: Node| folds(n));
}

/// The status message after collapsing `n` nodes: `Collapsed <n> nodes`.
pub fn collapsed_message(n: usize) -> (m: String)
    ensures
        m@ == "Collapsed "@ + decimal(n as nat) + " nodes"@,
{
    let mut m = String::new();
    push_all(&mut m, "Collapsed ");
    push_all(&mut m, decimal_string(n).as_str());
    push_all(&mut m, " nodes");
    m
}

/// The status message after expanding `n` nodes: `Expanded <n> nodes`.
pub fn expanded_message(n: usize) -> (m: String)
    ensures
        m@ == "Expanded "@ + decimal(n as nat) + " nodes"@,
{
    let mut m = String::new();
    push_all(&mut m, "Expanded ");
    push_all(&mut m, decimal_string(n).as_str());
    push_all(&mut m, " nodes");
    m
}

} // verus!
