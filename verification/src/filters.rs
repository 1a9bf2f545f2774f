//! Filters turned on and off by clicking the canvas overlays: tag pills, kanban column
//! headers and workload rows.
use vstd::prelude::*;
use crate::model::{FlowchartDocument, Node, NodeTag};
use crate::text::{chars_of, push_all, str_eq};

verus! {

/// Whether some node carries the tag `t`.
pub open spec fn tag_used(nodes: Seq<Node>, t: NodeTag) -> bool {
    exists|i: int| 0 <= i < nodes.len() && #[trigger] nodes[i].tag == Some(t)
}

/// The tag pills shown over the canvas: blocked, to do, done and in progress, in that order,
/// each only when some node carries it.
pub open spec fn tag_pills_spec(nodes: Seq<Node>) -> Seq<NodeTag> {
    seq![NodeTag::Critical, NodeTag::Warning, NodeTag::Done, NodeTag::Info].filter(|t: NodeTag| tag_used(nodes, t))
}

/// Whether some node carries the tag `t`.
fn uses_tag(nodes: &Vec<Node>, t: NodeTag) -> (r: bool)
    ensures
        r == tag_used(nodes@, t),
{
    let mut i: usize = 0;
    while i < nodes.len()
        invariant
            0 <= i <= nodes@.len(),
            forall|j: int| 0 <= j < i ==> #[trigger] nodes@[j].tag != Some(t),
        decreases nodes@.len() - i,
    {
        if nodes[i].tag == Some(t) {
            return true;
        }
        i = i + 1;
    }
    false
}

/// The tag pills shown over the canvas for the document `doc`.
pub fn tag_pills(doc: &FlowchartDocument) -> (v: Vec<NodeTag>)
    ensures
        v@ == tag_pills_spec(doc.nodes@),
{
    let mut v: Vec<NodeTag> = Vec::new();
    if uses_tag(&doc.nodes, NodeTag::Critical) {
        v.push(NodeTag::Critical);
    }
    if uses_tag(&doc.nodes, NodeTag::Warning) {
        v.push(NodeTag::Warning);
    }
    if uses_tag(&doc.nodes, NodeTag::Done) {
        v.push(NodeTag::Done);
    }
    if uses_tag(&doc.nodes, NodeTag::Info) {
        v.push(NodeTag::Info);
    }
    proof {
        let all = seq![NodeTag::Critical, NodeTag::Warning, NodeTag::Done, NodeTag::Info];
        let p = |t: NodeTag| tag_used(doc.nodes@, t);
        reveal_with_fuel(Seq::filter, 5);
        assert(all.drop_last().drop_last().drop_last().drop_last() =~= Seq::<NodeTag>::empty());
        assert(all.drop_last().drop_last().drop_last() =~= seq![NodeTag::Critical]);
        assert(all.drop_last().drop_last() =~= seq![NodeTag::Critical, NodeTag::Warning]);
        assert(all.drop_last() =~= seq![NodeTag::Critical, NodeTag::Warning, NodeTag::Done]);
        assert(v@ =~= all.filter(p));
    }
    v
}

/// The tag filter after its pill for `tag` is clicked: off when that tag was the filter,
/// else that tag.
pub fn click_tag_pill(current: Option<NodeTag>, tag: NodeTag) -> (r: Option<NodeTag>)
    ensures
        r == (if current == Some(tag) { None } else { Some(tag) }),
{
    if current == Some(tag) {
        None
    } else {
        Some(tag)
    }
}

/// The search after a click on a filter: its query, whether it stays on, and the status
/// message to show.
pub struct FilterUpdate {
    pub query: String,
    pub persist: bool,
    pub message: String,
}

/// The update after a click that turns the filter `filter` off (`clear`) or on, naming
/// `name` when it turns it on.
pub open spec fn filter_update_spec(clear: bool, filter: Seq<char>, name: Seq<char>) -> (Seq<char>, bool, Seq<char>) {
    if clear {
        (Seq::empty(), false, "Filter cleared"@)
    } else {
        (filter, true, "Showing: "@ + name)
    }
}

/// The update after a click that turns the filter `filter` off or on.
fn filter_update(clear: bool, filter: String, name: &str) -> (u: FilterUpdate)
    ensures
        (u.query@, u.persist, u.message@) == filter_update_spec(clear, filter@, name@),
{
    if clear {
        FilterUpdate { query: String::new(), persist: false, message: "Filter cleared".to_owned() }
    } else {
        let mut message = String::new();
        push_all(&mut message, "Showing: ");
        push_all(&mut message, name);
        FilterUpdate { query: filter, persist: true, message }
    }
}

/// The filter a kanban column header turns on: `section:` and the section.
pub open spec fn column_filter(section: Seq<char>) -> Seq<char> {
    "section:"@ + section
}

/// The search after a click on the kanban header of `section`, given the current query and
/// whether it stays on: the filter goes off when it was this one and stayed on, and
/// otherwise this one goes on.
pub fn click_column_header(query: &str, persist: bool, section: &str) -> (u: FilterUpdate)
    ensures
        (u.query@, u.persist, u.message@) == filter_update_spec(
            query@ == column_filter(section@) && persist,
            column_filter(section@),
            section@,
        ),
{
    let mut filter = String::new();
    push_all(&mut filter, "section:");
    push_all(&mut filter, section);
    let clear = str_eq(query, filter.as_str()) && persist;
    filter_update(clear, filter, section)
}

/// The filter a workload row turns on: `assignee:` and the owner.
pub open spec fn owner_filter(owner: Seq<char>) -> Seq<char> {
    "assignee:"@ + owner
}

/// The search after a click on the workload row of `owner`, given the current query: the
/// filter goes off when it was this one, and otherwise this one goes on.
pub fn click_workload_row(query: &str, owner: &str) -> (u: FilterUpdate)
    ensures
        (u.query@, u.persist, u.message@) == filter_update_spec(query@ == owner_filter(owner@), owner_filter(owner@), owner@),
{
    let mut filter = String::new();
    push_all(&mut filter, "assignee:");
    push_all(&mut filter, owner);
    let clear = str_eq(query, filter.as_str());
    filter_update(clear, filter, owner)
}

/// Clicking the same header twice, starting from a search without its filter, turns the
/// filter on and then off again.
pub proof fn law_column_click_twice(query: Seq<char>, persist: bool, section: Seq<char>)
    requires
        query != column_filter(section),
    ensures
        ({
            let first = filter_update_spec(query == column_filter(section) && persist, column_filter(section), section);
            let second = filter_update_spec(first.0 == column_filter(section) && first.1, column_filter(section), section);
            first.0 == column_filter(section) && first.1 && second.0 == Seq::<char>::empty() && !second.1
        }),
{
}

/// The text of the chip that shows a pinned search: the first twenty-four characters of the
/// query, `…` when it is longer, and a cross to clear it.
pub open spec fn chip_label(query: Seq<char>) -> Seq<char> {
    "\u{1f50d} Filter: "@ + (if query.len() > 24 { query.take(24) + "\u{2026}"@ } else { query }) + "  \u{2715}"@
}

/// The text of the chip that shows a pinned search.
pub fn chip_label_text(query: &str) -> (s: String)
    ensures
        s@ == chip_label(query@),
{
    let mut s = String::new();
    push_all(&mut s, "\u{1f50d} Filter: ");
    let cs = chars_of(query);
    if cs.len() > 24 {
        let ghost base = s@;
        let mut k: usize = 0;
        while k < 24
            invariant
                0 <= k <= 24 < cs@.len(),
                s@ == base + cs@.take(k as int),
            decreases 24 - k,
        {
            s.push(cs[k]);
            assert(cs@.take(k + 1) =~= cs@.take(k as int).push(cs@[k as int]));
            k = k + 1;
        }
        push_all(&mut s, "\u{2026}");
    } else {
        push_all(&mut s, query);
    }
    push_all(&mut s, "  \u{2715}");
    assert(s@ =~= chip_label(query@));
    s
}

} // verus!
