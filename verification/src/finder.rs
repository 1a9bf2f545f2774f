//! The search box over the canvas: which matches it lists, the count it shows, and what
//! its keys do.
use vstd::prelude::*;
use std::collections::HashSet;
use crate::messages::{decimal, decimal_string};
use crate::model::{FlowchartDocument, Node, NodeId};
use crate::text::{begins_with, chars_begin_with, chars_eq, chars_of, lower_chars, lowercase, push_all};

verus! {

broadcast use vstd::std_specs::hash::group_hash_axioms;

/// The most matches the search box lists.
pub const MAX_RESULTS: usize = 8;

/// The identifiers of the nodes whose identifier is in `matches`, in node order.
pub open spec fn matching_ids(nodes: Seq<Node>, matches: Set<NodeId>) -> Seq<NodeId>
    decreases nodes.len(),
{
    if nodes.len() == 0 {
        Seq::empty()
    } else {
        let r = matching_ids(nodes.drop_last(), matches);
        if matches.contains(nodes.last().id) {
            r.push(nodes.last().id)
        } else {
            r
        }
    }
}

/// The matches the search box lists for the query `query`: none while the query is empty,
/// else the first eight matching nodes in node order.
pub open spec fn listed_results(nodes: Seq<Node>, matches: Set<NodeId>, query: Seq<char>) -> Seq<NodeId> {
    if lowercase(query).len() == 0 {
        Seq::empty()
    } else {
        let all = matching_ids(nodes, matches);
        if all.len() <= 8 { all } else { all.take(8) }
    }
}

/// The matches the search box lists.
pub fn search_results(doc: &FlowchartDocument, matches: &HashSet<NodeId>, query: &str) -> (r: Vec<NodeId>)
    ensures
        r@ == listed_results(doc.nodes@, matches@, query@),
{
    let q = query.to_lowercase();
    if q.as_str().is_empty() {
        return Vec::new();
    }
    let mut r: Vec<NodeId> = Vec::new();
    let mut k: usize = 0;
    while k < doc.nodes.len()
        invariant
            0 <= k <= doc.nodes@.len(),
            r@ == {
                let all = matching_ids(doc.nodes@.take(k as int), matches@);
                if all.len() <= 8 { all } else { all.take(8) }
            },
        decreases doc.nodes@.len() - k,
    {
        proof {
            let pre = doc.nodes@.take(k + 1);
            assert(pre.drop_last() =~= doc.nodes@.take(k as int));
            assert(pre.last() == doc.nodes@[k as int]);
            let all = matching_ids(doc.nodes@.take(k as int), matches@);
            let next = matching_ids(pre, matches@);
            if all.len() > 8 && next.len() > all.len() {
                assert(next.take(8) =~= all.take(8));
            }
        }
        if r.len() < MAX_RESULTS && matches.contains(&doc.nodes[k].id) {
            let ghost before = r@;
            r.push(doc.nodes[k].id);
            proof {
                let all = matching_ids(doc.nodes@.take(k as int), matches@);
                assert(all.len() <= 8);
                if all.len() + 1 > 8 {
                    let next = matching_ids(doc.nodes@.take(k + 1), matches@);
                    assert(next.take(8) =~= next);
                }
            }
        } else {
            proof {
                let all = matching_ids(doc.nodes@.take(k as int), matches@);
                let next = matching_ids(doc.nodes@.take(k + 1), matches@);
                if matches@.contains(doc.nodes@[k as int].id) {
                    assert(r@.len() >= 8);
                    if all.len() == 8 {
                        assert(next.take(8) =~= all);
                    } else {
                        assert(next.take(8) =~= all.take(8));
                    }
                }
            }
        }
        k = k + 1;
    }
    assert(doc.nodes@.take(doc.nodes@.len() as int) =~= doc.nodes@);
    r
}

/// Whether the lowercased query `q` selects by a property (a status, an owner, a date and
/// so on) rather than by text.
pub open spec fn is_filter_query(q: Seq<char>) -> bool {
    q.len() > 0 && (begins_with(q, "status:"@) || begins_with(q, "priority:"@) || begins_with(q, "p:"@)
        || begins_with(q, "section:"@) || begins_with(q, "\u{a7}"@) || begins_with(q, "assigned:"@)
        || begins_with(q, "owner:"@) || begins_with(q, "url:"@) || begins_with(q, "due:"@)
        || begins_with(q, "icon:"@) || q == "overdue"@ || q == "upcoming"@ || q == "has-url"@
        || q == "no-url"@ || q == "has-due"@ || q == "has-comment"@ || q == "glow"@
        || q == "sla-breach"@ || q == "past-due"@ || q == "escalated"@ || q == "isolated"@)
}

/// Whether the query selects by a property rather than by text.
pub fn filter_query(query: &str) -> (r: bool)
    ensures
        r == is_filter_query(lowercase(query@)),
{
    let q = lower_chars(&chars_of(query));
    if q.len() == 0 {
        return false;
    }
    let prefixes: [&str; 10] = ["status:", "priority:", "p:", "section:", "\u{a7}", "assigned:", "owner:", "url:", "due:", "icon:"];
    let words: [&str; 11] = [
        "overdue", "upcoming", "has-url", "no-url", "has-due", "has-comment", "glow", "sla-breach", "past-due",
        "escalated", "isolated",
    ];
    let mut hit = false;
    let mut k: usize = 0;
    while k < 10
        invariant
            0 <= k <= 10,
            prefixes@ == seq!["status:", "priority:", "p:", "section:", "\u{a7}", "assigned:", "owner:", "url:", "due:", "icon:"],
            hit == exists|j: int| 0 <= j < k && begins_with(q@, #[trigger] prefixes@[j]@),
        decreases 10 - k,
    {
        let p = chars_of(prefixes[k]);
        if chars_begin_with(&q, &p) {
            hit = true;
        }
        k = k + 1;
    }
    let mut t: usize = 0;
    while t < 11
        invariant
            0 <= t <= 11,
            words@ == seq![
                "overdue", "upcoming", "has-url", "no-url", "has-due", "has-comment", "glow", "sla-breach", "past-due",
                "escalated", "isolated",
            ],
            hit == ((exists|j: int| 0 <= j < 10 && begins_with(q@, #[trigger] prefixes@[j]@))
                || exists|j: int| 0 <= j < t && q@ == (#[trigger] words@[j])@),
        decreases 11 - t,
    {
        if chars_eq(&q, words[t]) {
            hit = true;
        }
        t = t + 1;
    }
    proof {
        let pw = prefixes@;
        let ww = words@;
        if begins_with(q@, "status:"@) { assert(begins_with(q@, pw[0]@)); }
        if begins_with(q@, "priority:"@) { assert(begins_with(q@, pw[1]@)); }
        if begins_with(q@, "p:"@) { assert(begins_with(q@, pw[2]@)); }
        if begins_with(q@, "section:"@) { assert(begins_with(q@, pw[3]@)); }
        if begins_with(q@, "\u{a7}"@) { assert(begins_with(q@, pw[4]@)); }
        if begins_with(q@, "assigned:"@) { assert(begins_with(q@, pw[5]@)); }
        if begins_with(q@, "owner:"@) { assert(begins_with(q@, pw[6]@)); }
        if begins_with(q@, "url:"@) { assert(begins_with(q@, pw[7]@)); }
        if begins_with(q@, "due:"@) { assert(begins_with(q@, pw[8]@)); }
        if begins_with(q@, "icon:"@) { assert(begins_with(q@, pw[9]@)); }
        if q@ == "overdue"@ { assert(q@ == ww[0]@); }
        if q@ == "upcoming"@ { assert(q@ == ww[1]@); }
        if q@ == "has-url"@ { assert(q@ == ww[2]@); }
        if q@ == "no-url"@ { assert(q@ == ww[3]@); }
        if q@ == "has-due"@ { assert(q@ == ww[4]@); }
        if q@ == "has-comment"@ { assert(q@ == ww[5]@); }
        if q@ == "glow"@ { assert(q@ == ww[6]@); }
        if q@ == "sla-breach"@ { assert(q@ == ww[7]@); }
        if q@ == "past-due"@ { assert(q@ == ww[8]@); }
        if q@ == "escalated"@ { assert(q@ == ww[9]@); }
        if q@ == "isolated"@ { assert(q@ == ww[10]@); }
    }
    hit
}

/// The count shown in the search box: nothing while the query is empty, `0`, the number of
/// matches, or `8 of` it when there are more than eight.
pub open spec fn badge(query_empty: bool, total: nat) -> Seq<char> {
    if query_empty {
        Seq::empty()
    } else if total == 0 {
        "0"@
    } else if total > 8 {
        "8 of "@ + decimal(total)
    } else {
        decimal(total)
    }
}

/// The count shown in the search box.
pub fn badge_text(query: &str, total: usize) -> (s: String)
    ensures
        s@ == badge(lowercase(query@).len() == 0, total as nat),
{
    let q = query.to_lowercase();
    if q.as_str().is_empty() {
        String::new()
    } else if total == 0 {
        "0".to_owned()
    } else if total > MAX_RESULTS {
        let mut s = String::new();
        push_all(&mut s, "8 of ");
        push_all(&mut s, decimal_string(total).as_str());
        s
    } else {
        decimal_string(total)
    }
}

/// A key pressed in the search box.
#[derive(Debug, Clone, Copy, PartialEq, Eq, Structural)]
pub enum SearchKey {
    Down,
    Up,
    Escape,
    Enter { shift: bool },
}

/// What a key selects.
#[derive(Debug, Clone, Copy, PartialEq, Eq, Structural)]
pub enum SearchPick {
    Nothing,
    /// Every match.
    AllMatches,
    /// One listed node.
    Node(NodeId),
}

/// The search box after a key: the highlighted row, what gets selected, whether the box
/// stays open, whether the query is cleared, whether the filter stays on afterwards (`None`
/// when unchanged), and the status message, if any.
pub struct SearchStep {
    pub cursor: usize,
    pub pick: SearchPick,
    pub open: bool,
    pub clear_query: bool,
    pub persist: Option<bool>,
    pub message: Option<String>,
}

/// The highlighted row kept within the listed results.
pub open spec fn clamped(cursor: nat, listed: nat) -> nat {
    if listed > 0 && cursor >= listed { (listed - 1) as nat } else { cursor }
}

/// The message after Enter selects all of `total` matches.
pub open spec fn pinned_message(total: nat) -> Seq<char> {
    "Selected "@ + decimal(total) + " nodes \u{2014} filter pinned (\u{2318}F to clear)"@
}

/// The search box after `key`, with `cursor` the highlighted row, `results` the listed
/// matches and `total` the number of all matches.
pub fn search_key(cursor: usize, results: &Vec<NodeId>, total: usize, key: SearchKey) -> (st: SearchStep)
    ensures
        ({
            let c = clamped(cursor as nat, results@.len());
            let n = results@.len();
            match key {
                SearchKey::Down => st.cursor == (if n > 0 { if c + 1 < n { c + 1 } else { (n - 1) as nat } } else { c })
                    && st.pick == SearchPick::Nothing && st.open && !st.clear_query && st.persist.is_none()
                    && st.message.is_none(),
                SearchKey::Up => st.cursor == (if c > 0 { (c - 1) as nat } else { c }) && st.pick == SearchPick::Nothing
                    && st.open && !st.clear_query && st.persist.is_none() && st.message.is_none(),
                SearchKey::Escape => st.cursor == 0 && st.pick == SearchPick::Nothing && !st.open && st.clear_query
                    && st.persist == Some(false) && st.message.is_none(),
                SearchKey::Enter { shift } => {
                    &&& st.cursor == 0
                    &&& !st.open
                    &&& if shift || total == 1 {
                        &&& st.pick == SearchPick::AllMatches
                        &&& (total > 1) == st.message.is_some()
                        &&& (total > 1 ==> st.message.unwrap()@ == pinned_message(total as nat))
                        &&& if shift && total > 0 {
                            !st.clear_query && st.persist == Some(true)
                        } else {
                            st.clear_query && st.persist == Some(false)
                        }
                    } else {
                        &&& st.pick == (if n > 0 { SearchPick::Node(if c < n { results@[c as int] } else { results@[0] }) } else {
                            SearchPick::Nothing
                        })
                        &&& st.message.is_none()
                        &&& st.clear_query
                        &&& st.persist == Some(false)
                    }
                },
            }
        }),
{
    let n = results.len();
    let c = if n > 0 && cursor >= n { n - 1 } else { cursor };
    match key {
        SearchKey::Down => {
            let next = if n > 0 { if c + 1 < n { c + 1 } else { n - 1 } } else { c };
            SearchStep { cursor: next, pick: SearchPick::Nothing, open: true, clear_query: false, persist: None, message: None }
        },
        SearchKey::Up => {
            let next = if c > 0 { c - 1 } else { c };
            SearchStep { cursor: next, pick: SearchPick::Nothing, open: true, clear_query: false, persist: None, message: None }
        },
        SearchKey::Escape => {
            SearchStep { cursor: 0, pick: SearchPick::Nothing, open: false, clear_query: true, persist: Some(false), message: None }
        },
        SearchKey::Enter { shift } => {
            if shift || total == 1 {
                let message = if total > 1 {
                    let mut m = String::new();
                    push_all(&mut m, "Selected ");
                    push_all(&mut m, decimal_string(total).as_str());
                    push_all(&mut m, " nodes \u{2014} filter pinned (\u{2318}F to clear)");
                    assert(m@ =~= pinned_message(total as nat));
                    Some(m)
                } else {
                    None
                };
                if shift && total > 0 {
                    SearchStep { cursor: 0, pick: SearchPick::AllMatches, open: false, clear_query: false, persist: Some(true), message }
                } else {
                    SearchStep { cursor: 0, pick: SearchPick::AllMatches, open: false, clear_query: true, persist: Some(false), message }
                }
            } else {
                let pick = if n > 0 {
                    SearchPick::Node(if c < n { results[c] } else { results[0] })
                } else {
                    SearchPick::Nothing
                };
                SearchStep { cursor: 0, pick, open: false, clear_query: true, persist: Some(false), message: None }
            }
        },
    }
}

/// Whether the search box offers to create a node named after the query: when the query is
/// not empty, lists nothing and does not select by a property.
pub open spec fn offers_create(query: Seq<char>, listed: nat) -> bool {
    lowercase(query).len() > 0 && listed == 0 && !is_filter_query(lowercase(query))
}

/// Whether the search box offers to create a node named after the query.
pub fn offer_create(query: &str, listed: usize) -> (r: bool)
    ensures
        r == offers_create(query@, listed as nat),
{
    let q = query.to_lowercase();
    !q.as_str().is_empty() && listed == 0 && !filter_query(query)
}

} // verus!
