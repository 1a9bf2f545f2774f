//! The choices that a node's menu offers for its section and its owner.
//!
//! Each menu lists the names the document already uses, sorted, then common names that
//! the document does not use yet, in a fixed order.
use vstd::prelude::*;
use crate::model::{FlowchartDocument, Node};
use crate::sections::has_section;
use crate::sorted::{ascending, insert_sorted, texts};
use crate::text::{after, begins_with, chars_of, slice_chars, str_begins_with, str_eq, trim, trimmed};

verus! {

/// The entries of `list` that do not occur in `taken`, in their order.
pub open spec fn missing_from(list: Seq<Seq<char>>, taken: Seq<Seq<char>>) -> Seq<Seq<char>>
    decreases list.len(),
{
    if list.len() == 0 {
        Seq::empty()
    } else {
        let r = missing_from(list.drop_last(), taken);
        if taken.contains(list.last()) {
            r
        } else {
            r.push(list.last())
        }
    }
}

/// Whether `name` occurs in `list`.
fn listed(list: &Vec<String>, name: &str) -> (r: bool)
    ensures
        r == texts(list@).contains(name@),
{
    let mut k: usize = 0;
    while k < list.len()
        invariant
            0 <= k <= list@.len(),
            forall|j: int| 0 <= j < k ==> texts(list@)[j] != name@,
        decreases list@.len() - k,
    {
        if str_eq(list[k].as_str(), name) {
            assert(texts(list@)[k as int] == name@);
            return true;
        }
        k = k + 1;
    }
    false
}

/// The entries of `list` that do not occur in `taken`, in their order.
pub fn not_listed(list: &Vec<String>, taken: &Vec<String>) -> (r: Vec<String>)
    ensures
        texts(r@) == missing_from(texts(list@), texts(taken@)),
{
    let mut r: Vec<String> = Vec::new();
    let mut k: usize = 0;
    while k < list.len()
        invariant
            0 <= k <= list@.len(),
            texts(r@) == missing_from(texts(list@).take(k as int), texts(taken@)),
        decreases list@.len() - k,
    {
        proof {
            let pre = texts(list@).take(k + 1);
            assert(pre.drop_last() =~= texts(list@).take(k as int));
            assert(pre.last() == list@[k as int]@);
        }
        if !listed(taken, list[k].as_str()) {
            let ghost before = texts(r@);
            r.push(list[k].clone());
            assert(texts(r@) =~= before.push(list@[k as int]@));
        }
        k = k + 1;
    }
    assert(texts(list@).take(list@.len() as int) =~= texts(list@));
    r
}

/// The sections used in the document, sorted and each once.
pub fn document_sections(doc: &FlowchartDocument) -> (names: Vec<String>)
    ensures
        ascending(texts(names@)),
        forall|t: Seq<char>| texts(names@).contains(t) <==> has_section(doc.nodes@, doc.nodes@.len() as int, t),
{
    let mut names: Vec<String> = Vec::new();
    let mut k: usize = 0;
    while k < doc.nodes.len()
        invariant
            0 <= k <= doc.nodes@.len(),
            ascending(texts(names@)),
            forall|t: Seq<char>| texts(names@).contains(t) <==> has_section(doc.nodes@, k as int, t),
        decreases doc.nodes@.len() - k,
    {
        let ghost before = texts(names@);
        let name = &doc.nodes[k].section_name;
        if !name.as_str().is_empty() {
            insert_sorted(&mut names, name.clone());
        }
        proof {
            assert forall|t: Seq<char>| texts(names@).contains(t) <==> has_section(doc.nodes@, k + 1, t) by {
                if has_section(doc.nodes@, k + 1, t) {
                    let w = choose|w: int| 0 <= w < k + 1 && #[trigger] doc.nodes@[w].section_name@ == t;
                    if w < k {
                        assert(has_section(doc.nodes@, k as int, t));
                    }
                }
                if has_section(doc.nodes@, k as int, t) {
                    let w = choose|w: int| 0 <= w < k && #[trigger] doc.nodes@[w].section_name@ == t;
                    assert(doc.nodes@[w].section_name@ == t);
                }
                if texts(names@).contains(t) && !before.contains(t) {
                    assert(doc.nodes@[k as int].section_name@ == t);
                }
            }
        }
        k = k + 1;
    }
    names
}

/// The common sections a node can be moved to: those of design thinking, then those of
/// support work.
pub open spec fn section_presets_spec() -> Seq<Seq<char>> {
    seq![
        "Hypotheses"@, "Assumptions"@, "Evidence"@, "Conclusions"@,
        "Questions"@, "Experiments"@, "Options"@, "Risks"@,
        "Roses"@, "Buds"@, "Thorns"@, "Actions"@,
        "Strengths"@, "Weaknesses"@, "Opportunities"@, "Threats"@,
        "Intake"@, "Triage"@, "In Progress"@, "Resolved"@,
        "Escalated"@, "Closed"@, "Backlog"@, "On Hold"@,
        "P1 \u{2014} Critical"@, "P2 \u{2014} High"@, "P3 \u{2014} Medium"@, "P4 \u{2014} Low"@,
    ]
}

/// Appends `names`, in order, to `v`.
fn push_names(v: &mut Vec<String>, names: &[&str])
    ensures
        texts(final(v)@) == texts(old(v)@) + names@.map_values(|s: &str| s@),
{
    let mut k: usize = 0;
    while k < names.len()
        invariant
            0 <= k <= names@.len(),
            texts(v@) == texts(old(v)@) + names@.map_values(|s: &str| s@).take(k as int),
        decreases names@.len() - k,
    {
        let ghost before = texts(v@);
        v.push(names[k].to_owned());
        assert(names@.map_values(|s: &str| s@).take(k + 1) =~= names@.map_values(|s: &str| s@).take(k as int).push(names@[k as int]@));
        assert(texts(v@) =~= before.push(names@[k as int]@));
        k = k + 1;
    }
    assert(names@.map_values(|s: &str| s@).take(names@.len() as int) =~= names@.map_values(|s: &str| s@));
}

/// The common sections a node can be moved to.
pub fn section_presets() -> (v: Vec<String>)
    ensures
        texts(v@) == section_presets_spec(),
{
    let mut v: Vec<String> = Vec::new();
    let names: [&str; 28] = [
        "Hypotheses", "Assumptions", "Evidence", "Conclusions",
        "Questions", "Experiments", "Options", "Risks",
        "Roses", "Buds", "Thorns", "Actions",
        "Strengths", "Weaknesses", "Opportunities", "Threats",
        "Intake", "Triage", "In Progress", "Resolved",
        "Escalated", "Closed", "Backlog", "On Hold",
        "P1 \u{2014} Critical", "P2 \u{2014} High", "P3 \u{2014} Medium", "P4 \u{2014} Low",
    ];
    push_names(&mut v, &names);
    assert(texts(v@) =~= section_presets_spec());
    v
}

/// The choices of a node's section menu.
pub struct SectionMenu {
    /// The sections the document uses, sorted.
    pub in_document: Vec<String>,
    /// The common sections that the document does not use yet.
    pub common: Vec<String>,
}

/// The choices of a node's section menu for the document `doc`.
pub fn section_menu(doc: &FlowchartDocument) -> (m: SectionMenu)
    ensures
        ascending(texts(m.in_document@)),
        forall|t: Seq<char>| texts(m.in_document@).contains(t) <==> has_section(doc.nodes@, doc.nodes@.len() as int, t),
        texts(m.common@) == missing_from(section_presets_spec(), texts(m.in_document@)),
{
    let in_document = document_sections(doc);
    let presets = section_presets();
    let common = not_listed(&presets, &in_document);
    SectionMenu { in_document, common }
}

/// The owner a sublabel names: what follows `👤 ` at its start, trimmed.
pub open spec fn sublabel_owner(s: Seq<char>) -> Option<Seq<char>> {
    if begins_with(s, "\u{1f464} "@) {
        Some(trim(after(s, 2)))
    } else {
        None
    }
}

/// Whether some node's sublabel names `t` as owner.
pub open spec fn owned_by(nodes: Seq<Node>, k: int, t: Seq<char>) -> bool {
    exists|i: int| 0 <= i < k && sublabel_owner(#[trigger] nodes[i].sublabel@) == Some(t)
}

/// The owner a sublabel names, if it starts with `👤 `.
fn owner_in(s: &String) -> (r: Option<String>)
    ensures
        match r {
            Some(o) => sublabel_owner(s@) == Some(o@),
            None => sublabel_owner(s@).is_none(),
        },
{
    proof {
        reveal_strlit("\u{1f464} ");
    }
    if str_begins_with(s.as_str(), "\u{1f464} ") {
        let cs = chars_of(s.as_str());
        let rest = slice_chars(&cs, 2, cs.len());
        assert(rest@ == after(s@, 2));
        Some(trimmed(&rest))
    } else {
        None
    }
}

/// The owners named in the document's sublabels, sorted and each once.
pub fn document_owners(doc: &FlowchartDocument) -> (names: Vec<String>)
    ensures
        ascending(texts(names@)),
        forall|t: Seq<char>| texts(names@).contains(t) <==> owned_by(doc.nodes@, doc.nodes@.len() as int, t),
{
    let mut names: Vec<String> = Vec::new();
    let mut k: usize = 0;
    while k < doc.nodes.len()
        invariant
            0 <= k <= doc.nodes@.len(),
            ascending(texts(names@)),
            forall|t: Seq<char>| texts(names@).contains(t) <==> owned_by(doc.nodes@, k as int, t),
        decreases doc.nodes@.len() - k,
    {
        let ghost before = texts(names@);
        let found = owner_in(&doc.nodes[k].sublabel);
        match found {
            Some(o) => {
                insert_sorted(&mut names, o);
            },
            None => {},
        }
        proof {
            assert forall|t: Seq<char>| texts(names@).contains(t) <==> owned_by(doc.nodes@, k + 1, t) by {
                if owned_by(doc.nodes@, k + 1, t) {
                    let w = choose|w: int| 0 <= w < k + 1 && sublabel_owner(#[trigger] doc.nodes@[w].sublabel@) == Some(t);
                    if w < k {
                        assert(owned_by(doc.nodes@, k as int, t));
                    }
                }
                if owned_by(doc.nodes@, k as int, t) {
                    let w = choose|w: int| 0 <= w < k && sublabel_owner(#[trigger] doc.nodes@[w].sublabel@) == Some(t);
                    assert(sublabel_owner(doc.nodes@[w].sublabel@) == Some(t));
                }
                if texts(names@).contains(t) && !before.contains(t) {
                    assert(sublabel_owner(doc.nodes@[k as int].sublabel@) == Some(t));
                }
            }
        }
        k = k + 1;
    }
    names
}

/// The common owners a node can be assigned to.
pub open spec fn common_owners_spec() -> Seq<Seq<char>> {
    seq!["Alice"@, "Bob"@, "Charlie"@, "Dana"@, "Erin"@, "Frank"@, "Team"@, "On-call"@]
}

/// The common owners a node can be assigned to.
pub fn common_owners() -> (v: Vec<String>)
    ensures
        texts(v@) == common_owners_spec(),
{
    let mut v: Vec<String> = Vec::new();
    let names: [&str; 8] = ["Alice", "Bob", "Charlie", "Dana", "Erin", "Frank", "Team", "On-call"];
    push_names(&mut v, &names);
    assert(texts(v@) =~= common_owners_spec());
    v
}

/// The choices of a node's owner menu.
pub struct OwnerMenu {
    /// The owners the document names, sorted.
    pub in_document: Vec<String>,
    /// The common owners that the document does not name yet.
    pub common: Vec<String>,
}

/// The choices of a node's owner menu for the document `doc`.
pub fn owner_menu(doc: &FlowchartDocument) -> (m: OwnerMenu)
    ensures
        ascending(texts(m.in_document@)),
        forall|t: Seq<char>| texts(m.in_document@).contains(t) <==> owned_by(doc.nodes@, doc.nodes@.len() as int, t),
        texts(m.common@) == missing_from(common_owners_spec(), texts(m.in_document@)),
{
    let in_document = document_owners(doc);
    let names = common_owners();
    let common = not_listed(&names, &in_document);
    OwnerMenu { in_document, common }
}

} // verus!
