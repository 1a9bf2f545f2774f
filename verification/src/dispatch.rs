//! One command-palette action carried out on the editor's document, selection and style
//! clipboard. What the action leaves for the editor itself (view changes, the undo history,
//! files, templates, the clipboard, where copies go on screen) comes back as a request.
use vstd::prelude::*;
use std::collections::HashSet;
use crate::duplicate::{duplicate_nodes, duplicates, first_index, lemma_first_index};
use crate::edits::{copy_style, first_with_id, edit_nodes, edited, find_node_index, randomize_colors, randomized, unlocked_ids, NodeChange};
use crate::folding::{after_collapse, after_expand, collapse_all, collapsed_message, expand_all, expanded_message, folds};
use crate::mermaid::{mermaid_spec, to_mermaid};
use crate::messages::{
    colors_message, colors_spec, count_phrase, count_phrase_spec, decimal, deleted_spec, section_selected_message,
    section_selected_spec, selection_message, selection_spec, stats_message, stats_message_spec, SelectionKind,
};
use crate::model::{Edge, EdgeId, FlowchartDocument, Node, NodeId, NodeKind, NodeShape, NodeTag};
use crate::palette::PaletteAction;
use crate::removal::{delete_selected, edge_survives};
use crate::selection::{
    diagram_stats, doc_stats, edge_ids_where, ids_where, nodes_in_section, passes, select_edges, select_nodes, NodeFilter,
};
use crate::text::push_all;

verus! {

broadcast use vstd::std_specs::hash::group_hash_axioms;

/// The editor's state that palette actions change: the document, the selected nodes and
/// edges, and the copied style.
pub struct PaletteState {
    pub doc: FlowchartDocument,
    pub nodes: HashSet<NodeId>,
    pub edges: HashSet<EdgeId>,
    pub style: Option<NodeChange>,
}

/// What the editor does itself after a palette action.
#[derive(Debug, Clone, PartialEq, Eq)]
pub enum PaletteRequest {
    /// Nothing.
    Nothing,
    /// Carry out this action's own change of the view, the window, the undo history,
    /// the layout or the files: zooming, fitting, toggles, modes, backgrounds, search
    /// panes, undo and redo, auto-layout, timeline mode, templates and recent files.
    Editor(PaletteAction),
    /// Place these new copies beside their originals on the canvas.
    PlaceCopies(Vec<NodeId>),
    /// Put this text on the clipboard.
    CopyText(String),
    /// Say that this many nodes of this shape were selected, in the shape's own words.
    SimilarShape(NodeShape, usize),
    /// Say that this many nodes with this tag (or none) were selected, in the tag's own words.
    SimilarTag(Option<NodeTag>, usize),
}

/// The result of a palette action: whether the document is recorded in the undo history,
/// the status message, and the editor's part.
#[derive(Debug, Clone, PartialEq, Eq)]
pub struct PaletteOutcome {
    pub snapshot: bool,
    pub status: Option<String>,
    pub request: PaletteRequest,
}

/// The text of an optional message.
pub open spec fn text_of(s: Option<String>) -> Option<Seq<char>> {
    match s {
        Some(t) => Some(t@),
        None => None,
    }
}

/// Whether two documents hold the same nodes and edges.
pub open spec fn same_doc(a: FlowchartDocument, b: FlowchartDocument) -> bool {
    a.nodes@ == b.nodes@ && a.edges@ == b.edges@
}

/// Whether the state is unchanged.
pub open spec fn unchanged(a: PaletteState, b: PaletteState) -> bool {
    same_doc(a.doc, b.doc) && b.nodes@ == a.nodes@ && b.edges@ == a.edges@ && b.style == a.style
}

/// Whether the outcome records nothing, says nothing and asks nothing.
pub open spec fn silent(out: PaletteOutcome) -> bool {
    !out.snapshot && out.status is None && out.request == PaletteRequest::Nothing
}

/// The identifiers of the nodes of `doc` that pass `f`.
pub open spec fn picked(doc: FlowchartDocument, f: NodeFilter) -> Set<NodeId> {
    ids_where(doc.nodes@, doc.nodes@.len() as int, |n: Node| passes(f, doc.edges@, n))
}

/// The labels of the first nodes with the identifiers `ids`, in order, skipping identifiers
/// that name no node.
pub open spec fn labels_of(nodes: Seq<Node>, ids: Seq<NodeId>) -> Seq<Seq<char>>
    decreases ids.len(),
{
    if ids.len() == 0 {
        Seq::empty()
    } else {
        let r = labels_of(nodes, ids.drop_last());
        match first_index(nodes, ids.last()) {
            Some(i) => r.push(nodes[i].label@),
            None => r,
        }
    }
}

/// The labels that copying labels takes: those of the selected nodes `ids`, or of every
/// node when none is selected.
pub open spec fn copied_labels(nodes: Seq<Node>, ids: Seq<NodeId>) -> Seq<Seq<char>> {
    if ids.len() == 0 {
        nodes.map_values(|n: Node| n.label@)
    } else {
        labels_of(nodes, ids)
    }
}

/// The lines `ls` joined with line breaks.
pub open spec fn joined_lines(ls: Seq<Seq<char>>) -> Seq<char>
    decreases ls.len(),
{
    if ls.len() == 0 {
        Seq::empty()
    } else if ls.len() == 1 {
        ls[0]
    } else {
        joined_lines(ls.drop_last()) + "\n"@ + ls.last()
    }
}

/// Whether the palette action `action` took state `a` to state `b` with outcome `out`.
/// `order` lists the selected nodes and `edge_order` the selected edges, in the order the
/// editor holds them; `fresh` gives the identifiers for copies; `focus_on` tells whether
/// focus mode was on; `contrast` is the theme's rule for text on a fill.
pub open spec fn palette_effect<F: Fn([u8; 4]) -> [u8; 4]>(
    action: PaletteAction,
    a: PaletteState,
    b: PaletteState,
    order: Seq<NodeId>,
    edge_order: Seq<EdgeId>,
    fresh: Seq<NodeId>,
    focus_on: bool,
    contrast: F,
    out: PaletteOutcome,
) -> bool {
    let nodes = a.doc.nodes@;
    let edges = a.doc.edges@;
    let keep_selection = b.nodes@ == a.nodes@ && b.edges@ == a.edges@;
    match action {
        PaletteAction::FitAll | PaletteAction::ZoomIn | PaletteAction::ZoomOut | PaletteAction::ZoomReset
        | PaletteAction::Undo | PaletteAction::Redo | PaletteAction::AutoLayout | PaletteAction::ToggleGrid
        | PaletteAction::ToggleSnap | PaletteAction::TogglePresentation | PaletteAction::ToggleFlowAnimation
        | PaletteAction::ToggleDarkMode | PaletteAction::SwitchToFlowchart | PaletteAction::SwitchToER
        | PaletteAction::SwitchToFigJam | PaletteAction::ToggleToolbarCollapse
        | PaletteAction::TogglePropertiesCollapse | PaletteAction::SetBgDots | PaletteAction::SetBgLines
        | PaletteAction::SetBgCrosshatch | PaletteAction::SetBgNone | PaletteAction::OpenFindReplace
        | PaletteAction::OpenSearch | PaletteAction::ToggleTimelineMode | PaletteAction::LoadHypothesisTemplate
        | PaletteAction::LoadSwotTemplate | PaletteAction::LoadRoadmapTemplate | PaletteAction::LoadForceFieldTemplate
        | PaletteAction::LoadLeanCanvasTemplate | PaletteAction::LoadOkrTreeTemplate | PaletteAction::LoadFiveWhysTemplate
        | PaletteAction::LoadImpactEffortTemplate | PaletteAction::LoadCustomerJourneyTemplate
        | PaletteAction::LoadDecisionRecordTemplate | PaletteAction::LoadEmpathyMapTemplate
        | PaletteAction::LoadValuePropositionTemplate | PaletteAction::LoadFishboneTemplate
        | PaletteAction::LoadPestleTemplate | PaletteAction::LoadMindMapTemplate | PaletteAction::LoadPremorttemTemplate
        | PaletteAction::LoadRoseBudThornTemplate | PaletteAction::LoadDoubleDiamondTemplate
        | PaletteAction::LoadAssumptionMapTemplate | PaletteAction::LoadBusinessModelCanvasTemplate
        | PaletteAction::LoadHypothesisCanvasTemplate | PaletteAction::LoadStoryMapTemplate
        | PaletteAction::LoadIceScoringTemplate | PaletteAction::LoadJobsToBeDoneTemplate
        | PaletteAction::LoadCausalLoopTemplate | PaletteAction::LoadExperimentBoardTemplate
        | PaletteAction::LoadTheoryOfChangeTemplate | PaletteAction::LoadCompetitiveAnalysisTemplate
        | PaletteAction::LoadWhatSoWhatTemplate | PaletteAction::LoadTwoByTwoMatrixTemplate
        | PaletteAction::LoadDesignSprintTemplate | PaletteAction::LoadProblemSolutionFitTemplate
        | PaletteAction::LoadSupportTicketFlowTemplate | PaletteAction::LoadIncidentResponseTemplate
        | PaletteAction::LoadSupportEscalationMatrixTemplate | PaletteAction::LoadBugTriageTemplate
        | PaletteAction::LoadKnowledgeBaseStructureTemplate | PaletteAction::LoadVoiceOfCustomerTemplate
        | PaletteAction::LoadCustomerOnboardingTemplate | PaletteAction::LoadSupportHealthDashboardTemplate
        | PaletteAction::LoadPostmortemTemplate | PaletteAction::LoadSupportSLAMatrixTemplate
        | PaletteAction::LoadSupportQueueTemplate | PaletteAction::OpenRecentFile(_) => {
            &&& unchanged(a, b)
            &&& !out.snapshot && out.status is None
            &&& out.request == PaletteRequest::Editor(action)
        },
        PaletteAction::ResetView => {
            &&& unchanged(a, b)
            &&& !out.snapshot
            &&& text_of(out.status) == Some("View reset to 100% \u{2014} Cmd+1 to fit all"@)
            &&& out.request == PaletteRequest::Editor(action)
        },
        PaletteAction::ToggleFocusMode => {
            &&& unchanged(a, b)
            &&& !out.snapshot
            &&& text_of(out.status) == Some(
                if focus_on { "Focus mode off"@ } else { "Focus mode on \u{2014} unrelated nodes dimmed"@ },
            )
            &&& out.request == PaletteRequest::Editor(action)
        },
        PaletteAction::SelectAll => {
            &&& same_doc(a.doc, b.doc) && b.style == a.style && b.edges@ == a.edges@
            &&& b.nodes@ == a.nodes@.union(picked(a.doc, NodeFilter::All))
            &&& silent(out)
        },
        PaletteAction::Deselect => {
            &&& same_doc(a.doc, b.doc) && b.style == a.style
            &&& b.nodes@.is_empty() && b.edges@.is_empty()
            &&& silent(out)
        },
        PaletteAction::DeleteSelected => {
            let gone = unlocked_ids(nodes, order);
            &&& b.doc.nodes@ == nodes.filter(|n: Node| !gone.contains(n.id))
            &&& b.doc.edges@ == edges.filter(|e: Edge| edge_survives(e, gone, edge_order))
            &&& b.style == a.style
            &&& out.request == PaletteRequest::Nothing
            &&& match deleted_spec(gone.len(), edge_order.len()) {
                Some(m) => b.nodes@.is_empty() && b.edges@.is_empty() && out.snapshot && text_of(out.status) == Some(m),
                None => keep_selection && !out.snapshot && out.status is None,
            }
        },
        PaletteAction::Duplicate => if order.len() == 0 {
            unchanged(a, b) && silent(out)
        } else {
            let copies = duplicates(nodes, order, fresh);
            &&& b.doc.nodes@ == nodes + copies && b.doc.edges@ == edges
            &&& b.nodes@ == copies.map_values(|n: Node| n.id).to_set() && b.edges@.is_empty()
            &&& b.style == a.style
            &&& out.snapshot
            &&& text_of(out.status) == Some(selection_spec(SelectionKind::Duplicated, copies.len(), false))
            &&& out.request matches PaletteRequest::PlaceCopies(ids) && ids@ == copies.map_values(|n: Node| n.id)
        },
        PaletteAction::CopyStyle => {
            &&& same_doc(a.doc, b.doc) && keep_selection
            &&& !out.snapshot && out.request == PaletteRequest::Nothing
            &&& if order.len() > 0 && first_index(nodes, order[0]) is Some {
                let i = first_index(nodes, order[0])->0;
                &&& b.style == Some(NodeChange::FillAndText(nodes[i].fill_color, nodes[i].text_color))
                &&& text_of(out.status) == Some("Style copied"@)
            } else {
                b.style == a.style && out.status is None
            }
        },
        PaletteAction::PasteStyle => {
            &&& keep_selection && b.style == a.style && out.request == PaletteRequest::Nothing
            &&& match a.style {
                None => same_doc(a.doc, b.doc) && !out.snapshot && out.status is None,
                Some(c) => {
                    &&& edited(nodes, b.doc.nodes@, order, c) && b.doc.edges@ == edges
                    &&& out.snapshot == (order.len() > 0)
                    &&& text_of(out.status) == if order.len() > 0 { Some("Style pasted"@) } else { None }
                },
            }
        },
        PaletteAction::ExportMermaid => {
            &&& unchanged(a, b)
            &&& !out.snapshot
            &&& text_of(out.status) == Some("Mermaid copied to clipboard"@)
            &&& out.request matches PaletteRequest::CopyText(t) && t@ == mermaid_spec(a.doc)
        },
        PaletteAction::CollapseAll => {
            &&& b.doc.nodes@ == nodes.map_values(|n: Node| after_collapse(n)) && b.doc.edges@ == edges
            &&& keep_selection && b.style == a.style
            &&& out.snapshot && out.request == PaletteRequest::Nothing
            &&& text_of(out.status) == Some(
                "Collapsed "@ + decimal(nodes.filter(|n: Node| folds(n)).len()) + " nodes"@,
            )
        },
        PaletteAction::ExpandAll => {
            &&& b.doc.nodes@ == nodes.map_values(|n: Node| after_expand(n)) && b.doc.edges@ == edges
            &&& keep_selection && b.style == a.style
            &&& out.snapshot && out.request == PaletteRequest::Nothing
            &&& text_of(out.status) == Some(
                "Expanded "@ + decimal(nodes.filter(|n: Node| n.collapsed).len()) + " nodes"@,
            )
        },
        PaletteAction::InvertSelection => {
            &&& same_doc(a.doc, b.doc) && b.style == a.style && b.edges@ == a.edges@
            &&& b.nodes@ == ids_where(nodes, nodes.len() as int, |n: Node| !a.nodes@.contains(n.id))
            &&& !out.snapshot && out.request == PaletteRequest::Nothing
            &&& text_of(out.status) == Some(selection_spec(SelectionKind::Inverted, b.nodes@.len(), false))
        },
        PaletteAction::SelectSimilarShape => {
            &&& same_doc(a.doc, b.doc) && b.style == a.style && b.edges@ == a.edges@
            &&& !out.snapshot && out.status is None
            &&& if order.len() > 0 && first_index(nodes, order[0]) is Some
                && nodes[first_index(nodes, order[0])->0].kind is Shape {
                let s = nodes[first_index(nodes, order[0])->0].kind->shape;
                &&& b.nodes@ == picked(a.doc, NodeFilter::Shape(s))
                &&& out.request == PaletteRequest::SimilarShape(s, b.nodes@.len() as usize)
            } else {
                b.nodes@ == a.nodes@ && out.request == PaletteRequest::Nothing
            }
        },
        PaletteAction::SelectSimilarTag => {
            &&& same_doc(a.doc, b.doc) && b.style == a.style && b.edges@ == a.edges@
            &&& !out.snapshot && out.status is None
            &&& if order.len() > 0 && first_index(nodes, order[0]) is Some {
                let t = nodes[first_index(nodes, order[0])->0].tag;
                &&& b.nodes@ == picked(a.doc, NodeFilter::Tag(t))
                &&& out.request == PaletteRequest::SimilarTag(t, b.nodes@.len() as usize)
            } else {
                b.nodes@ == a.nodes@ && out.request == PaletteRequest::Nothing
            }
        },
        PaletteAction::SelectSimilarSection => {
            &&& same_doc(a.doc, b.doc) && b.style == a.style && b.edges@ == a.edges@
            &&& !out.snapshot && out.request == PaletteRequest::Nothing
            &&& if order.len() > 0 && first_index(nodes, order[0]) is Some {
                let sec = nodes[first_index(nodes, order[0])->0].section_name@;
                &&& b.nodes@ == ids_where(nodes, nodes.len() as int, |n: Node| n.section_name@ == sec)
                &&& text_of(out.status) == Some(section_selected_spec(b.nodes@.len(), sec))
            } else {
                b.nodes@ == a.nodes@ && out.status is None
            }
        },
        PaletteAction::QuickStats => {
            &&& unchanged(a, b)
            &&& !out.snapshot && out.request == PaletteRequest::Nothing
            &&& text_of(out.status) == Some(stats_message_spec(doc_stats(a.doc)))
        },
        PaletteAction::CopyLabelsToClipboard => {
            let ls = copied_labels(nodes, order);
            &&& unchanged(a, b)
            &&& !out.snapshot
            &&& if ls.len() == 0 {
                text_of(out.status) == Some("No nodes to copy labels from"@) && out.request == PaletteRequest::Nothing
            } else {
                &&& text_of(out.status) == Some("Copied "@ + count_phrase_spec(ls.len(), "label"@) + " to clipboard"@)
                &&& out.request matches PaletteRequest::CopyText(t) && t@ == joined_lines(ls)
            }
        },
        PaletteAction::SelectAllEdges => {
            &&& same_doc(a.doc, b.doc) && b.style == a.style && b.nodes@ == a.nodes@
            &&& b.edges@ == edge_ids_where(edges, edges.len() as int, |e: Edge| true)
            &&& !out.snapshot && out.request == PaletteRequest::Nothing
            &&& text_of(out.status) == Some(selection_spec(SelectionKind::AllEdges, b.edges@.len(), false))
        },
        PaletteAction::SelectEdgesOfSelection => {
            &&& same_doc(a.doc, b.doc) && b.style == a.style && b.nodes@ == a.nodes@
            &&& !out.snapshot && out.request == PaletteRequest::Nothing
            &&& if a.nodes@.is_empty() {
                b.edges@ == a.edges@ && text_of(out.status) == Some(selection_spec(SelectionKind::EdgesBetween, 0, true))
            } else {
                &&& b.edges@ == edge_ids_where(
                    edges,
                    edges.len() as int,
                    |e: Edge| a.nodes@.contains(e.source.node_id) && a.nodes@.contains(e.target.node_id),
                )
                &&& text_of(out.status) == Some(selection_spec(SelectionKind::EdgesBetween, b.edges@.len(), false))
            }
        },
        PaletteAction::SelectOrphans => {
            &&& same_doc(a.doc, b.doc) && b.style == a.style
            &&& b.nodes@ == picked(a.doc, NodeFilter::Orphans) && b.edges@.is_empty()
            &&& !out.snapshot && out.request == PaletteRequest::Nothing
            &&& text_of(out.status) == Some(selection_spec(SelectionKind::Orphans, b.nodes@.len(), false))
        },
        PaletteAction::RandomizeColors => {
            &&& keep_selection && b.style == a.style && out.request == PaletteRequest::Nothing
            &&& text_of(out.status) == Some(colors_spec(order.len()))
            &&& if order.len() == 0 {
                same_doc(a.doc, b.doc) && !out.snapshot
            } else {
                randomized(nodes, b.doc.nodes@, order, contrast) && b.doc.edges@ == edges && out.snapshot
            }
        },
    }
}

/// An outcome that records nothing, says nothing and asks nothing.
fn nothing() -> (out: PaletteOutcome)
    ensures
        silent(out),
{
    PaletteOutcome { snapshot: false, status: None, request: PaletteRequest::Nothing }
}

/// Adds every node of the document to the node selection.
fn select_every_node(st: &mut PaletteState)
    ensures
        final(st).doc == old(st).doc,
        final(st).edges == old(st).edges,
        final(st).style == old(st).style,
        final(st).nodes@ == old(st).nodes@.union(picked(old(st).doc, NodeFilter::All)),
{
    let ghost start = st.nodes@;
    let ghost p = |n: Node| passes(NodeFilter::All, st.doc.edges@, n);
    let ghost nodes = st.doc.nodes@;
    let mut k: usize = 0;
    while k < st.doc.nodes.len()
        invariant
            0 <= k <= nodes.len(),
            st.doc.nodes@ == nodes,
            st.doc == old(st).doc,
            st.edges == old(st).edges,
            st.style == old(st).style,
            start == old(st).nodes@,
            p == (|n: Node| passes(NodeFilter::All, old(st).doc.edges@, n)),
            st.nodes@ == start.union(ids_where(nodes, k as int, p)),
        decreases nodes.len() - k,
    {
        let id = st.doc.nodes[k].id;
        st.nodes.insert(id);
        proof {
            assert forall|v: NodeId| #[trigger] ids_where(nodes, k + 1, p).contains(v) <==> (ids_where(nodes, k as int, p).contains(v) || v == id) by {
                if v == id {
                    assert(nodes[k as int].id == v && p(nodes[k as int]));
                }
                if ids_where(nodes, k + 1, p).contains(v) {
                    let i = choose|i: int| 0 <= i < k + 1 && #[trigger] nodes[i].id == v && p(nodes[i]);
                    if i < k {
                        assert(ids_where(nodes, k as int, p).contains(v));
                    }
                }
                if ids_where(nodes, k as int, p).contains(v) {
                    let i = choose|i: int| 0 <= i < k && #[trigger] nodes[i].id == v && p(nodes[i]);
                    assert(nodes[i].id == v);
                }
            }
            assert(st.nodes@ =~= start.union(ids_where(nodes, k + 1, p)));
        }
        k = k + 1;
    }
}

/// The labels that copying labels takes, joined with line breaks, and how many there are.
fn label_text(doc: &FlowchartDocument, order: &Vec<NodeId>) -> (r: (String, usize))
    ensures
        r.0@ == joined_lines(copied_labels(doc.nodes@, order@)),
        r.1 == copied_labels(doc.nodes@, order@).len(),
{
    let ghost ls = copied_labels(doc.nodes@, order@);
    let mut text = String::new();
    let mut count: usize = 0;
    if order.len() == 0 {
        let mut k: usize = 0;
        while k < doc.nodes.len()
            invariant
                0 <= k <= doc.nodes@.len(),
                ls == doc.nodes@.map_values(|n: Node| n.label@),
                count == k,
                text@ == joined_lines(ls.take(k as int)),
            decreases doc.nodes@.len() - k,
        {
            proof {
                assert(ls.take(k + 1).drop_last() =~= ls.take(k as int));
            }
            if k > 0 {
                push_all(&mut text, "\n");
            }
            push_all(&mut text, doc.nodes[k].label.as_str());
            proof {
                if k == 0 {
                    assert(ls.take(1) =~= seq![ls[0]]);
                    assert(text@ =~= joined_lines(ls.take(1)));
                } else {
                    assert(text@ =~= joined_lines(ls.take(k + 1)));
                }
            }
            count = count + 1;
            k = k + 1;
        }
        assert(ls.take(k as int) =~= ls);
    } else {
        let mut k: usize = 0;
        while k < order.len()
            invariant
                0 <= k <= order@.len(),
                order@.len() > 0,
                ls == labels_of(doc.nodes@, order@),
                count == labels_of(doc.nodes@, order@.take(k as int)).len(),
                count <= k,
                text@ == joined_lines(labels_of(doc.nodes@, order@.take(k as int))),
            decreases order@.len() - k,
        {
            proof {
                assert(order@.take(k + 1).drop_last() =~= order@.take(k as int));
                assert(order@.take(k + 1).last() == order@[k as int]);
            }
            let ghost prev = labels_of(doc.nodes@, order@.take(k as int));
            match find_node_index(&doc.nodes, order[k]) {
                Some(i) => {
                    proof {
                        lemma_first_index(doc.nodes@, order@[k as int], i as int);
                    }
                    if count > 0 {
                        push_all(&mut text, "\n");
                    }
                    push_all(&mut text, doc.nodes[i].label.as_str());
                    proof {
                        let now = prev.push(doc.nodes@[i as int].label@);
                        assert(labels_of(doc.nodes@, order@.take(k + 1)) == now);
                        if count == 0 {
                            assert(now =~= seq![doc.nodes@[i as int].label@]);
                        } else {
                            assert(now.drop_last() =~= prev);
                        }
                        assert(text@ =~= joined_lines(now));
                    }
                    count = count + 1;
                },
                None => {
                    assert(first_index(doc.nodes@, order@[k as int]) is None);
                },
            }
            k = k + 1;
        }
        assert(order@.take(k as int) =~= order@);
    }
    (text, count)
}

/// Carries out the palette action `action` on the editor's state `st`. `order` lists the
/// selected nodes and `edge_order` the selected edges, in the order the editor holds them;
/// `fresh` gives one new identifier per selected node for copies; `focus_on` tells whether
/// focus mode is on; `contrast` is the theme's rule for the text colour on a fill.
///
/// Each action's effect is stated by `palette_effect`: the document and selection it
/// leaves, whether the document goes into the undo history, the status message, and what
/// is left for the editor.
pub fn palette_step<F: Fn([u8; 4]) -> [u8; 4]>(
    st: &mut PaletteState,
    action: PaletteAction,
    order: &Vec<NodeId>,
    edge_order: &Vec<EdgeId>,
    fresh: &Vec<NodeId>,
    focus_on: bool,
    contrast: F,
) -> (out: PaletteOutcome)
    requires
        order@.no_duplicates(),
        order@.to_set() == old(st).nodes@,
        edge_order@.to_set() == old(st).edges@,
        fresh@.len() == order@.len(),
        old(st).doc.nodes@.len() + order@.len() <= usize::MAX,
        forall|c: [u8; 4]| contrast.requires((c,)),
    ensures
        palette_effect(action, *old(st), *final(st), order@, edge_order@, fresh@, focus_on, contrast, out),
{
    match action {
        PaletteAction::ResetView => PaletteOutcome {
            snapshot: false,
            status: Some("View reset to 100% \u{2014} Cmd+1 to fit all".to_owned()),
            request: PaletteRequest::Editor(action),
        },
        PaletteAction::ToggleFocusMode => PaletteOutcome {
            snapshot: false,
            status: Some(
                if focus_on {
                    "Focus mode off".to_owned()
                } else {
                    "Focus mode on \u{2014} unrelated nodes dimmed".to_owned()
                },
            ),
            request: PaletteRequest::Editor(action),
        },
        PaletteAction::SelectAll => {
            select_every_node(st);
            nothing()
        },
        PaletteAction::Deselect => {
            st.nodes.clear();
            st.edges.clear();
            nothing()
        },
        PaletteAction::DeleteSelected => {
            let msg = delete_selected(&mut st.doc, order, edge_order);
            match msg {
                Some(m) => {
                    st.nodes.clear();
                    st.edges.clear();
                    PaletteOutcome { snapshot: true, status: Some(m), request: PaletteRequest::Nothing }
                },
                None => nothing(),
            }
        },
        PaletteAction::Duplicate => {
            if order.len() == 0 {
                proof {
                    assert(order@ =~= Seq::<NodeId>::empty());
                    assert(old(st).nodes@ =~= Set::<NodeId>::empty());
                }
                return nothing();
            }
            let ids = duplicate_nodes(&mut st.doc, order, fresh);
            st.nodes.clear();
            st.edges.clear();
            let ghost d = st.doc;
            let mut k: usize = 0;
            while k < ids.len()
                invariant
                    0 <= k <= ids@.len(),
                    st.doc == d,
                    st.edges@.is_empty(),
                    st.style == old(st).style,
                    st.nodes@ == ids@.take(k as int).to_set(),
                decreases ids@.len() - k,
            {
                st.nodes.insert(ids[k]);
                proof {
                    let prev = ids@.take(k as int);
                    assert(ids@.take(k + 1) =~= prev.push(ids@[k as int]));
                    assert forall|v: NodeId| #[trigger] prev.push(ids@[k as int]).contains(v) <==> (prev.contains(v) || v == ids@[k as int]) by {
                        if prev.push(ids@[k as int]).contains(v) && v != ids@[k as int] {
                            let j = choose|j: int| 0 <= j < prev.len() + 1 && prev.push(ids@[k as int])[j] == v;
                            assert(prev[j] == v);
                        }
                        if prev.contains(v) {
                            let j = choose|j: int| 0 <= j < prev.len() && prev[j] == v;
                            assert(prev.push(ids@[k as int])[j] == v);
                        }
                        if v == ids@[k as int] {
                            assert(prev.push(ids@[k as int])[prev.len() as int] == v);
                        }
                    }
                    assert(st.nodes@ =~= ids@.take(k + 1).to_set());
                }
                k = k + 1;
            }
            assert(ids@.take(k as int) =~= ids@);
            let status = selection_message(SelectionKind::Duplicated, ids.len(), false);
            proof {
                let copies = duplicates(old(st).doc.nodes@, order@, fresh@);
                assert(st.doc.nodes@ == old(st).doc.nodes@ + copies);
                assert(st.doc.edges@ == old(st).doc.edges@);
                assert(st.nodes@ == copies.map_values(|n: Node| n.id).to_set());
                assert(st.edges@.is_empty());
                assert(st.style == old(st).style);
                assert(status@ == selection_spec(SelectionKind::Duplicated, copies.len(), false));
            }
            PaletteOutcome { snapshot: true, status: Some(status), request: PaletteRequest::PlaceCopies(ids) }
        },
        PaletteAction::CopyStyle => {
            if order.len() > 0 {
                match copy_style(&st.doc, order[0]) {
                    Some(c) => {
                        proof {
                            let i = choose|i: int|
                                0 <= i < st.doc.nodes@.len() && #[trigger] st.doc.nodes@[i].id == order@[0] && first_with_id(st.doc.nodes@, i)
                                    && c == NodeChange::FillAndText(st.doc.nodes@[i].fill_color, st.doc.nodes@[i].text_color);
                            lemma_first_index(st.doc.nodes@, order@[0], i);
                        }
                        st.style = Some(c);
                        return PaletteOutcome { snapshot: false, status: Some("Style copied".to_owned()), request: PaletteRequest::Nothing };
                    },
                    None => {
                        proof {
                            if first_index(st.doc.nodes@, order@[0]) is Some {
                                let i = first_index(st.doc.nodes@, order@[0])->0;
                                assert(st.doc.nodes@[i].id == order@[0]);
                            }
                        }
                    },
                }
            }
            nothing()
        },
        PaletteAction::PasteStyle => {
            match &st.style {
                None => nothing(),
                Some(c) => {
                    let c = c.clone_change();
                    edit_nodes(&mut st.doc, order, &c);
                    if order.len() > 0 {
                        PaletteOutcome { snapshot: true, status: Some("Style pasted".to_owned()), request: PaletteRequest::Nothing }
                    } else {
                        nothing()
                    }
                },
            }
        },
        PaletteAction::ExportMermaid => {
            let text = to_mermaid(&st.doc);
            PaletteOutcome {
                snapshot: false,
                status: Some("Mermaid copied to clipboard".to_owned()),
                request: PaletteRequest::CopyText(text),
            }
        },
        PaletteAction::CollapseAll => {
            let n = collapse_all(&mut st.doc);
            PaletteOutcome { snapshot: true, status: Some(collapsed_message(n)), request: PaletteRequest::Nothing }
        },
        PaletteAction::ExpandAll => {
            let n = expand_all(&mut st.doc);
            PaletteOutcome { snapshot: true, status: Some(expanded_message(n)), request: PaletteRequest::Nothing }
        },
        PaletteAction::InvertSelection => {
            let mut current: HashSet<NodeId> = HashSet::new();
            std::mem::swap(&mut current, &mut st.nodes);
            let ghost was = current@;
            let f = NodeFilter::NotIn(current);
            st.nodes = select_nodes(&st.doc, &f);
            proof {
                let nodes = st.doc.nodes@;
                assert(ids_where(nodes, nodes.len() as int, |n: Node| passes(f, st.doc.edges@, n)) =~= ids_where(
                    nodes,
                    nodes.len() as int,
                    |n: Node| !was.contains(n.id),
                ));
            }
            let status = selection_message(SelectionKind::Inverted, st.nodes.len(), false);
            PaletteOutcome { snapshot: false, status: Some(status), request: PaletteRequest::Nothing }
        },
        PaletteAction::SelectSimilarShape => {
            if order.len() > 0 {
                match find_node_index(&st.doc.nodes, order[0]) {
                    Some(i) => {
                        proof {
                            lemma_first_index(st.doc.nodes@, order@[0], i as int);
                        }
                        match st.doc.nodes[i].kind {
                            NodeKind::Shape { shape } => {
                                st.nodes = select_nodes(&st.doc, &NodeFilter::Shape(shape));
                                let n = st.nodes.len();
                                return PaletteOutcome {
                                    snapshot: false,
                                    status: None,
                                    request: PaletteRequest::SimilarShape(shape, n),
                                };
                            },
                            _ => {},
                        }
                    },
                    None => {
                        assert(first_index(st.doc.nodes@, order@[0]) is None);
                    },
                }
            }
            nothing()
        },
        PaletteAction::SelectSimilarTag => {
            if order.len() > 0 {
                match find_node_index(&st.doc.nodes, order[0]) {
                    Some(i) => {
                        proof {
                            lemma_first_index(st.doc.nodes@, order@[0], i as int);
                        }
                        let t = st.doc.nodes[i].tag;
                        st.nodes = select_nodes(&st.doc, &NodeFilter::Tag(t));
                        let n = st.nodes.len();
                        return PaletteOutcome { snapshot: false, status: None, request: PaletteRequest::SimilarTag(t, n) };
                    },
                    None => {
                        assert(first_index(st.doc.nodes@, order@[0]) is None);
                    },
                }
            }
            nothing()
        },
        PaletteAction::SelectSimilarSection => {
            if order.len() > 0 {
                match find_node_index(&st.doc.nodes, order[0]) {
                    Some(i) => {
                        proof {
                            lemma_first_index(st.doc.nodes@, order@[0], i as int);
                        }
                        let sec = st.doc.nodes[i].section_name.clone();
                        st.nodes = nodes_in_section(&st.doc, sec.as_str());
                        proof {
                            let nodes = st.doc.nodes@;
                            let want = nodes[i as int].section_name@;
                            assert(ids_where(nodes, nodes.len() as int, |n: Node| n.section_name@ == sec@) =~= ids_where(
                                nodes,
                                nodes.len() as int,
                                |n: Node| n.section_name@ == want,
                            ));
                        }
                        let status = section_selected_message(st.nodes.len(), sec.as_str());
                        return PaletteOutcome { snapshot: false, status: Some(status), request: PaletteRequest::Nothing };
                    },
                    None => {
                        assert(first_index(st.doc.nodes@, order@[0]) is None);
                    },
                }
            }
            nothing()
        },
        PaletteAction::QuickStats => {
            let stats = diagram_stats(&st.doc);
            PaletteOutcome { snapshot: false, status: Some(stats_message(&stats)), request: PaletteRequest::Nothing }
        },
        PaletteAction::CopyLabelsToClipboard => {
            let (text, n) = label_text(&st.doc, order);
            if n == 0 {
                PaletteOutcome {
                    snapshot: false,
                    status: Some("No nodes to copy labels from".to_owned()),
                    request: PaletteRequest::Nothing,
                }
            } else {
                let mut m = String::new();
                push_all(&mut m, "Copied ");
                push_all(&mut m, count_phrase(n, "label").as_str());
                push_all(&mut m, " to clipboard");
                PaletteOutcome { snapshot: false, status: Some(m), request: PaletteRequest::CopyText(text) }
            }
        },
        PaletteAction::SelectAllEdges => {
            st.edges = select_edges(&st.doc, &st.nodes, false);
            proof {
                let sel = st.nodes@;
                let edges = st.doc.edges@;
                assert(edge_ids_where(edges, edges.len() as int, |e: Edge| !false || (sel.contains(e.source.node_id) && sel.contains(e.target.node_id)))
                    =~= edge_ids_where(edges, edges.len() as int, |e: Edge| true));
            }
            let status = selection_message(SelectionKind::AllEdges, st.edges.len(), false);
            proof {
                assert(same_doc(old(st).doc, st.doc));
                assert(st.nodes@ == old(st).nodes@);
                assert(st.style == old(st).style);
                assert(st.edges@ == edge_ids_where(st.doc.edges@, st.doc.edges@.len() as int, |e: Edge| true));
                assert(status@ == selection_spec(SelectionKind::AllEdges, st.edges@.len(), false));
            }
            PaletteOutcome { snapshot: false, status: Some(status), request: PaletteRequest::Nothing }
        },
        PaletteAction::SelectEdgesOfSelection => {
            if st.nodes.is_empty() {
                let status = selection_message(SelectionKind::EdgesBetween, 0, true);
                return PaletteOutcome { snapshot: false, status: Some(status), request: PaletteRequest::Nothing };
            }
            st.edges = select_edges(&st.doc, &st.nodes, true);
            proof {
                let sel = st.nodes@;
                let edges = st.doc.edges@;
                assert(edge_ids_where(edges, edges.len() as int, |e: Edge| !true || (sel.contains(e.source.node_id) && sel.contains(e.target.node_id)))
                    =~= edge_ids_where(edges, edges.len() as int, |e: Edge| sel.contains(e.source.node_id) && sel.contains(e.target.node_id)));
            }
            let status = selection_message(SelectionKind::EdgesBetween, st.edges.len(), false);
            proof {
                assert(same_doc(old(st).doc, st.doc));
                assert(st.nodes@ == old(st).nodes@);
                assert(status@ == selection_spec(SelectionKind::EdgesBetween, st.edges@.len(), false));
                assert(st.edges@ == edge_ids_where(
                    st.doc.edges@,
                    st.doc.edges@.len() as int,
                    |e: Edge| old(st).nodes@.contains(e.source.node_id) && old(st).nodes@.contains(e.target.node_id),
                ));
                assert(!old(st).nodes@.is_empty());
            }
            PaletteOutcome { snapshot: false, status: Some(status), request: PaletteRequest::Nothing }
        },
        PaletteAction::SelectOrphans => {
            st.edges.clear();
            st.nodes = select_nodes(&st.doc, &NodeFilter::Orphans);
            let status = selection_message(SelectionKind::Orphans, st.nodes.len(), false);
            PaletteOutcome { snapshot: false, status: Some(status), request: PaletteRequest::Nothing }
        },
        PaletteAction::RandomizeColors => {
            let status = colors_message(order.len());
            if order.len() == 0 {
                return PaletteOutcome { snapshot: false, status: Some(status), request: PaletteRequest::Nothing };
            }
            randomize_colors(&mut st.doc, order, contrast);
            PaletteOutcome { snapshot: true, status: Some(status), request: PaletteRequest::Nothing }
        },
        _ => PaletteOutcome { snapshot: false, status: None, request: PaletteRequest::Editor(action) },
    }
}

} // verus!
