//! The command palette: its built-in actions, how a query selects them, and the cursor.
use vstd::prelude::*;
use crate::text::{contains_run, lowercase, str_contains};

verus! {

broadcast use vstd::string::group_string_axioms;

/// An action the command palette can run.
#[derive(Debug, Clone, Copy, PartialEq, Eq, Structural)]
pub enum PaletteAction {
    FitAll,
    ZoomIn,
    ZoomOut,
    ZoomReset,
    SelectAll,
    Deselect,
    DeleteSelected,
    Undo,
    Redo,
    Duplicate,
    CopyStyle,
    PasteStyle,
    AutoLayout,
    ToggleGrid,
    ToggleSnap,
    ToggleFocusMode,
    TogglePresentation,
    ToggleFlowAnimation,
    ToggleDarkMode,
    SwitchToFlowchart,
    SwitchToER,
    SwitchToFigJam,
    ToggleToolbarCollapse,
    TogglePropertiesCollapse,
    SetBgDots,
    SetBgLines,
    SetBgCrosshatch,
    SetBgNone,
    OpenFindReplace,
    OpenSearch,
    ExportMermaid,
    ToggleTimelineMode,
    LoadHypothesisTemplate,
    LoadSwotTemplate,
    LoadRoadmapTemplate,
    LoadForceFieldTemplate,
    LoadLeanCanvasTemplate,
    LoadOkrTreeTemplate,
    LoadFiveWhysTemplate,
    LoadImpactEffortTemplate,
    LoadCustomerJourneyTemplate,
    LoadDecisionRecordTemplate,
    LoadEmpathyMapTemplate,
    LoadValuePropositionTemplate,
    LoadFishboneTemplate,
    LoadPestleTemplate,
    LoadMindMapTemplate,
    LoadPremorttemTemplate,
    LoadRoseBudThornTemplate,
    LoadDoubleDiamondTemplate,
    LoadAssumptionMapTemplate,
    LoadBusinessModelCanvasTemplate,
    LoadHypothesisCanvasTemplate,
    LoadStoryMapTemplate,
    LoadIceScoringTemplate,
    LoadJobsToBeDoneTemplate,
    LoadCausalLoopTemplate,
    LoadExperimentBoardTemplate,
    LoadTheoryOfChangeTemplate,
    LoadCompetitiveAnalysisTemplate,
    LoadWhatSoWhatTemplate,
    LoadTwoByTwoMatrixTemplate,
    LoadDesignSprintTemplate,
    LoadProblemSolutionFitTemplate,
    LoadSupportTicketFlowTemplate,
    LoadIncidentResponseTemplate,
    LoadSupportEscalationMatrixTemplate,
    LoadBugTriageTemplate,
    LoadKnowledgeBaseStructureTemplate,
    LoadVoiceOfCustomerTemplate,
    LoadCustomerOnboardingTemplate,
    LoadSupportHealthDashboardTemplate,
    LoadPostmortemTemplate,
    LoadSupportSLAMatrixTemplate,
    LoadSupportQueueTemplate,
    CollapseAll,
    ExpandAll,
    InvertSelection,
    SelectSimilarShape,
    SelectSimilarTag,
    SelectSimilarSection,
    QuickStats,
    SelectOrphans,
    RandomizeColors,
    ResetView,
    SelectAllEdges,
    SelectEdgesOfSelection,
    CopyLabelsToClipboard,
    OpenRecentFile(usize),
}

/// A row of the command palette.
#[derive(Debug, Clone)]
pub struct PaletteEntry {
    pub icon: &'static str,
    pub label: String,
    pub category: &'static str,
    pub action: PaletteAction,
}

/// An entry as plain values: icon, label, category and action.
pub open spec fn entry_view(e: PaletteEntry) -> (Seq<char>, Seq<char>, Seq<char>, PaletteAction) {
    (e.icon@, e.label@, e.category@, e.action)
}

/// The built-in entries, in the order the palette lists them.
pub open spec fn builtin_entries_spec() -> Seq<(Seq<char>, Seq<char>, Seq<char>, PaletteAction)> {
    seq![
        ("⊙"@, "Fit all to view"@, "View"@, PaletteAction::FitAll),
        ("⊕"@, "Zoom in"@, "View"@, PaletteAction::ZoomIn),
        ("⊖"@, "Zoom out"@, "View"@, PaletteAction::ZoomOut),
        ("⊟"@, "Zoom to 100%"@, "View"@, PaletteAction::ZoomReset),
        ("⊞"@, "Toggle grid"@, "View"@, PaletteAction::ToggleGrid),
        ("⊠"@, "Toggle snap to grid"@, "View"@, PaletteAction::ToggleSnap),
        ("◎"@, "Focus mode"@, "View"@, PaletteAction::ToggleFocusMode),
        ("▣"@, "Presentation mode"@, "View"@, PaletteAction::TogglePresentation),
        ("≋"@, "Flow animation"@, "View"@, PaletteAction::ToggleFlowAnimation),
        ("☀"@, "Toggle dark/light mode"@, "View"@, PaletteAction::ToggleDarkMode),
        ("·"@, "Background: dots"@, "View"@, PaletteAction::SetBgDots),
        ("—"@, "Background: lines"@, "View"@, PaletteAction::SetBgLines),
        ("#"@, "Background: crosshatch"@, "View"@, PaletteAction::SetBgCrosshatch),
        (" "@, "Background: none"@, "View"@, PaletteAction::SetBgNone),
        ("◀"@, "Toggle left toolbar"@, "Panels"@, PaletteAction::ToggleToolbarCollapse),
        ("▶"@, "Toggle right properties"@, "Panels"@, PaletteAction::TogglePropertiesCollapse),
        ("↩"@, "Undo"@, "Edit"@, PaletteAction::Undo),
        ("↪"@, "Redo"@, "Edit"@, PaletteAction::Redo),
        ("⧉"@, "Duplicate selected"@, "Edit"@, PaletteAction::Duplicate),
        ("✕"@, "Delete selected"@, "Edit"@, PaletteAction::DeleteSelected),
        ("⊙"@, "Auto-layout (hierarchical)"@, "Edit"@, PaletteAction::AutoLayout),
        ("≡"@, "Copy node style"@, "Edit"@, PaletteAction::CopyStyle),
        ("≣"@, "Paste node style"@, "Edit"@, PaletteAction::PasteStyle),
        ("▼"@, "Collapse all nodes"@, "Edit"@, PaletteAction::CollapseAll),
        ("▲"@, "Expand all nodes"@, "Edit"@, PaletteAction::ExpandAll),
        ("⬚"@, "Select all"@, "Select"@, PaletteAction::SelectAll),
        ("⊘"@, "Deselect all"@, "Select"@, PaletteAction::Deselect),
        ("⇄"@, "Invert selection"@, "Select"@, PaletteAction::InvertSelection),
        ("◇"@, "Select similar shape"@, "Select"@, PaletteAction::SelectSimilarShape),
        ("●"@, "Select similar tag"@, "Select"@, PaletteAction::SelectSimilarTag),
        ("§"@, "Select similar section"@, "Select"@, PaletteAction::SelectSimilarSection),
        ("📋"@, "Copy labels to clipboard"@, "Edit"@, PaletteAction::CopyLabelsToClipboard),
        ("↔"@, "Select all edges"@, "Select"@, PaletteAction::SelectAllEdges),
        ("⇌"@, "Select edges of selected nodes"@, "Select"@, PaletteAction::SelectEdgesOfSelection),
        ("ℹ"@, "Quick diagram stats"@, "Info"@, PaletteAction::QuickStats),
        ("⊙"@, "Reset view to 100%"@, "View"@, PaletteAction::ResetView),
        ("○"@, "Select orphan (unconnected) nodes"@, "Select"@, PaletteAction::SelectOrphans),
        ("🎨"@, "Randomize colors of selected"@, "Edit"@, PaletteAction::RandomizeColors),
        ("⬡"@, "Switch to Flowchart mode"@, "Diagram"@, PaletteAction::SwitchToFlowchart),
        ("◫"@, "Switch to ER mode"@, "Diagram"@, PaletteAction::SwitchToER),
        ("★"@, "Switch to FigJam mode"@, "Diagram"@, PaletteAction::SwitchToFigJam),
        ("⊟"@, "Toggle timeline mode"@, "Diagram"@, PaletteAction::ToggleTimelineMode),
        ("💡"@, "Load hypothesis map template"@, "Templates"@, PaletteAction::LoadHypothesisTemplate),
        ("⊞"@, "Load SWOT analysis template"@, "Templates"@, PaletteAction::LoadSwotTemplate),
        ("📅"@, "Load roadmap timeline template"@, "Templates"@, PaletteAction::LoadRoadmapTemplate),
        ("⇄"@, "Load force field analysis"@, "Templates"@, PaletteAction::LoadForceFieldTemplate),
        ("◫"@, "Load lean canvas template"@, "Templates"@, PaletteAction::LoadLeanCanvasTemplate),
        ("⊙"@, "Load OKR tree template"@, "Templates"@, PaletteAction::LoadOkrTreeTemplate),
        ("❓"@, "Load 5 Whys root cause template"@, "Templates"@, PaletteAction::LoadFiveWhysTemplate),
        ("⊞"@, "Load Impact/Effort matrix"@, "Templates"@, PaletteAction::LoadImpactEffortTemplate),
        ("🗺"@, "Load customer journey map"@, "Templates"@, PaletteAction::LoadCustomerJourneyTemplate),
        ("📋"@, "Load decision record log (ADR)"@, "Templates"@, PaletteAction::LoadDecisionRecordTemplate),
        ("🧠"@, "Load empathy map template"@, "Templates"@, PaletteAction::LoadEmpathyMapTemplate),
        ("💎"@, "Load value proposition canvas"@, "Templates"@, PaletteAction::LoadValuePropositionTemplate),
        ("🐟"@, "Load fishbone (Ishikawa) diagram"@, "Templates"@, PaletteAction::LoadFishboneTemplate),
        ("🌍"@, "Load PESTLE analysis template"@, "Templates"@, PaletteAction::LoadPestleTemplate),
        ("🧠"@, "Load mind map template"@, "Templates"@, PaletteAction::LoadMindMapTemplate),
        ("💀"@, "Load premortem analysis"@, "Templates"@, PaletteAction::LoadPremorttemTemplate),
        ("🌹"@, "Load Rose-Bud-Thorn retro"@, "Templates"@, PaletteAction::LoadRoseBudThornTemplate),
        ("◈"@, "Load Double Diamond design process"@, "Templates"@, PaletteAction::LoadDoubleDiamondTemplate),
        ("⊞"@, "Load Assumption Map (test vs assume)"@, "Templates"@, PaletteAction::LoadAssumptionMapTemplate),
        ("🏢"@, "Load Business Model Canvas (9-block)"@, "Templates"@, PaletteAction::LoadBusinessModelCanvasTemplate),
        ("🧬"@, "Load Hypothesis Validation Canvas"@, "Templates"@, PaletteAction::LoadHypothesisCanvasTemplate),
        ("🗺"@, "Load User Story Map template"@, "Templates"@, PaletteAction::LoadStoryMapTemplate),
        ("🧊"@, "Load ICE Scoring Matrix (prioritize experiments)"@, "Templates"@, PaletteAction::LoadIceScoringTemplate),
        ("💼"@, "Load Jobs To Be Done canvas"@, "Templates"@, PaletteAction::LoadJobsToBeDoneTemplate),
        ("🔁"@, "Load Causal Loop Diagram (feedback loops)"@, "Templates"@, PaletteAction::LoadCausalLoopTemplate),
        ("🗃"@, "Load Experiment Board (backlog → running → validated)"@, "Templates"@, PaletteAction::LoadExperimentBoardTemplate),
        ("🌱"@, "Load Theory of Change (inputs → activities → impact)"@, "Templates"@, PaletteAction::LoadTheoryOfChangeTemplate),
        ("⚔"@, "Load Competitive Analysis Matrix"@, "Templates"@, PaletteAction::LoadCompetitiveAnalysisTemplate),
        ("🔁"@, "Load What? So What? Now What? (debrief)"@, "Templates"@, PaletteAction::LoadWhatSoWhatTemplate),
        ("⊞"@, "Load 2×2 Prioritization Matrix (Impact vs Effort)"@, "Templates"@, PaletteAction::LoadTwoByTwoMatrixTemplate),
        ("⚡"@, "Load Design Sprint (5-day Map/Sketch/Decide/Prototype/Test)"@, "Templates"@, PaletteAction::LoadDesignSprintTemplate),
        ("🎯"@, "Load Problem/Solution Fit canvas"@, "Templates"@, PaletteAction::LoadProblemSolutionFitTemplate),
        ("🎫"@, "Load Support Ticket Flow (intake → triage → resolve → close)"@, "Templates"@, PaletteAction::LoadSupportTicketFlowTemplate),
        ("🚨"@, "Load Incident Response Runbook (SEV-1/2/3 playbook)"@, "Templates"@, PaletteAction::LoadIncidentResponseTemplate),
        ("📊"@, "Load Support Escalation Matrix (L1→L4 tiers)"@, "Templates"@, PaletteAction::LoadSupportEscalationMatrixTemplate),
        ("🐛"@, "Load Bug Triage Process (report → fix → verify)"@, "Templates"@, PaletteAction::LoadBugTriageTemplate),
        ("📚"@, "Load Knowledge Base Structure (categories + lifecycle)"@, "Templates"@, PaletteAction::LoadKnowledgeBaseStructureTemplate),
        ("📣"@, "Load Voice of Customer (signals → themes → actions)"@, "Templates"@, PaletteAction::LoadVoiceOfCustomerTemplate),
        ("🚀"@, "Load Customer Onboarding Journey (sign-up → aha moment → health)"@, "Templates"@, PaletteAction::LoadCustomerOnboardingTemplate),
        ("📈"@, "Load Support Health Dashboard (volume · SLA · CSAT · escalations)"@, "Templates"@, PaletteAction::LoadSupportHealthDashboardTemplate),
        ("📋"@, "Load Incident Postmortem (blameless retro: timeline · root cause · action items)"@, "Templates"@, PaletteAction::LoadPostmortemTemplate),
        ("⏱"@, "Load Support SLA Matrix (P1/P2/P3/P4 response · resolve · escalation targets)"@, "Templates"@, PaletteAction::LoadSupportSLAMatrixTemplate),
        ("📋"@, "Load Support Queue kanban (Intake → Triage → In Progress → Resolved)"@, "Templates"@, PaletteAction::LoadSupportQueueTemplate),
        ("🔍"@, "Search nodes"@, "Search"@, PaletteAction::OpenSearch),
        ("⇄"@, "Find & Replace"@, "Search"@, PaletteAction::OpenFindReplace),
        ("⎘"@, "Copy as Mermaid to clipboard"@, "Export"@, PaletteAction::ExportMermaid)
    ]
}

/// The palette's built-in actions, grouped by category, in the order they are listed.
pub fn build_entries() -> (entries: Vec<PaletteEntry>)
    ensures
        entries@.map_values(|e: PaletteEntry| entry_view(e)) == builtin_entries_spec(),
{
    let mut entries: Vec<PaletteEntry> = Vec::new();
    entries.push(PaletteEntry { icon: "⊙", label: "Fit all to view".to_string(), category: "View", action: PaletteAction::FitAll });
    entries.push(PaletteEntry { icon: "⊕", label: "Zoom in".to_string(), category: "View", action: PaletteAction::ZoomIn });
    entries.push(PaletteEntry { icon: "⊖", label: "Zoom out".to_string(), category: "View", action: PaletteAction::ZoomOut });
    entries.push(PaletteEntry { icon: "⊟", label: "Zoom to 100%".to_string(), category: "View", action: PaletteAction::ZoomReset });
    entries.push(PaletteEntry { icon: "⊞", label: "Toggle grid".to_string(), category: "View", action: PaletteAction::ToggleGrid });
    entries.push(PaletteEntry { icon: "⊠", label: "Toggle snap to grid".to_string(), category: "View", action: PaletteAction::ToggleSnap });
    entries.push(PaletteEntry { icon: "◎", label: "Focus mode".to_string(), category: "View", action: PaletteAction::ToggleFocusMode });
    entries.push(PaletteEntry { icon: "▣", label: "Presentation mode".to_string(), category: "View", action: PaletteAction::TogglePresentation });
    entries.push(PaletteEntry { icon: "≋", label: "Flow animation".to_string(), category: "View", action: PaletteAction::ToggleFlowAnimation });
    entries.push(PaletteEntry { icon: "☀", label: "Toggle dark/light mode".to_string(), category: "View", action: PaletteAction::ToggleDarkMode });
    entries.push(PaletteEntry { icon: "·", label: "Background: dots".to_string(), category: "View", action: PaletteAction::SetBgDots });
    entries.push(PaletteEntry { icon: "—", label: "Background: lines".to_string(), category: "View", action: PaletteAction::SetBgLines });
    entries.push(PaletteEntry { icon: "#", label: "Background: crosshatch".to_string(), category: "View", action: PaletteAction::SetBgCrosshatch });
    entries.push(PaletteEntry { icon: " ", label: "Background: none".to_string(), category: "View", action: PaletteAction::SetBgNone });
    entries.push(PaletteEntry { icon: "◀", label: "Toggle left toolbar".to_string(), category: "Panels", action: PaletteAction::ToggleToolbarCollapse });
    entries.push(PaletteEntry { icon: "▶", label: "Toggle right properties".to_string(), category: "Panels", action: PaletteAction::TogglePropertiesCollapse });
    entries.push(PaletteEntry { icon: "↩", label: "Undo".to_string(), category: "Edit", action: PaletteAction::Undo });
    entries.push(PaletteEntry { icon: "↪", label: "Redo".to_string(), category: "Edit", action: PaletteAction::Redo });
    entries.push(PaletteEntry { icon: "⧉", label: "Duplicate selected".to_string(), category: "Edit", action: PaletteAction::Duplicate });
    entries.push(PaletteEntry { icon: "✕", label: "Delete selected".to_string(), category: "Edit", action: PaletteAction::DeleteSelected });
    entries.push(PaletteEntry { icon: "⊙", label: "Auto-layout (hierarchical)".to_string(), category: "Edit", action: PaletteAction::AutoLayout });
    entries.push(PaletteEntry { icon: "≡", label: "Copy node style".to_string(), category: "Edit", action: PaletteAction::CopyStyle });
    entries.push(PaletteEntry { icon: "≣", label: "Paste node style".to_string(), category: "Edit", action: PaletteAction::PasteStyle });
    entries.push(PaletteEntry { icon: "▼", label: "Collapse all nodes".to_string(), category: "Edit", action: PaletteAction::CollapseAll });
    entries.push(PaletteEntry { icon: "▲", label: "Expand all nodes".to_string(), category: "Edit", action: PaletteAction::ExpandAll });
    entries.push(PaletteEntry { icon: "⬚", label: "Select all".to_string(), category: "Select", action: PaletteAction::SelectAll });
    entries.push(PaletteEntry { icon: "⊘", label: "Deselect all".to_string(), category: "Select", action: PaletteAction::Deselect });
    entries.push(PaletteEntry { icon: "⇄", label: "Invert selection".to_string(), category: "Select", action: PaletteAction::InvertSelection });
    entries.push(PaletteEntry { icon: "◇", label: "Select similar shape".to_string(), category: "Select", action: PaletteAction::SelectSimilarShape });
    entries.push(PaletteEntry { icon: "●", label: "Select similar tag".to_string(), category: "Select", action: PaletteAction::SelectSimilarTag });
    entries.push(PaletteEntry { icon: "§", label: "Select similar section".to_string(), category: "Select", action: PaletteAction::SelectSimilarSection });
    entries.push(PaletteEntry { icon: "📋", label: "Copy labels to clipboard".to_string(), category: "Edit", action: PaletteAction::CopyLabelsToClipboard });
    entries.push(PaletteEntry { icon: "↔", label: "Select all edges".to_string(), category: "Select", action: PaletteAction::SelectAllEdges });
    entries.push(PaletteEntry { icon: "⇌", label: "Select edges of selected nodes".to_string(), category: "Select", action: PaletteAction::SelectEdgesOfSelection });
    entries.push(PaletteEntry { icon: "ℹ", label: "Quick diagram stats".to_string(), category: "Info", action: PaletteAction::QuickStats });
    entries.push(PaletteEntry { icon: "⊙", label: "Reset view to 100%".to_string(), category: "View", action: PaletteAction::ResetView });
    entries.push(PaletteEntry { icon: "○", label: "Select orphan (unconnected) nodes".to_string(), category: "Select", action: PaletteAction::SelectOrphans });
    entries.push(PaletteEntry { icon: "🎨", label: "Randomize colors of selected".to_string(), category: "Edit", action: PaletteAction::RandomizeColors });
    entries.push(PaletteEntry { icon: "⬡", label: "Switch to Flowchart mode".to_string(), category: "Diagram", action: PaletteAction::SwitchToFlowchart });
    entries.push(PaletteEntry { icon: "◫", label: "Switch to ER mode".to_string(), category: "Diagram", action: PaletteAction::SwitchToER });
    entries.push(PaletteEntry { icon: "★", label: "Switch to FigJam mode".to_string(), category: "Diagram", action: PaletteAction::SwitchToFigJam });
    entries.push(PaletteEntry { icon: "⊟", label: "Toggle timeline mode".to_string(), category: "Diagram", action: PaletteAction::ToggleTimelineMode });
    entries.push(PaletteEntry { icon: "💡", label: "Load hypothesis map template".to_string(), category: "Templates", action: PaletteAction::LoadHypothesisTemplate });
    entries.push(PaletteEntry { icon: "⊞", label: "Load SWOT analysis template".to_string(), category: "Templates", action: PaletteAction::LoadSwotTemplate });
    entries.push(PaletteEntry { icon: "📅", label: "Load roadmap timeline template".to_string(), category: "Templates", action: PaletteAction::LoadRoadmapTemplate });
    entries.push(PaletteEntry { icon: "⇄", label: "Load force field analysis".to_string(), category: "Templates", action: PaletteAction::LoadForceFieldTemplate });
    entries.push(PaletteEntry { icon: "◫", label: "Load lean canvas template".to_string(), category: "Templates", action: PaletteAction::LoadLeanCanvasTemplate });
    entries.push(PaletteEntry { icon: "⊙", label: "Load OKR tree template".to_string(), category: "Templates", action: PaletteAction::LoadOkrTreeTemplate });
    entries.push(PaletteEntry { icon: "❓", label: "Load 5 Whys root cause template".to_string(), category: "Templates", action: PaletteAction::LoadFiveWhysTemplate });
    entries.push(PaletteEntry { icon: "⊞", label: "Load Impact/Effort matrix".to_string(), category: "Templates", action: PaletteAction::LoadImpactEffortTemplate });
    entries.push(PaletteEntry { icon: "🗺", label: "Load customer journey map".to_string(), category: "Templates", action: PaletteAction::LoadCustomerJourneyTemplate });
    entries.push(PaletteEntry { icon: "📋", label: "Load decision record log (ADR)".to_string(), category: "Templates", action: PaletteAction::LoadDecisionRecordTemplate });
    entries.push(PaletteEntry { icon: "🧠", label: "Load empathy map template".to_string(), category: "Templates", action: PaletteAction::LoadEmpathyMapTemplate });
    entries.push(PaletteEntry { icon: "💎", label: "Load value proposition canvas".to_string(), category: "Templates", action: PaletteAction::LoadValuePropositionTemplate });
    entries.push(PaletteEntry { icon: "🐟", label: "Load fishbone (Ishikawa) diagram".to_string(), category: "Templates", action: PaletteAction::LoadFishboneTemplate });
    entries.push(PaletteEntry { icon: "🌍", label: "Load PESTLE analysis template".to_string(), category: "Templates", action: PaletteAction::LoadPestleTemplate });
    entries.push(PaletteEntry { icon: "🧠", label: "Load mind map template".to_string(), category: "Templates", action: PaletteAction::LoadMindMapTemplate });
    entries.push(PaletteEntry { icon: "💀", label: "Load premortem analysis".to_string(), category: "Templates", action: PaletteAction::LoadPremorttemTemplate });
    entries.push(PaletteEntry { icon: "🌹", label: "Load Rose-Bud-Thorn retro".to_string(), category: "Templates", action: PaletteAction::LoadRoseBudThornTemplate });
    entries.push(PaletteEntry { icon: "◈", label: "Load Double Diamond design process".to_string(), category: "Templates", action: PaletteAction::LoadDoubleDiamondTemplate });
    entries.push(PaletteEntry { icon: "⊞", label: "Load Assumption Map (test vs assume)".to_string(), category: "Templates", action: PaletteAction::LoadAssumptionMapTemplate });
    entries.push(PaletteEntry { icon: "🏢", label: "Load Business Model Canvas (9-block)".to_string(), category: "Templates", action: PaletteAction::LoadBusinessModelCanvasTemplate });
    entries.push(PaletteEntry { icon: "🧬", label: "Load Hypothesis Validation Canvas".to_string(), category: "Templates", action: PaletteAction::LoadHypothesisCanvasTemplate });
    entries.push(PaletteEntry { icon: "🗺", label: "Load User Story Map template".to_string(), category: "Templates", action: PaletteAction::LoadStoryMapTemplate });
    entries.push(PaletteEntry { icon: "🧊", label: "Load ICE Scoring Matrix (prioritize experiments)".to_string(), category: "Templates", action: PaletteAction::LoadIceScoringTemplate });
    entries.push(PaletteEntry { icon: "💼", label: "Load Jobs To Be Done canvas".to_string(), category: "Templates", action: PaletteAction::LoadJobsToBeDoneTemplate });
    entries.push(PaletteEntry { icon: "🔁", label: "Load Causal Loop Diagram (feedback loops)".to_string(), category: "Templates", action: PaletteAction::LoadCausalLoopTemplate });
    entries.push(PaletteEntry { icon: "🗃", label: "Load Experiment Board (backlog → running → validated)".to_string(), category: "Templates", action: PaletteAction::LoadExperimentBoardTemplate });
    entries.push(PaletteEntry { icon: "🌱", label: "Load Theory of Change (inputs → activities → impact)".to_string(), category: "Templates", action: PaletteAction::LoadTheoryOfChangeTemplate });
    entries.push(PaletteEntry { icon: "⚔", label: "Load Competitive Analysis Matrix".to_string(), category: "Templates", action: PaletteAction::LoadCompetitiveAnalysisTemplate });
    entries.push(PaletteEntry { icon: "🔁", label: "Load What? So What? Now What? (debrief)".to_string(), category: "Templates", action: PaletteAction::LoadWhatSoWhatTemplate });
    entries.push(PaletteEntry { icon: "⊞", label: "Load 2×2 Prioritization Matrix (Impact vs Effort)".to_string(), category: "Templates", action: PaletteAction::LoadTwoByTwoMatrixTemplate });
    entries.push(PaletteEntry { icon: "⚡", label: "Load Design Sprint (5-day Map/Sketch/Decide/Prototype/Test)".to_string(), category: "Templates", action: PaletteAction::LoadDesignSprintTemplate });
    entries.push(PaletteEntry { icon: "🎯", label: "Load Problem/Solution Fit canvas".to_string(), category: "Templates", action: PaletteAction::LoadProblemSolutionFitTemplate });
    entries.push(PaletteEntry { icon: "🎫", label: "Load Support Ticket Flow (intake → triage → resolve → close)".to_string(), category: "Templates", action: PaletteAction::LoadSupportTicketFlowTemplate });
    entries.push(PaletteEntry { icon: "🚨", label: "Load Incident Response Runbook (SEV-1/2/3 playbook)".to_string(), category: "Templates", action: PaletteAction::LoadIncidentResponseTemplate });
    entries.push(PaletteEntry { icon: "📊", label: "Load Support Escalation Matrix (L1→L4 tiers)".to_string(), category: "Templates", action: PaletteAction::LoadSupportEscalationMatrixTemplate });
    entries.push(PaletteEntry { icon: "🐛", label: "Load Bug Triage Process (report → fix → verify)".to_string(), category: "Templates", action: PaletteAction::LoadBugTriageTemplate });
    entries.push(PaletteEntry { icon: "📚", label: "Load Knowledge Base Structure (categories + lifecycle)".to_string(), category: "Templates", action: PaletteAction::LoadKnowledgeBaseStructureTemplate });
    entries.push(PaletteEntry { icon: "📣", label: "Load Voice of Customer (signals → themes → actions)".to_string(), category: "Templates", action: PaletteAction::LoadVoiceOfCustomerTemplate });
    entries.push(PaletteEntry { icon: "🚀", label: "Load Customer Onboarding Journey (sign-up → aha moment → health)".to_string(), category: "Templates", action: PaletteAction::LoadCustomerOnboardingTemplate });
    entries.push(PaletteEntry { icon: "📈", label: "Load Support Health Dashboard (volume · SLA · CSAT · escalations)".to_string(), category: "Templates", action: PaletteAction::LoadSupportHealthDashboardTemplate });
    entries.push(PaletteEntry { icon: "📋", label: "Load Incident Postmortem (blameless retro: timeline · root cause · action items)".to_string(), category: "Templates", action: PaletteAction::LoadPostmortemTemplate });
    entries.push(PaletteEntry { icon: "⏱", label: "Load Support SLA Matrix (P1/P2/P3/P4 response · resolve · escalation targets)".to_string(), category: "Templates", action: PaletteAction::LoadSupportSLAMatrixTemplate });
    entries.push(PaletteEntry { icon: "📋", label: "Load Support Queue kanban (Intake → Triage → In Progress → Resolved)".to_string(), category: "Templates", action: PaletteAction::LoadSupportQueueTemplate });
    entries.push(PaletteEntry { icon: "🔍", label: "Search nodes".to_string(), category: "Search", action: PaletteAction::OpenSearch });
    entries.push(PaletteEntry { icon: "⇄", label: "Find & Replace".to_string(), category: "Search", action: PaletteAction::OpenFindReplace });
    entries.push(PaletteEntry { icon: "⎘", label: "Copy as Mermaid to clipboard".to_string(), category: "Export", action: PaletteAction::ExportMermaid });
    assert(entries@.map_values(|e: PaletteEntry| entry_view(e)) =~= builtin_entries_spec());
    entries
}

/// A row of the filtered palette: a recent file or a built-in action, by its position in
/// its own list.
#[derive(Debug, Clone, Copy, PartialEq, Eq, Structural)]
pub enum PaletteMatch {
    Recent(usize),
    Builtin(usize),
}

/// Whether a recent-file entry, whose lowercased label is `label`, matches the lowercased
/// query `q`: every entry matches the empty query, otherwise the label must contain it.
pub open spec fn recent_hit(label: Seq<char>, q: Seq<char>) -> bool {
    q.len() == 0 || contains_run(label, q)
}

/// Whether a built-in entry, with lowercased label `label` and lowercased category
/// `category`, matches the lowercased query `q`: every entry matches the empty query,
/// otherwise the label or the category must contain it.
pub open spec fn builtin_hit(label: Seq<char>, category: Seq<char>, q: Seq<char>) -> bool {
    q.len() == 0 || contains_run(label, q) || contains_run(category, q)
}

/// The positions, in order, of the recent-file entries matching `q`.
pub open spec fn recent_hits(es: Seq<PaletteEntry>, q: Seq<char>) -> Seq<usize>
    decreases es.len(),
{
    if es.len() == 0 {
        Seq::empty()
    } else {
        let rest = recent_hits(es.drop_last(), q);
        if recent_hit(lowercase(es.last().label@), q) {
            rest.push((es.len() - 1) as usize)
        } else {
            rest
        }
    }
}

/// The positions, in order, of the built-in entries matching `q`.
pub open spec fn builtin_hits(es: Seq<PaletteEntry>, q: Seq<char>) -> Seq<usize>
    decreases es.len(),
{
    if es.len() == 0 {
        Seq::empty()
    } else {
        let rest = builtin_hits(es.drop_last(), q);
        if builtin_hit(lowercase(es.last().label@), lowercase(es.last().category@), q) {
            rest.push((es.len() - 1) as usize)
        } else {
            rest
        }
    }
}

/// How many recent files the palette lists at most: five for an empty query, all otherwise.
pub open spec fn recent_limit(q: Seq<char>, n_recent: nat) -> nat {
    if q.len() == 0 {
        5
    } else {
        n_recent
    }
}

/// The rows the palette shows for lowercased query `q`: the matching recent files (at most
/// `recent_limit` of them) followed by the matching built-in actions, each in list order.
pub open spec fn palette_matches_spec(
    recent: Seq<PaletteEntry>,
    builtin: Seq<PaletteEntry>,
    q: Seq<char>,
) -> Seq<PaletteMatch> {
    let r = recent_hits(recent, q);
    let shown = r.take(if r.len() < recent_limit(q, recent.len()) { r.len() as int } else { recent_limit(q, recent.len()) as int });
    shown.map_values(|i: usize| PaletteMatch::Recent(i)) + builtin_hits(builtin, q).map_values(
        |i: usize| PaletteMatch::Builtin(i),
    )
}

/// Whether a recent-file entry with lowercased label `label` matches lowercased query `q`.
pub fn recent_entry_matches(label: &str, q: &str) -> (r: bool)
    ensures
        r == recent_hit(label@, q@),
{
    q.is_empty() || str_contains(label, q)
}

/// Whether a built-in entry with lowercased label `label` and lowercased category
/// `category` matches lowercased query `q`.
pub fn builtin_entry_matches(label: &str, category: &str, q: &str) -> (r: bool)
    ensures
        r == builtin_hit(label@, category@, q@),
{
    q.is_empty() || str_contains(label, q) || str_contains(category, q)
}

/// The rows the palette shows for `query`: the recent files whose name contains the
/// lowercased query (at most five when the query is empty), then the built-in actions whose
/// label or category contains it, both compared lowercased.
pub fn palette_matches(recent: &Vec<PaletteEntry>, builtin: &Vec<PaletteEntry>, query: &str) -> (ms: Vec<PaletteMatch>)
    ensures
        ms@ == palette_matches_spec(recent@, builtin@, lowercase(query@)),
{
    let q = query.to_lowercase();
    let ghost qv = q@;
    let mut hits: Vec<usize> = Vec::new();
    let mut i: usize = 0;
    while i < recent.len()
        invariant
            0 <= i <= recent@.len(),
            q@ == qv,
            hits@ == recent_hits(recent@.take(i as int), qv),
        decreases recent@.len() - i,
    {
        let label = recent[i].label.to_lowercase();
        let hit = recent_entry_matches(label.as_str(), q.as_str());
        proof {
            assert(recent@.take(i + 1).drop_last() =~= recent@.take(i as int));
            assert(recent@.take(i + 1).last() == recent@[i as int]);
        }
        if hit {
            hits.push(i);
        }
        i = i + 1;
    }
    assert(recent@.take(i as int) =~= recent@);
    let limit: usize = if q.as_str().is_empty() { 5 } else { recent.len() };
    let shown: usize = if hits.len() < limit { hits.len() } else { limit };
    let mut ms: Vec<PaletteMatch> = Vec::new();
    let mut k: usize = 0;
    while k < shown
        invariant
            0 <= k <= shown <= hits@.len(),
            ms@ == hits@.take(k as int).map_values(|j: usize| PaletteMatch::Recent(j)),
        decreases shown - k,
    {
        ms.push(PaletteMatch::Recent(hits[k]));
        proof {
            assert(hits@.take(k + 1).map_values(|j: usize| PaletteMatch::Recent(j)) =~= hits@.take(k as int).map_values(|j: usize| PaletteMatch::Recent(j)).push(PaletteMatch::Recent(hits@[k as int])));
        }
        k = k + 1;
    }
    let ghost front = ms@;
    assert(front =~= hits@.take(shown as int).map_values(|j: usize| PaletteMatch::Recent(j)));
    let ghost bstart = ms@.len();
    let mut j: usize = 0;
    let ghost mut bh: Seq<usize> = Seq::empty();
    while j < builtin.len()
        invariant
            0 <= j <= builtin@.len(),
            q@ == qv,
            bh == builtin_hits(builtin@.take(j as int), qv),
            ms@ == front + bh.map_values(|x: usize| PaletteMatch::Builtin(x)),
        decreases builtin@.len() - j,
    {
        let label = builtin[j].label.to_lowercase();
        let category = builtin[j].category.to_lowercase();
        let hit = builtin_entry_matches(label.as_str(), category.as_str(), q.as_str());
        proof {
            assert(builtin@.take(j + 1).drop_last() =~= builtin@.take(j as int));
            assert(builtin@.take(j + 1).last() == builtin@[j as int]);
        }
        if hit {
            ms.push(PaletteMatch::Builtin(j));
            proof {
                assert(bh.push(j as usize).map_values(|x: usize| PaletteMatch::Builtin(x)) =~= bh.map_values(|x: usize| PaletteMatch::Builtin(x)).push(PaletteMatch::Builtin(j)));
                bh = bh.push(j as usize);
            }
        }
        j = j + 1;
    }
    assert(builtin@.take(j as int) =~= builtin@);
    ms
}

/// The cursor kept within the rows: at most the last row's position (0 when there are none).
pub open spec fn clamp_spec(cursor: usize, n: usize) -> usize {
    let max_idx: usize = if n == 0 { 0 } else { (n - 1) as usize };
    if cursor > max_idx { max_idx } else { cursor }
}

/// The cursor after one frame: clamped to the rows, then one row down if Down was pressed
/// and it is not on the last row, then one row up if Up was pressed and it is not on the first.
pub open spec fn cursor_step_spec(cursor: usize, n: usize, up: bool, down: bool) -> usize {
    let max_idx: usize = if n == 0 { 0 } else { (n - 1) as usize };
    let c = clamp_spec(cursor, n);
    let c1: usize = if down && c < max_idx { (c + 1) as usize } else { c };
    if up && c1 > 0 { (c1 - 1) as usize } else { c1 }
}

/// Moves the palette cursor for one frame, given the number of rows shown and whether the
/// Up and Down keys were pressed.
pub fn palette_cursor_step(cursor: usize, n: usize, up: bool, down: bool) -> (c: usize)
    ensures
        c == cursor_step_spec(cursor, n, up, down),
{
    let max_idx = n.saturating_sub(1);
    let mut c = if cursor > max_idx { max_idx } else { cursor };
    if down && c < max_idx {
        c = c + 1;
    }
    if up && c > 0 {
        c = c - 1;
    }
    c
}

/// The cursor never leaves the rows: it is on a row whenever there is one, and 0 otherwise.
pub proof fn law_cursor_stays_on_rows(cursor: usize, n: usize, up: bool, down: bool)
    ensures
        n > 0 ==> cursor_step_spec(cursor, n, up, down) < n,
        n == 0 ==> cursor_step_spec(cursor, n, up, down) == 0,
{
}

/// The action of row `k` of the rows `ms`, if there is such a row.
pub open spec fn row_action(
    ms: Seq<PaletteMatch>,
    recent: Seq<PaletteEntry>,
    builtin: Seq<PaletteEntry>,
    k: int,
) -> Option<PaletteAction> {
    if 0 <= k < ms.len() {
        match ms[k] {
            PaletteMatch::Recent(i) => if i < recent.len() {
                Some(recent[i as int].action)
            } else {
                None
            },
            PaletteMatch::Builtin(i) => if i < builtin.len() {
                Some(builtin[i as int].action)
            } else {
                None
            },
        }
    } else {
        None
    }
}

/// The action of the row under the cursor, if there is such a row.
pub fn selected_action(
    ms: &Vec<PaletteMatch>,
    recent: &Vec<PaletteEntry>,
    builtin: &Vec<PaletteEntry>,
    cursor: usize,
) -> (a: Option<PaletteAction>)
    ensures
        a == row_action(ms@, recent@, builtin@, cursor as int),
{
    if cursor < ms.len() {
        match ms[cursor] {
            PaletteMatch::Recent(i) => if i < recent.len() {
                Some(recent[i].action)
            } else {
                None
            },
            PaletteMatch::Builtin(i) => if i < builtin.len() {
                Some(builtin[i].action)
            } else {
                None
            },
        }
    } else {
        None
    }
}

/// What one frame of the command palette leaves: whether it stays open, whether its query
/// was cleared, where the cursor stands, and the action to run, if any.
#[derive(Debug, Clone, Copy, PartialEq, Eq, Structural)]
pub struct PaletteFrame {
    pub open: bool,
    pub clear_query: bool,
    pub cursor: usize,
    pub run: Option<PaletteAction>,
}

/// The keys and pointer events of one frame of the command palette.
#[derive(Debug, Clone, Copy, PartialEq, Eq, Structural)]
pub struct PaletteInput {
    /// The open/close shortcut was pressed.
    pub toggle: bool,
    pub escape: bool,
    pub up: bool,
    pub down: bool,
    pub enter: bool,
    /// The row clicked this frame, if any.
    pub clicked: Option<usize>,
    /// The row under the pointer this frame, if any.
    pub hovered: Option<usize>,
}

/// The action a frame runs: that of the clicked row, else on Enter that of the row under
/// the cursor `c`.
pub open spec fn frame_action(
    ms: Seq<PaletteMatch>,
    recent: Seq<PaletteEntry>,
    builtin: Seq<PaletteEntry>,
    c: usize,
    input: PaletteInput,
) -> Option<PaletteAction> {
    match input.clicked {
        Some(i) if i < ms.len() => row_action(ms, recent, builtin, i as int),
        _ => if input.enter {
            row_action(ms, recent, builtin, c as int)
        } else {
            None
        },
    }
}

/// The rows a palette frame shows: those for its query, or for the empty query when the
/// frame opened the palette and cleared it.
pub open spec fn frame_rows(
    was_open: bool,
    query: Seq<char>,
    recent: Seq<PaletteEntry>,
    builtin: Seq<PaletteEntry>,
    input: PaletteInput,
) -> Seq<PaletteMatch> {
    let q = if input.toggle && !was_open { Seq::<char>::empty() } else { query };
    palette_matches_spec(recent, builtin, lowercase(q))
}

/// The cursor a palette frame starts from: the first row when the frame opened the palette.
pub open spec fn frame_start(was_open: bool, cursor: usize, input: PaletteInput) -> usize {
    if input.toggle && !was_open { 0 } else { cursor }
}

/// What one frame of the command palette leaves (see `palette_frame`).
pub open spec fn palette_frame_spec(
    was_open: bool,
    query: Seq<char>,
    cursor: usize,
    recent: Seq<PaletteEntry>,
    builtin: Seq<PaletteEntry>,
    input: PaletteInput,
) -> PaletteFrame {
    let clear_query = input.toggle && !was_open;
    let open = if input.toggle { !was_open } else { was_open };
    let start = frame_start(was_open, cursor, input);
    let ms = frame_rows(was_open, query, recent, builtin, input);
    let c = cursor_step_spec(start, ms.len() as usize, input.up, input.down);
    let run = frame_action(ms, recent, builtin, c, input);
    if !open || input.escape {
        PaletteFrame { open: false, clear_query, cursor: start, run: None }
    } else {
        PaletteFrame {
            open: !(input.enter || run is Some),
            clear_query,
            cursor: match input.hovered {
                Some(i) if i < ms.len() => i,
                _ => c,
            },
            run,
        }
    }
}

/// One frame of the command palette, open or not, with query `query`, cursor `cursor`,
/// the recent-file entries `recent` and the built-in ones `builtin`.
///
/// The shortcut opens a closed palette, clearing its query and putting the cursor on the
/// first row, and closes an open one; Escape closes it. While it stays open the rows are
/// those `palette_matches` gives for the query, the cursor takes its step, and Enter runs
/// the action of the row under the cursor and closes the palette. A click on a row runs
/// that row's action instead and closes it too; a row under the pointer takes the cursor.
pub fn palette_frame(
    was_open: bool,
    query: &str,
    cursor: usize,
    recent: &Vec<PaletteEntry>,
    builtin: &Vec<PaletteEntry>,
    input: PaletteInput,
) -> (f: PaletteFrame)
    ensures
        f == palette_frame_spec(was_open, query@, cursor, recent@, builtin@, input),
{
    let clear_query = input.toggle && !was_open;
    let open = if input.toggle { !was_open } else { was_open };
    let start: usize = if clear_query { 0 } else { cursor };
    if !open || input.escape {
        return PaletteFrame { open: false, clear_query, cursor: start, run: None };
    }
    let q: &str = if clear_query { "" } else { query };
    proof {
        reveal_strlit("");
    }
    assert(q@ == if clear_query { Seq::<char>::empty() } else { query@ });
    let ms = palette_matches(recent, builtin, q);
    let c = palette_cursor_step(start, ms.len(), input.up, input.down);
    let mut run: Option<PaletteAction> = None;
    let mut still_open = true;
    if input.enter {
        run = selected_action(&ms, recent, builtin, c);
        still_open = false;
    }
    match input.clicked {
        Some(i) => {
            if i < ms.len() {
                run = selected_action(&ms, recent, builtin, i);
            }
        },
        None => {},
    }
    let mut at = c;
    match input.hovered {
        Some(i) => {
            if i < ms.len() {
                at = i;
            }
        },
        None => {},
    }
    if run.is_some() {
        still_open = false;
    }
    PaletteFrame { open: still_open, clear_query, cursor: at, run }
}

/// In a frame where the palette is open and stays so through the shortcut and Escape, and no
/// row is clicked: Enter closes the palette and runs the action of the row under the stepped
/// cursor (none when there are no rows); without Enter the palette stays open and runs
/// nothing. Either way, with no row under the pointer, the cursor ends on a row, or at 0
/// when there are none.
pub proof fn law_palette_enter_runs_selected(
    was_open: bool,
    query: Seq<char>,
    cursor: usize,
    recent: Seq<PaletteEntry>,
    builtin: Seq<PaletteEntry>,
    input: PaletteInput,
)
    requires
        (if input.toggle { !was_open } else { was_open }),
        !input.escape,
        input.clicked is None,
    ensures
        ({
            let f = palette_frame_spec(was_open, query, cursor, recent, builtin, input);
            let ms = frame_rows(was_open, query, recent, builtin, input);
            let c = cursor_step_spec(frame_start(was_open, cursor, input), ms.len() as usize, input.up, input.down);
            &&& input.enter ==> !f.open && f.run == row_action(ms, recent, builtin, c as int)
            &&& !input.enter ==> f.open && f.run is None
            &&& input.hovered is None ==> (if ms.len() == 0 { f.cursor == 0 } else { f.cursor < ms.len() })
        }),
{
    let ms = frame_rows(was_open, query, recent, builtin, input);
    law_cursor_stays_on_rows(frame_start(was_open, cursor, input), ms.len() as usize, input.up, input.down);
}

proof fn lemma_recent_hits_bound(es: Seq<PaletteEntry>, q: Seq<char>)
    ensures
        recent_hits(es, q).len() <= es.len(),
        forall|k: int| 0 <= k < recent_hits(es, q).len() ==> #[trigger] recent_hits(es, q)[k] < es.len(),
    decreases es.len(),
{
    if es.len() > 0 {
        lemma_recent_hits_bound(es.drop_last(), q);
    }
}

proof fn lemma_recent_hits_contains(es: Seq<PaletteEntry>, q: Seq<char>, i: int)
    requires
        0 <= i < es.len(),
        recent_hit(lowercase(es[i].label@), q),
    ensures
        recent_hits(es, q).contains(i as usize),
    decreases es.len(),
{
    let rest = recent_hits(es.drop_last(), q);
    if i == es.len() - 1 {
        assert(recent_hits(es, q) == rest.push(i as usize));
        assert(recent_hits(es, q)[rest.len() as int] == i as usize);
    } else {
        assert(es.drop_last()[i] == es[i]);
        lemma_recent_hits_contains(es.drop_last(), q, i);
        let k = choose|k: int| 0 <= k < rest.len() && rest[k] == i as usize;
        if recent_hit(lowercase(es.last().label@), q) {
            assert(recent_hits(es, q)[k] == i as usize);
        } else {
            assert(recent_hits(es, q)[k] == i as usize);
        }
    }
}

proof fn lemma_recent_hits_empty_query(es: Seq<PaletteEntry>)
    requires
        es.len() <= usize::MAX,
    ensures
        recent_hits(es, Seq::empty()).len() == es.len(),
        forall|k: int| 0 <= k < es.len() ==> #[trigger] recent_hits(es, Seq::empty())[k] == k,
    decreases es.len(),
{
    if es.len() > 0 {
        lemma_recent_hits_empty_query(es.drop_last());
        let r = recent_hits(es, Seq::empty());
        assert(recent_hit(lowercase(es.last().label@), Seq::empty()));
        assert(r == recent_hits(es.drop_last(), Seq::empty()).push((es.len() - 1) as usize));
    }
}

/// With an empty query the palette lists the first five recent files (all of them when
/// there are fewer), in order, before anything else, and no later recent file.
pub proof fn law_empty_query_lists_first_five_recent(recent: Seq<PaletteEntry>, builtin: Seq<PaletteEntry>)
    requires
        recent.len() <= usize::MAX,
    ensures
        ({
            let rows = palette_matches_spec(recent, builtin, Seq::empty());
            let shown = if recent.len() < 5 { recent.len() as int } else { 5 };
            &&& forall|k: int| 0 <= k < shown ==> #[trigger] rows[k] == PaletteMatch::Recent(k as usize)
            &&& forall|j: usize| 5 <= j ==> !rows.contains(PaletteMatch::Recent(j))
        }),
{
    lemma_recent_hits_empty_query(recent);
    let r = recent_hits(recent, Seq::empty());
    let shown = if recent.len() < 5 { recent.len() as int } else { 5 };
    let front = r.take(shown).map_values(|j: usize| PaletteMatch::Recent(j));
    let back = builtin_hits(builtin, Seq::empty()).map_values(|j: usize| PaletteMatch::Builtin(j));
    let rows = palette_matches_spec(recent, builtin, Seq::empty());
    assert(rows == front + back);
    assert forall|j: usize| 5 <= j implies !rows.contains(PaletteMatch::Recent(j)) by {
        if rows.contains(PaletteMatch::Recent(j)) {
            let k = choose|k: int| 0 <= k < rows.len() && rows[k] == PaletteMatch::Recent(j);
            if k < front.len() {
                assert(front[k] == PaletteMatch::Recent(r[k]));
            } else {
                assert(back[k - front.len()] is Builtin);
            }
        }
    }
}

/// With a non-empty query, every recent file whose lowercased name contains the query is
/// listed, first among the rows, so the recent rows are exactly the matching recent files.
pub proof fn law_every_matching_recent_file_is_listed(
    recent: Seq<PaletteEntry>,
    builtin: Seq<PaletteEntry>,
    q: Seq<char>,
    i: int,
)
    requires
        q.len() > 0,
        0 <= i < recent.len(),
        contains_run(lowercase(recent[i].label@), q),
    ensures
        palette_matches_spec(recent, builtin, q).contains(PaletteMatch::Recent(i as usize)),
        palette_matches_spec(recent, builtin, q).take(recent_hits(recent, q).len() as int) == recent_hits(
            recent,
            q,
        ).map_values(|j: usize| PaletteMatch::Recent(j)),
{
    lemma_recent_hits_bound(recent, q);
    lemma_recent_hits_contains(recent, q, i);
    let r = recent_hits(recent, q);
    assert(r.take(r.len() as int) =~= r);
    let rows = palette_matches_spec(recent, builtin, q);
    let front = r.map_values(|j: usize| PaletteMatch::Recent(j));
    assert(rows == front + builtin_hits(builtin, q).map_values(|j: usize| PaletteMatch::Builtin(j)));
    let k = choose|k: int| 0 <= k < r.len() && r[k] == i as usize;
    assert(rows[k] == PaletteMatch::Recent(i as usize));
    assert(rows.take(r.len() as int) =~= front);
}

/// The palette entries for the recently opened files, given their display names, in order:
/// each runs the action that reopens the file at its position in the list.
pub fn recent_entries(names: &Vec<String>) -> (es: Vec<PaletteEntry>)
    ensures
        es@.len() == names@.len(),
        forall|i: int|
            0 <= i < es@.len() ==> entry_view(#[trigger] es@[i]) == ("\u{1f4c4}"@, names@[i]@, "Recent"@,
                PaletteAction::OpenRecentFile(i as usize)),
{
    let mut es: Vec<PaletteEntry> = Vec::new();
    for i in 0..names.len()
        invariant
            es@.len() == i,
            forall|k: int|
                0 <= k < es@.len() ==> entry_view(#[trigger] es@[k]) == ("\u{1f4c4}"@, names@[k]@, "Recent"@,
                    PaletteAction::OpenRecentFile(k as usize)),
    {
        es.push(PaletteEntry { icon: "\u{1f4c4}", label: names[i].clone(), category: "Recent", action: PaletteAction::OpenRecentFile(i) });
    }
    es
}

proof fn lemma_recent_hits_are_matches(es: Seq<PaletteEntry>, q: Seq<char>)
    requires
        es.len() <= usize::MAX,
    ensures
        forall|k: int|
            0 <= k < recent_hits(es, q).len() ==> #[trigger] recent_hits(es, q)[k] < es.len()
                && recent_hit(lowercase(es[recent_hits(es, q)[k] as int].label@), q),
        forall|k: int, l: int|
            0 <= k < l < recent_hits(es, q).len() ==> #[trigger] recent_hits(es, q)[k] < #[trigger] recent_hits(es, q)[l],
        forall|x: int|
            0 <= x < es.len() && recent_hit(lowercase(#[trigger] es[x].label@), q) ==> recent_hits(es, q).contains(x as usize),
    decreases es.len(),
{
    if es.len() > 0 {
        let rest = es.drop_last();
        lemma_recent_hits_are_matches(rest, q);
        let rh = recent_hits(rest, q);
        let h = recent_hits(es, q);
        assert(es.last() == es[es.len() - 1]);
        assert(((es.len() - 1) as usize) as int == es.len() - 1);
        if recent_hit(lowercase(es.last().label@), q) {
            assert(h == rh.push((es.len() - 1) as usize));
        } else {
            assert(h == rh);
        }
        assert forall|k: int, l: int| 0 <= k < l < h.len() implies #[trigger] h[k] < #[trigger] h[l] by {
            if l < rh.len() {
                assert(rh[k] < rh[l]);
            } else {
                assert(rh[k] < rest.len());
            }
        }
        assert forall|x: int|
            0 <= x < es.len() && recent_hit(lowercase(#[trigger] es[x].label@), q) implies recent_hits(es, q).contains(x as usize) by {
            if x < es.len() - 1 {
                assert(rest[x] == es[x]);
                let k = choose|k: int| 0 <= k < recent_hits(rest, q).len() && recent_hits(rest, q)[k] == x as usize;
                assert(recent_hits(es, q)[k] == x as usize);
            } else {
                assert(recent_hits(es, q).last() == x as usize);
            }
        }
        assert forall|k: int| 0 <= k < recent_hits(es, q).len() implies #[trigger] recent_hits(es, q)[k] < es.len()
            && recent_hit(lowercase(es[recent_hits(es, q)[k] as int].label@), q) by {
            if k < recent_hits(rest, q).len() {
                assert(rest[recent_hits(rest, q)[k] as int] == es[recent_hits(rest, q)[k] as int]);
            }
        }
    }
}

proof fn lemma_builtin_hits_are_matches(es: Seq<PaletteEntry>, q: Seq<char>)
    requires
        es.len() <= usize::MAX,
    ensures
        forall|k: int|
            0 <= k < builtin_hits(es, q).len() ==> #[trigger] builtin_hits(es, q)[k] < es.len()
                && builtin_hit(lowercase(es[builtin_hits(es, q)[k] as int].label@), lowercase(es[builtin_hits(es, q)[k] as int].category@), q),
        forall|k: int, l: int|
            0 <= k < l < builtin_hits(es, q).len() ==> #[trigger] builtin_hits(es, q)[k] < #[trigger] builtin_hits(es, q)[l],
        forall|x: int|
            0 <= x < es.len() && builtin_hit(lowercase(#[trigger] es[x].label@), lowercase(es[x].category@), q) ==> builtin_hits(es, q).contains(x as usize),
    decreases es.len(),
{
    if es.len() > 0 {
        let rest = es.drop_last();
        lemma_builtin_hits_are_matches(rest, q);
        let rh = builtin_hits(rest, q);
        let h = builtin_hits(es, q);
        assert(es.last() == es[es.len() - 1]);
        assert(((es.len() - 1) as usize) as int == es.len() - 1);
        if builtin_hit(lowercase(es.last().label@), lowercase(es.last().category@), q) {
            assert(h == rh.push((es.len() - 1) as usize));
        } else {
            assert(h == rh);
        }
        assert forall|k: int, l: int| 0 <= k < l < h.len() implies #[trigger] h[k] < #[trigger] h[l] by {
            if l < rh.len() {
                assert(rh[k] < rh[l]);
            } else {
                assert(rh[k] < rest.len());
            }
        }
        assert forall|x: int|
            0 <= x < es.len() && builtin_hit(lowercase(#[trigger] es[x].label@), lowercase(es[x].category@), q) implies builtin_hits(es, q).contains(x as usize) by {
            if x < es.len() - 1 {
                assert(rest[x] == es[x]);
                let k = choose|k: int| 0 <= k < builtin_hits(rest, q).len() && builtin_hits(rest, q)[k] == x as usize;
                assert(builtin_hits(es, q)[k] == x as usize);
            } else {
                assert(builtin_hits(es, q).last() == x as usize);
            }
        }
        assert forall|k: int| 0 <= k < builtin_hits(es, q).len() implies #[trigger] builtin_hits(es, q)[k] < es.len()
            && builtin_hit(lowercase(es[builtin_hits(es, q)[k] as int].label@), lowercase(es[builtin_hits(es, q)[k] as int].category@), q) by {
            if k < builtin_hits(rest, q).len() {
                assert(rest[builtin_hits(rest, q)[k] as int] == es[builtin_hits(rest, q)[k] as int]);
            }
        }
    }
}

/// The palette shows exactly the built-in actions that match the query, each once and in
/// list order, after the recent files; every recent file shown matches the query too, they
/// come in list order, and with an empty query there are at most five of them.
pub proof fn law_palette_shows_matches(recent: Seq<PaletteEntry>, builtin: Seq<PaletteEntry>, q: Seq<char>)
    requires
        recent.len() <= usize::MAX,
        builtin.len() <= usize::MAX,
    ensures
        ({
            let ms = palette_matches_spec(recent, builtin, q);
            let nr = ms.len() - builtin_hits(builtin, q).len();
            &&& 0 <= nr <= recent.len()
            &&& q.len() == 0 ==> nr <= 5
            &&& forall|k: int| 0 <= k < nr ==> (#[trigger] ms[k] matches PaletteMatch::Recent(i) && i < recent.len()
                && recent_hit(lowercase(recent[i as int].label@), q))
            &&& forall|k: int, l: int| 0 <= k < l < nr ==> (#[trigger] ms[k] matches PaletteMatch::Recent(i)
                && #[trigger] ms[l] matches PaletteMatch::Recent(j) && i < j)
            &&& forall|k: int| nr <= k < ms.len() ==> (#[trigger] ms[k] matches PaletteMatch::Builtin(i) && i < builtin.len()
                && builtin_hit(lowercase(builtin[i as int].label@), lowercase(builtin[i as int].category@), q))
            &&& forall|x: int| 0 <= x < builtin.len() && builtin_hit(lowercase(#[trigger] builtin[x].label@), lowercase(builtin[x].category@), q)
                ==> ms.contains(PaletteMatch::Builtin(x as usize))
        }),
{
    lemma_recent_hits_are_matches(recent, q);
    lemma_builtin_hits_are_matches(builtin, q);
    let r = recent_hits(recent, q);
    let b = builtin_hits(builtin, q);
    let lim = if r.len() < recent_limit(q, recent.len()) { r.len() as int } else { recent_limit(q, recent.len()) as int };
    let shown = r.take(lim);
    let ms = palette_matches_spec(recent, builtin, q);
    let nr = ms.len() - b.len();
    assert(nr == lim);
    // recent hits are strictly increasing positions below recent.len(), so there are at most that many
    assert(r.len() <= recent.len()) by {
        lemma_increasing_below(r, recent.len());
    }
    assert forall|k: int| 0 <= k < nr implies (#[trigger] ms[k] matches PaletteMatch::Recent(i) && i < recent.len()
        && recent_hit(lowercase(recent[i as int].label@), q)) by {
        assert(ms[k] == PaletteMatch::Recent(r[k]));
    }
    assert forall|k: int, l: int| 0 <= k < l < nr implies (#[trigger] ms[k] matches PaletteMatch::Recent(i)
        && #[trigger] ms[l] matches PaletteMatch::Recent(j) && i < j) by {
        assert(ms[k] == PaletteMatch::Recent(r[k]));
        assert(ms[l] == PaletteMatch::Recent(r[l]));
    }
    assert forall|k: int| nr <= k < ms.len() implies (#[trigger] ms[k] matches PaletteMatch::Builtin(i) && i < builtin.len()
        && builtin_hit(lowercase(builtin[i as int].label@), lowercase(builtin[i as int].category@), q)) by {
        assert(ms[k] == PaletteMatch::Builtin(b[k - nr]));
    }
    assert forall|x: int| 0 <= x < builtin.len() && builtin_hit(lowercase(#[trigger] builtin[x].label@), lowercase(builtin[x].category@), q)
        implies ms.contains(PaletteMatch::Builtin(x as usize)) by {
        let k = choose|k: int| 0 <= k < b.len() && b[k] == x as usize;
        assert(ms[nr + k] == PaletteMatch::Builtin(x as usize));
    }
}

/// A strictly increasing sequence of positions below `n` has at most `n` elements.
proof fn lemma_increasing_below(s: Seq<usize>, n: nat)
    requires
        forall|k: int| 0 <= k < s.len() ==> #[trigger] s[k] < n,
        forall|k: int, l: int| 0 <= k < l < s.len() ==> #[trigger] s[k] < #[trigger] s[l],
    ensures
        s.len() <= n,
    decreases s.len(),
{
    if s.len() > 0 {
        let t = s.drop_last();
        assert forall|k: int| 0 <= k < t.len() implies #[trigger] t[k] < (s.last() as nat) by {
            assert(s[k] < s[s.len() - 1]);
        }
        assert forall|k: int, l: int| 0 <= k < l < t.len() implies #[trigger] t[k] < #[trigger] t[l] by {
            assert(s[k] < s[l]);
        }
        lemma_increasing_below(t, s.last() as nat);
    }
}

} // verus!
