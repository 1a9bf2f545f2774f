//! Verified logic of a flowchart and diagram editor.
pub mod model;
pub mod modes;
pub mod graph;
pub mod search;
pub mod layers;
pub mod paths;
pub mod text;
pub mod mermaid;
pub mod section;
pub mod palette;
pub mod selection;
pub mod query;
pub mod messages;
pub mod sections;
pub mod edits;
pub mod edge_edits;
pub mod sorted;
pub mod menus;
pub mod workload;
pub mod board;
pub mod filters;
pub mod heatmap;
pub mod assign;
pub mod finder;
pub mod cycles;
pub mod readout;
pub mod press;
pub mod removal;
pub mod double_click;
pub mod duplicate;
pub mod folding;
pub mod dispatch;
pub mod tooltip;
