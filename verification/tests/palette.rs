use flowchart::palette::{
    build_entries, builtin_entry_matches, palette_cursor_step, palette_matches, recent_entries,
    recent_entry_matches, selected_action, PaletteAction, PaletteMatch,
};

#[test]
fn builtin_entries_are_listed_in_order() {
    let es = build_entries();
    assert_eq!(es.len(), 88);
    assert_eq!(es[0].label, "Fit all to view");
    assert_eq!(es[0].category, "View");
    assert_eq!(es[0].action, PaletteAction::FitAll);
    let last = &es[es.len() - 1];
    assert_eq!(last.label, "Copy as Mermaid to clipboard");
    assert_eq!(last.category, "Export");
    assert_eq!(last.action, PaletteAction::ExportMermaid);
}

#[test]
fn empty_query_lists_five_recent_then_everything() {
    let names: Vec<String> = (0..7).map(|i| format!("file{}.json", i)).collect();
    let recent = recent_entries(&names);
    let builtin = build_entries();
    let ms = palette_matches(&recent, &builtin, "");
    assert_eq!(ms.len(), 5 + builtin.len());
    assert_eq!(ms[0], PaletteMatch::Recent(0));
    assert_eq!(ms[4], PaletteMatch::Recent(4));
    assert_eq!(ms[5], PaletteMatch::Builtin(0));
}

#[test]
fn query_matches_label_or_category_ignoring_case() {
    let names = vec![String::from("Zoom Notes.json"), String::from("plan.json")];
    let recent = recent_entries(&names);
    let builtin = build_entries();
    let ms = palette_matches(&recent, &builtin, "ZOOM");
    assert_eq!(
        ms,
        vec![
            PaletteMatch::Recent(0),
            PaletteMatch::Builtin(1),
            PaletteMatch::Builtin(2),
            PaletteMatch::Builtin(3),
        ]
    );
    // "export" matches only through the category.
    let ms = palette_matches(&recent, &builtin, "export");
    assert_eq!(ms, vec![PaletteMatch::Builtin(builtin.len() - 1)]);
    assert!(palette_matches(&recent, &builtin, "no such action").is_empty());
}

#[test]
fn entry_matching() {
    assert!(recent_entry_matches("notes.json", ""));
    assert!(recent_entry_matches("notes.json", "tes"));
    assert!(!recent_entry_matches("notes.json", "xyz"));
    assert!(builtin_entry_matches("undo", "edit", "dit"));
    assert!(!builtin_entry_matches("undo", "edit", "redo"));
}

#[test]
fn cursor_moves_within_rows() {
    assert_eq!(palette_cursor_step(0, 3, false, true), 1);
    assert_eq!(palette_cursor_step(2, 3, false, true), 2);
    assert_eq!(palette_cursor_step(0, 3, true, false), 0);
    assert_eq!(palette_cursor_step(9, 3, false, false), 2);
    assert_eq!(palette_cursor_step(9, 0, true, true), 0);
    assert_eq!(palette_cursor_step(1, 3, true, true), 1);
}

#[test]
fn enter_runs_the_row_under_the_cursor() {
    let names = vec![String::from("a.json")];
    let recent = recent_entries(&names);
    let builtin = build_entries();
    let ms = palette_matches(&recent, &builtin, "");
    assert_eq!(selected_action(&ms, &recent, &builtin, 0), Some(PaletteAction::OpenRecentFile(0)));
    assert_eq!(selected_action(&ms, &recent, &builtin, 1), Some(PaletteAction::FitAll));
    assert_eq!(selected_action(&ms, &recent, &builtin, ms.len()), None);
    assert_eq!(recent[0].icon, "\u{1f4c4}");
}

use flowchart::palette::{palette_frame, PaletteFrame, PaletteInput};

fn keys() -> PaletteInput {
    PaletteInput { toggle: false, escape: false, up: false, down: false, enter: false, clicked: None, hovered: None }
}

#[test]
fn palette_frame_enter_runs_and_closes() {
    let recent = recent_entries(&vec![String::from("Zoom Notes.json")]);
    let builtin = build_entries();
    // Rows for "zoom": the recent file, then the built-in zoom actions.
    let f = palette_frame(true, "zoom", 0, &recent, &builtin, PaletteInput { down: true, enter: true, ..keys() });
    assert_eq!(f, PaletteFrame { open: false, clear_query: false, cursor: 1, run: Some(PaletteAction::ZoomIn) });
    // Without Enter the palette stays open and runs nothing.
    let f = palette_frame(true, "zoom", 0, &recent, &builtin, PaletteInput { down: true, ..keys() });
    assert_eq!(f, PaletteFrame { open: true, clear_query: false, cursor: 1, run: None });
    // Enter with no rows closes the palette and runs nothing.
    let f = palette_frame(true, "no such action", 3, &recent, &builtin, PaletteInput { enter: true, ..keys() });
    assert_eq!(f, PaletteFrame { open: false, clear_query: false, cursor: 0, run: None });
}

#[test]
fn palette_frame_click_hover_shortcut_and_escape() {
    let recent = recent_entries(&vec![String::from("a.json")]);
    let builtin = build_entries();
    // A click runs the clicked row, even over Enter; hovering moves the cursor.
    let f = palette_frame(true, "", 0, &recent, &builtin, PaletteInput { enter: true, clicked: Some(1), hovered: Some(2), ..keys() });
    assert_eq!(f, PaletteFrame { open: false, clear_query: false, cursor: 2, run: Some(PaletteAction::FitAll) });
    // Opening clears the query and starts on the first row.
    let f = palette_frame(false, "old", 7, &recent, &builtin, PaletteInput { toggle: true, ..keys() });
    assert_eq!(f, PaletteFrame { open: true, clear_query: true, cursor: 0, run: None });
    // The shortcut on an open palette closes it; so does Escape.
    let f = palette_frame(true, "", 4, &recent, &builtin, PaletteInput { toggle: true, enter: true, ..keys() });
    assert_eq!(f, PaletteFrame { open: false, clear_query: false, cursor: 4, run: None });
    let f = palette_frame(true, "", 4, &recent, &builtin, PaletteInput { escape: true, ..keys() });
    assert_eq!(f, PaletteFrame { open: false, clear_query: false, cursor: 4, run: None });
    // A closed palette ignores the other keys.
    let f = palette_frame(false, "", 4, &recent, &builtin, PaletteInput { enter: true, ..keys() });
    assert_eq!(f.run, None);
    assert!(!f.open);
}
