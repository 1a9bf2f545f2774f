# flowchart

The logic of a flowchart and diagram editor, written in Verus: every function in `src/`
states its behaviour in `requires` / `ensures` and is proved to meet it.

## Layout

- `src/` — the verified library.
  - `model` — nodes, edges, ports and the document; identifiers are the 128-bit values of UUIDs.
  - `graph`, `search`, `layers`, `paths` — reachability, breadth-first search, the depth
    layers of the 3D view and shortest paths between nodes.
  - `text`, `sorted`, `messages` — text helpers (trimming, lines, comparison), sorted name
    lists, decimal numbers and status messages.
  - `query`, `finder`, `filters` — the canvas search language, the search box and the
    overlay filters.
  - `edits`, `edge_edits`, `cycles`, `assign`, `menus` — edits of nodes and edges made from
    menus and the action bar, the status and section cycles, owner assignment and the
    menus' choices; `removal`, `duplicate` — deleting and duplicating a selection;
    `double_click` — what a double-click on the canvas does; `folding` — collapsing and
    expanding every node; `dispatch` — what each command-palette action does to the
    document, the selection and the copied style; `tooltip` — the rows of a node's tooltip.
  - `selection`, `sections`, `board`, `workload`, `heatmap` — palette selections and the
    per-section, per-owner and per-node summaries drawn over the canvas; `readout` — the
    canvas corner readout.
  - `mermaid`, `palette`, `section`, `modes`, `press` — Mermaid export, the command
    palette and its frame-by-frame handling, section styles, tools, resize handles, pointers and what a press on the
    canvas starts.
- `tests/` — tests on concrete documents.
- `app/` — screen geometry on egui's floating-point types around the library.
