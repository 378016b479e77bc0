use surya_ui::files::model::{
    FileEntry, FileEvent, FileEventKind, FileKind, FileTree, FileWatchBatch, Row, TreeModel,
};

fn entry(path: &str, kind: FileKind, edge: bool) -> FileEntry {
    FileEntry {
        path: path.into(),
        kind,
        status: String::new(),
        has_children: edge,
        size: 0,
    }
}

fn tree(path: &str, entries: Vec<FileEntry>) -> FileTree {
    FileTree {
        path: path.into(),
        entries,
        truncated: false,
    }
}

fn labels(rows: &[Row]) -> Vec<String> {
    rows.iter()
        .map(|r| format!("{}{}", "  ".repeat(r.depth), r.label))
        .collect()
}

#[test]
fn expand_lists_lazily_and_folds_single_child_chains() {
    let mut m = TreeModel::default();
    m.apply_tree(&tree(
        "",
        vec![
            entry("README.md", FileKind::File, false),
            entry("src", FileKind::Dir, true),
        ],
    ));
    assert_eq!(labels(&m.rows()), vec!["README.md", "src"]);
    assert!(m.toggle("src"), "first expand needs a listing");
    m.apply_tree(&tree(
        "src",
        vec![
            entry("src/main.rs", FileKind::File, false),
            entry("src/deep", FileKind::Dir, true),
        ],
    ));
    assert_eq!(
        labels(&m.rows()),
        vec!["README.md", "src", "  deep", "  main.rs"]
    );
    // deep has one child dir: after listing, the chain folds.
    assert!(m.toggle("src/deep"));
    m.apply_tree(&tree(
        "src/deep",
        vec![entry("src/deep/only", FileKind::Dir, true)],
    ));
    assert_eq!(
        labels(&m.rows()),
        vec!["README.md", "src", "  deep/only", "  main.rs"]
    );
    assert!(!m.toggle("src"), "collapse asks for nothing");
    assert_eq!(labels(&m.rows()), vec!["README.md", "src"]);
    assert!(
        !m.toggle("src"),
        "re-expand of a loaded dir needs no listing"
    );
    println!("expand: toggles=4 listings_asked=2");
}

#[test]
fn watch_batches_apply_in_place() {
    let mut m = TreeModel::default();
    m.apply_tree(&tree(
        "",
        vec![
            entry("a.txt", FileKind::File, false),
            entry("src", FileKind::Dir, true),
        ],
    ));
    m.toggle("src");
    m.apply_tree(&tree(
        "src",
        vec![entry("src/main.rs", FileKind::File, false)],
    ));
    m.selected = Some("a.txt".into());
    let ev = |kind, path: &str, from: Option<&str>| FileEvent {
        kind,
        path: path.into(),
        from: from.map(Into::into),
    };
    let batch = FileWatchBatch {
        seq: 1,
        events: vec![
            ev(FileEventKind::Create, "b.txt", None),
            ev(FileEventKind::Delete, "a.txt", None),
            ev(FileEventKind::Rename, "src/lib.rs", Some("src/main.rs")),
            ev(FileEventKind::Modify, "src/lib.rs", None),
            ev(FileEventKind::Create, "unloaded/x.rs", None),
        ],
        truncated: false,
    };
    let refresh = m.apply_watch(&batch);
    println!("watch: events={} applied={}", m.events_seen, m.applied);
    assert_eq!((m.events_seen, m.applied), (5, 5));
    assert_eq!(labels(&m.rows()), vec!["b.txt", "src", "  lib.rs"]);
    assert_eq!(m.selected, None, "the deleted selection is dropped");
    assert_eq!(refresh, vec!["".to_string(), "src".to_string()]);
    // A truncated batch re-lists every loaded directory.
    let refresh = m.apply_watch(&FileWatchBatch {
        seq: 2,
        events: vec![],
        truncated: true,
    });
    let mut refresh = refresh;
    refresh.sort();
    assert_eq!(refresh, vec!["".to_string(), "src".to_string()]);
}

#[test]
fn relist_replaces_only_the_listed_levels() {
    let mut m = TreeModel::default();
    m.apply_tree(&tree("", vec![entry("src", FileKind::Dir, true)]));
    m.toggle("src");
    m.apply_tree(&tree(
        "src",
        vec![
            entry("src/a.rs", FileKind::File, false),
            entry("src/deep", FileKind::Dir, true),
        ],
    ));
    m.toggle("src/deep");
    m.apply_tree(&tree(
        "src/deep",
        vec![entry("src/deep/x.rs", FileKind::File, false)],
    ));
    // Re-list `src` at depth 1: a.rs is gone, deep still there, and the
    // deeper level we already know survives untouched.
    m.apply_tree(&tree("src", vec![entry("src/deep", FileKind::Dir, true)]));
    assert!(m.entry("src/a.rs").is_none());
    assert!(m.entry("src/deep/x.rs").is_some());
}

#[test]
fn selection_moves_and_clamps() {
    let mut m = TreeModel::default();
    m.apply_tree(&tree(
        "",
        vec![
            entry("a", FileKind::File, false),
            entry("b", FileKind::File, false),
        ],
    ));
    let rows = m.rows();
    assert_eq!(m.move_selection(&rows, 1).as_deref(), Some("a"));
    assert_eq!(m.move_selection(&rows, 1).as_deref(), Some("b"));
    assert_eq!(m.move_selection(&rows, 5).as_deref(), Some("b"));
    assert_eq!(m.move_selection(&rows, -1).as_deref(), Some("a"));
    assert_eq!(m.move_selection(&rows, -9).as_deref(), Some("a"));
}

#[test]
fn entries_come_out_in_path_order_whatever_the_listing_order() {
    let mut m = TreeModel::new();
    m.apply_tree(&tree(
        "",
        vec![
            entry("zeta", FileKind::File, false),
            entry("alpha", FileKind::File, false),
            entry("Mid", FileKind::File, false),
        ],
    ));
    let paths: Vec<String> = m.rows().into_iter().map(|r| r.path).collect();
    assert_eq!(paths, vec!["Mid", "alpha", "zeta"]);
    assert!(m.is_loaded(""));
    assert!(!m.is_expanded("zeta"));
}

#[test]
fn a_later_duplicate_in_one_listing_wins() {
    let mut m = TreeModel::new();
    let mut second = entry("a", FileKind::File, false);
    second.size = 9;
    m.apply_tree(&tree("", vec![entry("a", FileKind::File, false), second]));
    assert_eq!(m.entry("a").map(|e| e.size), Some(9));
    assert_eq!(m.rows().len(), 1);
}

#[test]
fn expand_and_collapse_are_idempotent() {
    let mut m = TreeModel::new();
    m.apply_tree(&tree("", vec![entry("d", FileKind::Dir, true)]));
    assert!(m.expand("d"), "unlisted: needs a listing");
    assert!(!m.expand("d"), "already open: nothing to do");
    m.collapse("d");
    m.collapse("d");
    assert!(!m.is_expanded("d"));
    let rows = m.rows();
    assert_eq!(rows[0].has_children, true);
    assert_eq!(rows[0].expanded, false);
}

#[test]
fn an_empty_list_clears_the_selection() {
    let mut m = TreeModel::new();
    m.selected = Some("x".into());
    assert_eq!(m.move_selection(&[], 1), None);
    assert_eq!(m.selected, None);
}
