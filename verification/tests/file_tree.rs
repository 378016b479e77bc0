use surya_ui::files::model::{FileEntry, FileKind, FileTree, Row};
use surya_ui::files::tree::{Activation, FileTreeState, KeyOutcome, TreeKey};
use surya_ui::proto::FileSearchMatch;

fn entry(path: &str, kind: FileKind, edge: bool) -> FileEntry {
    FileEntry {
        path: path.into(),
        kind,
        status: String::new(),
        has_children: edge,
        size: 0,
    }
}

fn tree(path: &str, entries: Vec<FileEntry>) -> FileTree {
    FileTree {
        path: path.into(),
        entries,
        truncated: false,
    }
}

fn hit(path: &str, is_dir: bool) -> FileSearchMatch {
    FileSearchMatch {
        path: path.into(),
        is_dir,
    }
}

fn paths(rows: &[Row]) -> Vec<String> {
    rows.iter().map(|r| r.path.clone()).collect()
}

/// A root listing with one file and one unlisted folder.
fn listed() -> FileTreeState {
    let mut t = FileTreeState::new();
    t.model.apply_tree(&tree(
        "",
        vec![
            entry("README.md", FileKind::File, false),
            entry("src", FileKind::Dir, true),
        ],
    ));
    t
}

fn selected(t: &FileTreeState) -> Option<String> {
    t.model.selected_path().map(|s| s.to_string())
}

#[test]
fn search_hits_replace_the_tree_and_the_first_is_selected() {
    let mut t = listed();
    t.search_answered(true, vec![hit("src/deep", true), hit("src/main.rs", false)]);
    let rows = t.rows();
    assert_eq!(paths(&rows), vec!["src/deep", "src/main.rs"]);
    assert_eq!(rows[0].label, "src/deep");
    assert_eq!(rows[0].depth, 0);
    assert_eq!(rows[0].kind, FileKind::Dir);
    assert!(rows[0].has_children);
    assert_eq!(rows[1].kind, FileKind::File);
    assert_eq!(selected(&t), Some("src/deep".to_string()));

    t.clear_filter();
    assert_eq!(paths(&t.rows()), vec!["README.md", "src"]);
}

#[test]
fn a_late_search_answer_does_not_bring_the_list_back() {
    let mut t = listed();
    t.search_answered(false, vec![hit("src/deep", true)]);
    assert!(t.matches.is_none());
    assert_eq!(paths(&t.rows()), vec!["README.md", "src"]);
    assert_eq!(selected(&t), None);
}

#[test]
fn an_empty_search_selects_nothing() {
    let mut t = listed();
    t.search_answered(true, Vec::new());
    assert!(t.rows().is_empty());
    assert_eq!(selected(&t), None);
}

#[test]
fn activating_a_file_opens_it() {
    let mut t = listed();
    let a = t.activate("README.md");
    assert_eq!(
        a,
        Activation {
            open: Some("README.md".into()),
            clear_filter: false,
            loads: Vec::new(),
        }
    );
    assert_eq!(selected(&t), Some("README.md".to_string()));
}

#[test]
fn activating_a_folder_toggles_it_and_lists_it_once() {
    let mut t = listed();
    let a = t.activate("src");
    assert_eq!(a.open, None);
    assert_eq!(a.loads, vec!["src".to_string()]);
    assert!(t.model.is_expanded("src"));
    t.model.apply_tree(&tree("src", vec![entry("src/main.rs", FileKind::File, false)]));
    assert_eq!(paths(&t.rows()), vec!["README.md", "src", "src/main.rs"]);

    let b = t.activate("src");
    assert!(b.loads.is_empty());
    assert!(!t.model.is_expanded("src"));
    let c = t.activate("src");
    assert!(c.loads.is_empty(), "a listed folder is not asked for again");
    assert!(t.model.is_expanded("src"));
}

#[test]
fn a_folder_hit_leaves_the_filter_and_reveals_its_parents() {
    let mut t = listed();
    t.search_answered(true, vec![hit("src/deep", true)]);
    assert!(t.is_dir("src/deep"));
    assert!(!t.is_dir("nowhere"));
    let a = t.activate("src/deep");
    assert_eq!(a.open, None);
    assert!(a.clear_filter);
    assert_eq!(a.loads, vec!["src".to_string()]);
    assert!(t.matches.is_none());
    assert!(t.model.is_expanded("src"));
    assert!(!t.model.is_expanded("src/deep"), "the folder itself stays as it was");
    assert_eq!(selected(&t), Some("src/deep".to_string()));
}

#[test]
fn reveal_opens_each_ancestor_and_lists_only_the_unlisted() {
    let mut t = listed();
    t.model.apply_tree(&tree("src", vec![entry("src/a", FileKind::Dir, true)]));
    let loads = t.reveal_path("src/a/b/c.rs");
    assert_eq!(loads, vec!["src/a".to_string(), "src/a/b".to_string()]);
    assert!(t.model.is_expanded("src"));
    assert!(t.model.is_expanded("src/a"));
    assert!(t.model.is_expanded("src/a/b"));
    assert!(!t.model.is_expanded("src/a/b/c.rs"));
    assert!(t.reveal_path("src/a/b/c.rs").is_empty(), "a second reveal opens nothing new");
}

#[test]
fn arrows_move_the_selection_and_say_where() {
    let mut t = listed();
    assert_eq!(t.key(TreeKey::Down, false), KeyOutcome::Moved(Some(0)));
    assert_eq!(selected(&t), Some("README.md".to_string()));
    assert_eq!(t.key(TreeKey::Down, false), KeyOutcome::Moved(Some(1)));
    assert_eq!(t.key(TreeKey::Down, false), KeyOutcome::Moved(Some(1)), "held at the bottom");
    assert_eq!(t.key(TreeKey::Up, false), KeyOutcome::Moved(Some(0)));
    assert_eq!(t.key(TreeKey::Up, false), KeyOutcome::Moved(Some(0)), "held at the top");

    let mut empty = FileTreeState::new();
    assert_eq!(empty.key(TreeKey::Up, false), KeyOutcome::Moved(None));
}

#[test]
fn right_opens_a_folder_then_steps_into_it_and_left_goes_back() {
    let mut t = listed();
    t.model.select(Some("src".into()));
    assert_eq!(t.key(TreeKey::Right, false), KeyOutcome::Stepped(vec!["src".to_string()]));
    t.model.apply_tree(&tree("src", vec![entry("src/main.rs", FileKind::File, false)]));
    assert_eq!(t.key(TreeKey::Right, false), KeyOutcome::Stepped(Vec::new()));
    assert_eq!(selected(&t), Some("src/main.rs".to_string()));
    assert_eq!(t.key(TreeKey::Right, false), KeyOutcome::Ignored, "a file has nothing to open");

    assert_eq!(t.key(TreeKey::Left, false), KeyOutcome::Stepped(Vec::new()));
    assert_eq!(selected(&t), Some("src".to_string()));
    assert_eq!(t.key(TreeKey::Left, false), KeyOutcome::Stepped(Vec::new()));
    assert!(!t.model.is_expanded("src"));
    assert_eq!(selected(&t), Some("src".to_string()));
}

#[test]
fn keys_for_the_tree_wait_while_the_filter_has_focus() {
    let mut t = listed();
    t.model.select(Some("src".into()));
    assert_eq!(t.key(TreeKey::Enter, true), KeyOutcome::Ignored);
    assert_eq!(t.key(TreeKey::Right, true), KeyOutcome::Ignored);
    assert_eq!(t.key(TreeKey::Left, true), KeyOutcome::Ignored);
    assert!(!t.model.is_expanded("src"));
    assert_eq!(t.key(TreeKey::Other, false), KeyOutcome::Ignored);

    match t.key(TreeKey::Enter, false) {
        KeyOutcome::Activated(a) => assert_eq!(a.loads, vec!["src".to_string()]),
        other => panic!("enter should activate, got {:?}", other),
    }
}

#[test]
fn escape_clears_the_filter() {
    let mut t = listed();
    t.search_answered(true, vec![hit("README.md", false)]);
    assert_eq!(t.key(TreeKey::Escape, true), KeyOutcome::FilterCleared);
    assert!(t.matches.is_none());
    assert_eq!(paths(&t.rows()), vec!["README.md", "src"]);
}

#[test]
fn a_blank_filter_goes_back_to_the_tree_and_a_query_is_trimmed() {
    let mut t = listed();
    assert_eq!(t.filter_changed("  main "), Some("main".to_string()));
    t.search_answered(true, vec![hit("src/main.rs", false)]);
    assert_eq!(t.filter_changed("   "), None);
    assert!(t.matches.is_none());
    assert_eq!(paths(&t.rows()), vec!["README.md", "src"]);
}
