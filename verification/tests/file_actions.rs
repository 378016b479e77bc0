use surya_ui::files::actions::{completed, parent, ActionForm, FileAction, FormFocus};
use surya_ui::proto::FileMutation;

#[test]
fn actions_keep_the_selected_folder_and_reject_path_injection() {
    assert_eq!(
        FileAction::Create("src".into()).mutation("notes.txt").unwrap(),
        FileMutation::Create {
            path: "src/notes.txt".into()
        }
    );
    assert_eq!(
        FileAction::Rename("src/old.txt".into()).mutation("new.txt").unwrap(),
        FileMutation::Rename {
            path: "src/old.txt".into(),
            new_path: "src/new.txt".into()
        }
    );
    for name in ["", ".", "..", "../other", "C:\\other", "folder/file"] {
        assert!(FileAction::Create("".into()).mutation(name).is_err());
    }
    assert_eq!(
        FileAction::Delete("src/notes.txt".into()).mutation("").unwrap(),
        FileMutation::Delete {
            path: "src/notes.txt".into()
        }
    );
}

#[test]
fn a_root_create_and_a_root_rename_carry_no_folder() {
    assert_eq!(
        FileAction::Create("".into()).mutation("  a.txt ").unwrap(),
        FileMutation::Create { path: "a.txt".into() }
    );
    assert_eq!(
        FileAction::Rename("old.txt".into()).mutation("new.txt").unwrap(),
        FileMutation::Rename {
            path: "old.txt".into(),
            new_path: "new.txt".into()
        }
    );
    assert_eq!(
        FileAction::Create("src".into()).mutation("a:b").unwrap_err(),
        "Enter a file name without folders."
    );
}

#[test]
fn the_form_says_what_it_does_and_to_what() {
    assert_eq!(FileAction::Create("src".into()).title(), "New file");
    assert_eq!(FileAction::Rename("a".into()).title(), "Rename file");
    assert_eq!(FileAction::Delete("a/b".into()).title(), "Delete file");
    assert_eq!(FileAction::Delete("a/b".into()).path(), "a/b");
    assert_eq!(parent("a/b/c.txt"), "a/b");
    assert_eq!(parent("c.txt"), "");
}

#[test]
fn unsaved_edits_block_a_rename_or_delete_but_not_a_create() {
    let msg = "Save or discard editor changes before changing this file.";
    assert_eq!(FileAction::Rename("a".into()).blocked_by_editor(true, false), Some(msg));
    assert_eq!(FileAction::Delete("a".into()).blocked_by_editor(false, true), Some(msg));
    assert_eq!(FileAction::Create("a".into()).blocked_by_editor(true, true), None);
    assert_eq!(FileAction::Delete("a".into()).blocked_by_editor(false, false), None);
}

#[test]
fn a_rename_form_starts_from_the_file_name() {
    let (form, name) = ActionForm::begin(FileAction::Rename("src/lib.rs".into()));
    assert_eq!(name, "lib.rs");
    assert!(form.focus_pending);
    assert!(!form.busy);
    assert_eq!(form.failure, None);
    let (_, name) = ActionForm::begin(FileAction::Rename("README.md".into()));
    assert_eq!(name, "README.md");
    let (_, name) = ActionForm::begin(FileAction::Create("src".into()));
    assert_eq!(name, "");
}

#[test]
fn a_submit_goes_once_and_says_why_when_it_cannot() {
    let (mut form, _) = ActionForm::begin(FileAction::Rename("src/lib.rs".into()));
    assert_eq!(form.submit("main.rs", true, false), None);
    assert_eq!(
        form.failure.as_deref(),
        Some("Save or discard editor changes before changing this file.")
    );
    assert_eq!(form.submit("a/b.rs", false, false), None);
    assert_eq!(form.failure.as_deref(), Some("Enter a file name without folders."));
    assert_eq!(
        form.submit(" main.rs ", false, false),
        Some(FileMutation::Rename {
            path: "src/lib.rs".into(),
            new_path: "src/main.rs".into(),
        })
    );
    assert!(form.busy);
    assert_eq!(form.failure, None);
    assert_eq!(form.submit("other.rs", false, false), None, "one request at a time");
    form.failed("the engine said no".into());
    assert!(!form.busy);
    assert_eq!(form.failure.as_deref(), Some("the engine said no"));

    let (mut create, _) = ActionForm::begin(FileAction::Create(String::new()));
    assert_eq!(
        create.submit("notes.md", true, true),
        Some(FileMutation::Create { path: "notes.md".into() }),
        "a create touches no open file"
    );
}

#[test]
fn a_done_mutation_relists_both_folders_and_selects_the_new_path() {
    assert_eq!(
        completed(&FileMutation::Rename {
            path: "a/x.rs".into(),
            new_path: "b/y.rs".into(),
        }),
        (vec!["a".to_string(), "b".to_string()], Some("b/y.rs".to_string()))
    );
    assert_eq!(
        completed(&FileMutation::Create { path: "top.md".into() }),
        (vec![String::new()], Some("top.md".to_string()))
    );
    assert_eq!(
        completed(&FileMutation::Delete { path: "a/b/c".into() }),
        (vec!["a/b".to_string()], None)
    );
}

#[test]
fn each_form_says_what_it_acts_on_and_what_its_button_does() {
    assert_eq!(
        FileAction::Delete("src/notes.txt".into()).detail(),
        "Delete src/notes.txt? This removes the file from disk."
    );
    assert_eq!(FileAction::Create(String::new()).detail(), "In the project root");
    assert_eq!(FileAction::Create("src".into()).detail(), "src");
    assert_eq!(FileAction::Rename("src/a.rs".into()).detail(), "src/a.rs");
    assert_eq!(FileAction::Create("src".into()).submit_label(), ("Create", false));
    assert_eq!(FileAction::Rename("a".into()).submit_label(), ("Rename", false));
    assert_eq!(FileAction::Delete("a".into()).submit_label(), ("Delete", true));
    assert!(FileAction::Create("src".into()).asks_name());
    assert!(!FileAction::Delete("a".into()).asks_name());
}

#[test]
fn a_form_takes_the_keyboard_once_and_holds_while_busy() {
    let (mut form, _) = ActionForm::begin(FileAction::Delete("a.txt".into()));
    assert_eq!(form.take_focus(), Some(FormFocus::Form));
    assert_eq!(form.take_focus(), None);
    let (mut form, _) = ActionForm::begin(FileAction::Create("src".into()));
    assert_eq!(form.take_focus(), Some(FormFocus::Name));
    assert!(form.can_close());
    assert_eq!(form.status_text(), None);
    form.submit("new.rs", false, false);
    assert!(!form.can_close());
    assert_eq!(form.status_text(), Some("Updating file…"));
}
