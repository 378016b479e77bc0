use surya_ui::files::keys::{files_key_bindings, save_key_bindings, EditorCommand};

#[test]
fn enter_is_newline_in_the_files_editor_context() {
    for mac in [true, false] {
        let bindings = files_key_bindings(mac);
        let hits: Vec<_> = bindings.iter().filter(|b| b.keystroke == "enter").collect();
        assert_eq!(hits.len(), 1, "exactly one Enter binding");
        assert_eq!(hits[0].command, EditorCommand::Newline);
        assert!(bindings.iter().all(|b| b.context == "FilesEditor"));
        assert_eq!(bindings.len(), 44);
    }
}

#[test]
fn word_motions_take_the_platforms_modifier_and_the_clipboard_takes_both() {
    let mac = files_key_bindings(true);
    let pc = files_key_bindings(false);
    let find = |v: &Vec<surya_ui::files::keys::EditorBinding>, k: &str| {
        v.iter().find(|b| b.keystroke == k).map(|b| b.command)
    };
    assert_eq!(find(&mac, "alt-left"), Some(EditorCommand::WordLeft));
    assert_eq!(find(&mac, "ctrl-left"), None);
    assert_eq!(find(&pc, "ctrl-left"), Some(EditorCommand::WordLeft));
    assert_eq!(find(&pc, "shift-ctrl-right"), Some(EditorCommand::SelectWordRight));
    for v in [&mac, &pc] {
        assert_eq!(find(v, "cmd-z"), Some(EditorCommand::Undo));
        assert_eq!(find(v, "shift-ctrl-z"), Some(EditorCommand::Redo));
        assert_eq!(find(v, "ctrl-v"), Some(EditorCommand::Paste));
    }
}

#[test]
fn both_save_chords_are_bound_in_the_editor() {
    let save: Vec<_> = save_key_bindings()
        .into_iter()
        .map(|b| (b.keystroke, b.command, b.context))
        .collect();
    assert_eq!(
        save,
        vec![
            ("cmd-s".to_string(), EditorCommand::SaveFile, "FilesEditor".to_string()),
            ("ctrl-s".to_string(), EditorCommand::SaveFile, "FilesEditor".to_string()),
        ]
    );
}
