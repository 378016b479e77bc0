use surya_ui::files::editor_doc::{Body, EditorDoc, SaveOutcome};
use surya_ui::proto::{FileRead, FileWrite};

fn text_read(text: &str, hash: &str) -> FileRead {
    FileRead::Text {
        text: text.into(),
        hash: hash.into(),
        size: text.len() as u64,
        lines: text.lines().count() as u64,
    }
}

#[test]
fn save_conflict_then_overwrite() {
    let mut doc = EditorDoc::default();
    doc.loading("src/main.rs");
    assert_eq!(
        doc.opened("src/main.rs", text_read("a\n", "h1")).as_deref(),
        Some("a\n")
    );
    assert!(!doc.is_dirty("a\n"));
    assert!(doc.is_dirty("ab\n"));

    let (path, expected) = doc.save_request("ab\n").expect("save allowed");
    assert_eq!(
        (path.as_str(), expected.as_deref()),
        ("src/main.rs", Some("h1"))
    );
    assert!(
        doc.save_request("ab\n").is_none(),
        "one save in flight at a time"
    );
    assert_eq!(
        doc.write_answered(
            FileWrite::Saved {
                hash: "h2".into(),
                size: 3
            },
            "ab\n".into()
        ),
        SaveOutcome::Saved
    );
    assert!(!doc.is_dirty("ab\n"));

    let _ = doc.save_request("abc\n").unwrap();
    assert_eq!(
        doc.write_answered(
            FileWrite::Refused {
                reason: "changed on disk since it was read".into(),
                text: Some("theirs\n".into()),
                hash: Some("h3".into()),
            },
            "abc\n".into()
        ),
        SaveOutcome::Refused
    );
    assert!(doc.conflict.is_some());
    assert!(
        doc.save_request("abc\n").is_none(),
        "no save while the banner is up"
    );

    assert!(doc.keep_mine());
    let (_, expected) = doc.save_request("abc\n").unwrap();
    assert_eq!(expected.as_deref(), Some("h3"));
    assert_eq!(
        doc.write_answered(
            FileWrite::Saved {
                hash: "h4".into(),
                size: 4
            },
            "abc\n".into()
        ),
        SaveOutcome::Saved
    );
    assert_eq!((doc.saves_asked, doc.saved, doc.refused), (3, 2, 1));
}

#[test]
fn reload_takes_theirs_and_binary_gets_a_placeholder() {
    let mut doc = EditorDoc::default();
    doc.loading("x");
    doc.opened("x", text_read("mine\n", "h1"));
    doc.save_request("mine2\n");
    doc.write_answered(
        FileWrite::Refused {
            reason: "changed".into(),
            text: Some("theirs\n".into()),
            hash: Some("h9".into()),
        },
        "mine2\n".into(),
    );
    assert_eq!(doc.take_theirs().as_deref(), Some("theirs\n"));
    assert_eq!(doc.hash.as_deref(), Some("h9"));
    assert!(!doc.is_dirty("theirs\n"));

    doc.loading("blob.bin");
    assert!(doc.opened("blob.bin", FileRead::Binary { size: 9 }).is_none());
    assert_eq!(doc.body, Body::Binary { size: 9 });
    assert!(
        doc.save_request("anything").is_none(),
        "no saves for a placeholder"
    );
    assert!(doc.opened("x", text_read("late\n", "h0")).is_none());
    assert_eq!(doc.body, Body::Binary { size: 9 });
}

#[test]
fn a_failed_read_shows_in_place_and_a_failed_write_is_a_note() {
    let mut doc = EditorDoc::default();
    doc.loading("a.rs");
    doc.failed("gone".into());
    assert_eq!(doc.body, Body::Error("gone".into()));
    assert_eq!(doc.note, None);

    doc.loading("b.rs");
    doc.opened("b.rs", text_read("b\n", "h"));
    doc.save_request("b2\n");
    assert!(doc.saving);
    doc.failed("disk full".into());
    assert!(!doc.saving);
    assert_eq!(doc.body, Body::Text);
    assert_eq!(doc.note.as_deref(), Some("disk full"));
}

#[test]
fn keep_mine_without_a_conflict_changes_nothing() {
    let mut doc = EditorDoc::default();
    assert!(!doc.keep_mine());
    assert_eq!(doc.take_theirs(), None);
    doc.loading("t");
    assert!(doc.opened("t", FileRead::TooLarge { size: 9, max: 5 }).is_none());
    assert_eq!(doc.body, Body::TooLarge { size: 9, max: 5 });
}

#[test]
fn keep_mine_keeps_our_hash_when_the_disk_gave_none() {
    let mut doc = EditorDoc::default();
    doc.loading("k");
    doc.opened("k", text_read("one", "h1"));
    doc.save_request("two");
    doc.write_answered(
        FileWrite::Refused {
            reason: "gone".into(),
            text: None,
            hash: None,
        },
        "two".into(),
    );
    assert!(doc.keep_mine());
    assert_eq!(doc.hash.as_deref(), Some("h1"));
    assert!(doc.conflict.is_none());
}
