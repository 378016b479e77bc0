//! The editor's keymap as data: which keystroke runs which editing command
//! in the `FilesEditor` key context, and the save chords.
use vstd::prelude::*;
use crate::text::{append, chars_of, owned, string_of};

verus! {

/// What a key does in the file editor's buffer.
#[derive(Debug, Clone, Copy, PartialEq, Eq, Structural)]
pub enum EditorCommand {
    Newline,
    Backspace,
    Delete,
    Left,
    Right,
    Up,
    Down,
    SelectLeft,
    SelectRight,
    SelectUp,
    SelectDown,
    Home,
    End,
    SelectHome,
    SelectEnd,
    DocStart,
    DocEnd,
    SelectDocStart,
    SelectDocEnd,
    DeleteToLineStart,
    DeleteToLineEnd,
    Undo,
    Redo,
    SelectAll,
    CopySelection,
    Cut,
    Paste,
    DeleteWordLeft,
    DeleteWordRight,
    WordLeft,
    WordRight,
    SelectWordLeft,
    SelectWordRight,
    SaveFile,
}

/// One binding: a keystroke, its command, and the key context it holds in.
#[derive(Debug, Clone, PartialEq, Eq)]
pub struct EditorBinding {
    pub keystroke: String,
    pub command: EditorCommand,
    pub context: String,
}

/// The key context every editor binding is scoped to.
pub open spec fn editor_context() -> Seq<char> {
    "FilesEditor"@
}

pub open spec fn binding_view(b: EditorBinding) -> (Seq<char>, EditorCommand, Seq<char>) {
    (b.keystroke@, b.command, b.context@)
}

pub open spec fn bindings_view(v: Seq<EditorBinding>) -> Seq<(Seq<char>, EditorCommand, Seq<char>)> {
    v.map_values(|b: EditorBinding| binding_view(b))
}

/// `<prefix>-<key>`.
pub open spec fn chord(prefix: Seq<char>, key: Seq<char>) -> Seq<char> {
    prefix + "-"@ + key
}

pub open spec fn bound(key: Seq<char>, command: EditorCommand) -> (Seq<char>, EditorCommand, Seq<char>) {
    (key, command, editor_context())
}

/// Undo, redo, select all and the clipboard under one modifier.
pub open spec fn clipboard_keys(prefix: Seq<char>) -> Seq<(Seq<char>, EditorCommand, Seq<char>)> {
    seq![
        bound(chord(prefix, "z"@), EditorCommand::Undo),
        bound("shift-"@ + chord(prefix, "z"@), EditorCommand::Redo),
        bound(chord(prefix, "a"@), EditorCommand::SelectAll),
        bound(chord(prefix, "c"@), EditorCommand::CopySelection),
        bound(chord(prefix, "x"@), EditorCommand::Cut),
        bound(chord(prefix, "v"@), EditorCommand::Paste),
    ]
}

/// The word motions under the platform's word modifier.
pub open spec fn word_keys(word: Seq<char>) -> Seq<(Seq<char>, EditorCommand, Seq<char>)> {
    seq![
        bound(chord(word, "backspace"@), EditorCommand::DeleteWordLeft),
        bound(chord(word, "delete"@), EditorCommand::DeleteWordRight),
        bound(chord(word, "left"@), EditorCommand::WordLeft),
        bound(chord(word, "right"@), EditorCommand::WordRight),
        bound("shift-"@ + chord(word, "left"@), EditorCommand::SelectWordLeft),
        bound("shift-"@ + chord(word, "right"@), EditorCommand::SelectWordRight),
    ]
}

/// The editing keys: Enter inserts a line (nothing submits), the arrows
/// and Home/End move and select, and the document and line motions take
/// both the Mac and the PC spelling.
pub open spec fn plain_keys() -> Seq<(Seq<char>, EditorCommand, Seq<char>)> {
    seq![
        bound("enter"@, EditorCommand::Newline),
        bound("shift-enter"@, EditorCommand::Newline),
        bound("backspace"@, EditorCommand::Backspace),
        bound("delete"@, EditorCommand::Delete),
        bound("left"@, EditorCommand::Left),
        bound("right"@, EditorCommand::Right),
        bound("up"@, EditorCommand::Up),
        bound("down"@, EditorCommand::Down),
        bound("shift-left"@, EditorCommand::SelectLeft),
        bound("shift-right"@, EditorCommand::SelectRight),
        bound("shift-up"@, EditorCommand::SelectUp),
        bound("shift-down"@, EditorCommand::SelectDown),
        bound("home"@, EditorCommand::Home),
        bound("end"@, EditorCommand::End),
        bound("shift-home"@, EditorCommand::SelectHome),
        bound("shift-end"@, EditorCommand::SelectEnd),
        bound("cmd-left"@, EditorCommand::Home),
        bound("cmd-right"@, EditorCommand::End),
        bound("cmd-up"@, EditorCommand::DocStart),
        bound("cmd-down"@, EditorCommand::DocEnd),
        bound("shift-cmd-up"@, EditorCommand::SelectDocStart),
        bound("shift-cmd-down"@, EditorCommand::SelectDocEnd),
        bound("ctrl-home"@, EditorCommand::DocStart),
        bound("ctrl-end"@, EditorCommand::DocEnd),
        bound("cmd-backspace"@, EditorCommand::DeleteToLineStart),
        bound("cmd-delete"@, EditorCommand::DeleteToLineEnd),
    ]
}

/// The whole editor keymap, in the order it is bound: the editing keys,
/// the clipboard under `cmd` and under `ctrl`, and the word motions under
/// `alt` on a Mac and `ctrl` elsewhere.
pub open spec fn files_bindings_spec(mac: bool) -> Seq<(Seq<char>, EditorCommand, Seq<char>)> {
    plain_keys() + clipboard_keys("cmd"@) + clipboard_keys("ctrl"@) + word_keys(
        if mac {
            "alt"@
        } else {
            "ctrl"@
        },
    )
}

/// The save chords: both spellings on every platform.
pub open spec fn save_bindings_spec() -> Seq<(Seq<char>, EditorCommand, Seq<char>)> {
    seq![bound("cmd-s"@, EditorCommand::SaveFile), bound("ctrl-s"@, EditorCommand::SaveFile)]
}

fn push_binding(v: &mut Vec<EditorBinding>, keystroke: String, command: EditorCommand)
    ensures
        bindings_view(final(v)@) == bindings_view(old(v)@).push(bound(keystroke@, command)),
{
    let ghost o = v@;
    let b = EditorBinding { keystroke, command, context: owned("FilesEditor") };
    v.push(b);
    assert(bindings_view(v@) =~= bindings_view(o).push(binding_view(b)));
}

fn chord_text(prefix: &str, key: &str) -> (r: String)
    ensures
        r@ == chord(prefix@, key@),
{
    let mut v = chars_of(prefix);
    append(&mut v, chars_of("-").as_slice());
    append(&mut v, chars_of(key).as_slice());
    string_of(v.as_slice())
}

fn shifted(s: String) -> (r: String)
    ensures
        r@ == "shift-"@ + s@,
{
    let mut v = chars_of("shift-");
    append(&mut v, chars_of(s.as_str()).as_slice());
    string_of(v.as_slice())
}

fn push_clipboard(v: &mut Vec<EditorBinding>, prefix: &str)
    ensures
        bindings_view(final(v)@) == bindings_view(old(v)@) + clipboard_keys(prefix@),
{
    let ghost o = bindings_view(v@);
    push_binding(v, chord_text(prefix, "z"), EditorCommand::Undo);
    push_binding(v, shifted(chord_text(prefix, "z")), EditorCommand::Redo);
    push_binding(v, chord_text(prefix, "a"), EditorCommand::SelectAll);
    push_binding(v, chord_text(prefix, "c"), EditorCommand::CopySelection);
    push_binding(v, chord_text(prefix, "x"), EditorCommand::Cut);
    push_binding(v, chord_text(prefix, "v"), EditorCommand::Paste);
    assert(bindings_view(v@) =~= o + clipboard_keys(prefix@));
}

fn push_words(v: &mut Vec<EditorBinding>, word: &str)
    ensures
        bindings_view(final(v)@) == bindings_view(old(v)@) + word_keys(word@),
{
    let ghost o = bindings_view(v@);
    push_binding(v, chord_text(word, "backspace"), EditorCommand::DeleteWordLeft);
    push_binding(v, chord_text(word, "delete"), EditorCommand::DeleteWordRight);
    push_binding(v, chord_text(word, "left"), EditorCommand::WordLeft);
    push_binding(v, chord_text(word, "right"), EditorCommand::WordRight);
    push_binding(v, shifted(chord_text(word, "left")), EditorCommand::SelectWordLeft);
    push_binding(v, shifted(chord_text(word, "right")), EditorCommand::SelectWordRight);
    assert(bindings_view(v@) =~= o + word_keys(word@));
}

/// The editor keymap. `mac` picks the word modifier: `alt` on a Mac,
/// `ctrl` elsewhere.
pub fn files_key_bindings(mac: bool) -> (r: Vec<EditorBinding>)
    ensures
        bindings_view(r@) == files_bindings_spec(mac),
{
    let mut v: Vec<EditorBinding> = Vec::new();
    push_binding(&mut v, owned("enter"), EditorCommand::Newline);
    push_binding(&mut v, owned("shift-enter"), EditorCommand::Newline);
    push_binding(&mut v, owned("backspace"), EditorCommand::Backspace);
    push_binding(&mut v, owned("delete"), EditorCommand::Delete);
    push_binding(&mut v, owned("left"), EditorCommand::Left);
    push_binding(&mut v, owned("right"), EditorCommand::Right);
    push_binding(&mut v, owned("up"), EditorCommand::Up);
    push_binding(&mut v, owned("down"), EditorCommand::Down);
    push_binding(&mut v, owned("shift-left"), EditorCommand::SelectLeft);
    push_binding(&mut v, owned("shift-right"), EditorCommand::SelectRight);
    push_binding(&mut v, owned("shift-up"), EditorCommand::SelectUp);
    push_binding(&mut v, owned("shift-down"), EditorCommand::SelectDown);
    push_binding(&mut v, owned("home"), EditorCommand::Home);
    push_binding(&mut v, owned("end"), EditorCommand::End);
    push_binding(&mut v, owned("shift-home"), EditorCommand::SelectHome);
    push_binding(&mut v, owned("shift-end"), EditorCommand::SelectEnd);
    push_binding(&mut v, owned("cmd-left"), EditorCommand::Home);
    push_binding(&mut v, owned("cmd-right"), EditorCommand::End);
    push_binding(&mut v, owned("cmd-up"), EditorCommand::DocStart);
    push_binding(&mut v, owned("cmd-down"), EditorCommand::DocEnd);
    push_binding(&mut v, owned("shift-cmd-up"), EditorCommand::SelectDocStart);
    push_binding(&mut v, owned("shift-cmd-down"), EditorCommand::SelectDocEnd);
    push_binding(&mut v, owned("ctrl-home"), EditorCommand::DocStart);
    push_binding(&mut v, owned("ctrl-end"), EditorCommand::DocEnd);
    push_binding(&mut v, owned("cmd-backspace"), EditorCommand::DeleteToLineStart);
    push_binding(&mut v, owned("cmd-delete"), EditorCommand::DeleteToLineEnd);
    assert(bindings_view(v@) =~= plain_keys());
    push_clipboard(&mut v, "cmd");
    push_clipboard(&mut v, "ctrl");
    let word = if mac {
        "alt"
    } else {
        "ctrl"
    };
    push_words(&mut v, word);
    v
}

/// The save chords, bound after every remappable chord so that they win
/// in the editor's context.
pub fn save_key_bindings() -> (r: Vec<EditorBinding>)
    ensures
        bindings_view(r@) == save_bindings_spec(),
{
    let mut v: Vec<EditorBinding> = Vec::new();
    push_binding(&mut v, owned("cmd-s"), EditorCommand::SaveFile);
    push_binding(&mut v, owned("ctrl-s"), EditorCommand::SaveFile);
    assert(bindings_view(v@) =~= save_bindings_spec());
    v
}


/// The editor keymap written out key by key.
proof fn lemma_bindings_literal(mac: bool)
    ensures
        plain_keys() == seq![
            bound("enter"@, EditorCommand::Newline),
            bound("shift-enter"@, EditorCommand::Newline),
            bound("backspace"@, EditorCommand::Backspace),
            bound("delete"@, EditorCommand::Delete),
            bound("left"@, EditorCommand::Left),
            bound("right"@, EditorCommand::Right),
            bound("up"@, EditorCommand::Up),
            bound("down"@, EditorCommand::Down),
            bound("shift-left"@, EditorCommand::SelectLeft),
            bound("shift-right"@, EditorCommand::SelectRight),
            bound("shift-up"@, EditorCommand::SelectUp),
            bound("shift-down"@, EditorCommand::SelectDown),
            bound("home"@, EditorCommand::Home),
            bound("end"@, EditorCommand::End),
            bound("shift-home"@, EditorCommand::SelectHome),
            bound("shift-end"@, EditorCommand::SelectEnd),
            bound("cmd-left"@, EditorCommand::Home),
            bound("cmd-right"@, EditorCommand::End),
            bound("cmd-up"@, EditorCommand::DocStart),
            bound("cmd-down"@, EditorCommand::DocEnd),
            bound("shift-cmd-up"@, EditorCommand::SelectDocStart),
            bound("shift-cmd-down"@, EditorCommand::SelectDocEnd),
            bound("ctrl-home"@, EditorCommand::DocStart),
            bound("ctrl-end"@, EditorCommand::DocEnd),
            bound("cmd-backspace"@, EditorCommand::DeleteToLineStart),
            bound("cmd-delete"@, EditorCommand::DeleteToLineEnd),
        ],
        clipboard_keys("cmd"@) == seq![
            bound("cmd-z"@, EditorCommand::Undo),
            bound("shift-cmd-z"@, EditorCommand::Redo),
            bound("cmd-a"@, EditorCommand::SelectAll),
            bound("cmd-c"@, EditorCommand::CopySelection),
            bound("cmd-x"@, EditorCommand::Cut),
            bound("cmd-v"@, EditorCommand::Paste),
        ],
        clipboard_keys("ctrl"@) == seq![
            bound("ctrl-z"@, EditorCommand::Undo),
            bound("shift-ctrl-z"@, EditorCommand::Redo),
            bound("ctrl-a"@, EditorCommand::SelectAll),
            bound("ctrl-c"@, EditorCommand::CopySelection),
            bound("ctrl-x"@, EditorCommand::Cut),
            bound("ctrl-v"@, EditorCommand::Paste),
        ],
        word_keys("alt"@) == seq![
            bound("alt-backspace"@, EditorCommand::DeleteWordLeft),
            bound("alt-delete"@, EditorCommand::DeleteWordRight),
            bound("alt-left"@, EditorCommand::WordLeft),
            bound("alt-right"@, EditorCommand::WordRight),
            bound("shift-alt-left"@, EditorCommand::SelectWordLeft),
            bound("shift-alt-right"@, EditorCommand::SelectWordRight),
        ],
        word_keys("ctrl"@) == seq![
            bound("ctrl-backspace"@, EditorCommand::DeleteWordLeft),
            bound("ctrl-delete"@, EditorCommand::DeleteWordRight),
            bound("ctrl-left"@, EditorCommand::WordLeft),
            bound("ctrl-right"@, EditorCommand::WordRight),
            bound("shift-ctrl-left"@, EditorCommand::SelectWordLeft),
            bound("shift-ctrl-right"@, EditorCommand::SelectWordRight),
        ],
{
    reveal_strlit("alt-backspace");
    reveal_strlit("alt-delete");
    reveal_strlit("alt-left");
    reveal_strlit("alt-right");
    reveal_strlit("backspace");
    reveal_strlit("cmd-a");
    reveal_strlit("cmd-backspace");
    reveal_strlit("cmd-c");
    reveal_strlit("cmd-delete");
    reveal_strlit("cmd-down");
    reveal_strlit("cmd-left");
    reveal_strlit("cmd-right");
    reveal_strlit("cmd-up");
    reveal_strlit("cmd-v");
    reveal_strlit("cmd-x");
    reveal_strlit("cmd-z");
    reveal_strlit("ctrl-a");
    reveal_strlit("ctrl-backspace");
    reveal_strlit("ctrl-c");
    reveal_strlit("ctrl-delete");
    reveal_strlit("ctrl-end");
    reveal_strlit("ctrl-home");
    reveal_strlit("ctrl-left");
    reveal_strlit("ctrl-right");
    reveal_strlit("ctrl-v");
    reveal_strlit("ctrl-x");
    reveal_strlit("ctrl-z");
    reveal_strlit("delete");
    reveal_strlit("down");
    reveal_strlit("end");
    reveal_strlit("enter");
    reveal_strlit("home");
    reveal_strlit("left");
    reveal_strlit("right");
    reveal_strlit("shift-alt-left");
    reveal_strlit("shift-alt-right");
    reveal_strlit("shift-cmd-down");
    reveal_strlit("shift-cmd-up");
    reveal_strlit("shift-cmd-z");
    reveal_strlit("shift-ctrl-left");
    reveal_strlit("shift-ctrl-right");
    reveal_strlit("shift-ctrl-z");
    reveal_strlit("shift-down");
    reveal_strlit("shift-end");
    reveal_strlit("shift-enter");
    reveal_strlit("shift-home");
    reveal_strlit("shift-left");
    reveal_strlit("shift-right");
    reveal_strlit("shift-up");
    reveal_strlit("up");
    reveal_strlit("cmd");
    reveal_strlit("ctrl");
    reveal_strlit("alt");
    reveal_strlit("-");
    reveal_strlit("shift-");
    reveal_strlit("z");
    reveal_strlit("a");
    reveal_strlit("c");
    reveal_strlit("x");
    reveal_strlit("v");
    reveal_strlit("backspace");
    reveal_strlit("delete");
    reveal_strlit("left");
    reveal_strlit("right");
    assert(chord("cmd"@, "z"@) =~= "cmd-z"@);
    assert(chord("cmd"@, "a"@) =~= "cmd-a"@);
    assert(chord("cmd"@, "c"@) =~= "cmd-c"@);
    assert(chord("cmd"@, "x"@) =~= "cmd-x"@);
    assert(chord("cmd"@, "v"@) =~= "cmd-v"@);
    assert("shift-"@ + chord("cmd"@, "z"@) =~= "shift-cmd-z"@);
    assert(chord("ctrl"@, "z"@) =~= "ctrl-z"@);
    assert(chord("ctrl"@, "a"@) =~= "ctrl-a"@);
    assert(chord("ctrl"@, "c"@) =~= "ctrl-c"@);
    assert(chord("ctrl"@, "x"@) =~= "ctrl-x"@);
    assert(chord("ctrl"@, "v"@) =~= "ctrl-v"@);
    assert("shift-"@ + chord("ctrl"@, "z"@) =~= "shift-ctrl-z"@);
    assert(chord("alt"@, "backspace"@) =~= "alt-backspace"@);
    assert(chord("alt"@, "delete"@) =~= "alt-delete"@);
    assert(chord("alt"@, "left"@) =~= "alt-left"@);
    assert(chord("alt"@, "right"@) =~= "alt-right"@);
    assert("shift-"@ + chord("alt"@, "left"@) =~= "shift-alt-left"@);
    assert("shift-"@ + chord("alt"@, "right"@) =~= "shift-alt-right"@);
    assert(chord("ctrl"@, "backspace"@) =~= "ctrl-backspace"@);
    assert(chord("ctrl"@, "delete"@) =~= "ctrl-delete"@);
    assert(chord("ctrl"@, "left"@) =~= "ctrl-left"@);
    assert(chord("ctrl"@, "right"@) =~= "ctrl-right"@);
    assert("shift-"@ + chord("ctrl"@, "left"@) =~= "shift-ctrl-left"@);
    assert("shift-"@ + chord("ctrl"@, "right"@) =~= "shift-ctrl-right"@);
}

/// What the clipboard and history chords must run, by keystroke.
pub open spec fn clipboard_rule(key: Seq<char>, command: EditorCommand) -> bool {
    &&& (key == "cmd-c"@ || key == "ctrl-c"@) ==> command == EditorCommand::CopySelection
    &&& (key == "cmd-x"@ || key == "ctrl-x"@) ==> command == EditorCommand::Cut
    &&& (key == "cmd-v"@ || key == "ctrl-v"@) ==> command == EditorCommand::Paste
    &&& (key == "cmd-a"@ || key == "ctrl-a"@) ==> command == EditorCommand::SelectAll
    &&& (key == "cmd-z"@ || key == "ctrl-z"@) ==> command == EditorCommand::Undo
    &&& (key == "shift-cmd-z"@ || key == "shift-ctrl-z"@) ==> command == EditorCommand::Redo
    &&& key == "enter"@ ==> command == EditorCommand::Newline
}

proof fn lemma_bindings_literal_sections()
    ensures
        plain_keys().len() == 26,
        clipboard_keys("cmd"@).len() == 6,
        clipboard_keys("ctrl"@).len() == 6,
        word_keys("alt"@).len() == 6,
        word_keys("ctrl"@).len() == 6,
{
    lemma_bindings_literal(true);
}

proof fn lemma_plain_rule(k: int)
    requires
        0 <= k < 26,
    ensures
        clipboard_rule(plain_keys()[k].0, plain_keys()[k].1),
{
    lemma_bindings_literal(true);
    if k == 0 {
        assert(plain_keys()[k] == bound("enter"@, EditorCommand::Newline));
        assert(clipboard_rule("enter"@, EditorCommand::Newline)) by {
            reveal_strlit("enter");
            reveal_strlit("cmd-c");
            assert("enter"@[0] != "cmd-c"@[0]);
            reveal_strlit("ctrl-c");
            assert("enter"@.len() != "ctrl-c"@.len());
            reveal_strlit("cmd-x");
            assert("enter"@[0] != "cmd-x"@[0]);
            reveal_strlit("ctrl-x");
            assert("enter"@.len() != "ctrl-x"@.len());
            reveal_strlit("cmd-v");
            assert("enter"@[0] != "cmd-v"@[0]);
            reveal_strlit("ctrl-v");
            assert("enter"@.len() != "ctrl-v"@.len());
            reveal_strlit("cmd-a");
            assert("enter"@[0] != "cmd-a"@[0]);
            reveal_strlit("ctrl-a");
            assert("enter"@.len() != "ctrl-a"@.len());
            reveal_strlit("cmd-z");
            assert("enter"@[0] != "cmd-z"@[0]);
            reveal_strlit("ctrl-z");
            assert("enter"@.len() != "ctrl-z"@.len());
            reveal_strlit("shift-cmd-z");
            assert("enter"@.len() != "shift-cmd-z"@.len());
            reveal_strlit("shift-ctrl-z");
            assert("enter"@.len() != "shift-ctrl-z"@.len());
        }
    } else if k == 1 {
        assert(plain_keys()[k] == bound("shift-enter"@, EditorCommand::Newline));
        assert(clipboard_rule("shift-enter"@, EditorCommand::Newline)) by {
            reveal_strlit("shift-enter");
            reveal_strlit("cmd-c");
            assert("shift-enter"@.len() != "cmd-c"@.len());
            reveal_strlit("ctrl-c");
            assert("shift-enter"@.len() != "ctrl-c"@.len());
            reveal_strlit("cmd-x");
            assert("shift-enter"@.len() != "cmd-x"@.len());
            reveal_strlit("ctrl-x");
            assert("shift-enter"@.len() != "ctrl-x"@.len());
            reveal_strlit("cmd-v");
            assert("shift-enter"@.len() != "cmd-v"@.len());
            reveal_strlit("ctrl-v");
            assert("shift-enter"@.len() != "ctrl-v"@.len());
            reveal_strlit("cmd-a");
            assert("shift-enter"@.len() != "cmd-a"@.len());
            reveal_strlit("ctrl-a");
            assert("shift-enter"@.len() != "ctrl-a"@.len());
            reveal_strlit("cmd-z");
            assert("shift-enter"@.len() != "cmd-z"@.len());
            reveal_strlit("ctrl-z");
            assert("shift-enter"@.len() != "ctrl-z"@.len());
            reveal_strlit("shift-cmd-z");
            assert("shift-enter"@[6] != "shift-cmd-z"@[6]);
            reveal_strlit("shift-ctrl-z");
            assert("shift-enter"@.len() != "shift-ctrl-z"@.len());
            reveal_strlit("enter");
            assert("shift-enter"@.len() != "enter"@.len());
        }
    } else if k == 2 {
        assert(plain_keys()[k] == bound("backspace"@, EditorCommand::Backspace));
        assert(clipboard_rule("backspace"@, EditorCommand::Backspace)) by {
            reveal_strlit("backspace");
            reveal_strlit("cmd-c");
            assert("backspace"@.len() != "cmd-c"@.len());
            reveal_strlit("ctrl-c");
            assert("backspace"@.len() != "ctrl-c"@.len());
            reveal_strlit("cmd-x");
            assert("backspace"@.len() != "cmd-x"@.len());
            reveal_strlit("ctrl-x");
            assert("backspace"@.len() != "ctrl-x"@.len());
            reveal_strlit("cmd-v");
            assert("backspace"@.len() != "cmd-v"@.len());
            reveal_strlit("ctrl-v");
            assert("backspace"@.len() != "ctrl-v"@.len());
            reveal_strlit("cmd-a");
            assert("backspace"@.len() != "cmd-a"@.len());
            reveal_strlit("ctrl-a");
            assert("backspace"@.len() != "ctrl-a"@.len());
            reveal_strlit("cmd-z");
            assert("backspace"@.len() != "cmd-z"@.len());
            reveal_strlit("ctrl-z");
            assert("backspace"@.len() != "ctrl-z"@.len());
            reveal_strlit("shift-cmd-z");
            assert("backspace"@.len() != "shift-cmd-z"@.len());
            reveal_strlit("shift-ctrl-z");
            assert("backspace"@.len() != "shift-ctrl-z"@.len());
            reveal_strlit("enter");
            assert("backspace"@.len() != "enter"@.len());
        }
    } else if k == 3 {
        assert(plain_keys()[k] == bound("delete"@, EditorCommand::Delete));
        assert(clipboard_rule("delete"@, EditorCommand::Delete)) by {
            reveal_strlit("delete");
            reveal_strlit("cmd-c");
            assert("delete"@.len() != "cmd-c"@.len());
            reveal_strlit("ctrl-c");
            assert("delete"@[0] != "ctrl-c"@[0]);
            reveal_strlit("cmd-x");
            assert("delete"@.len() != "cmd-x"@.len());
            reveal_strlit("ctrl-x");
            assert("delete"@[0] != "ctrl-x"@[0]);
            reveal_strlit("cmd-v");
            assert("delete"@.len() != "cmd-v"@.len());
            reveal_strlit("ctrl-v");
            assert("delete"@[0] != "ctrl-v"@[0]);
            reveal_strlit("cmd-a");
            assert("delete"@.len() != "cmd-a"@.len());
            reveal_strlit("ctrl-a");
            assert("delete"@[0] != "ctrl-a"@[0]);
            reveal_strlit("cmd-z");
            assert("delete"@.len() != "cmd-z"@.len());
            reveal_strlit("ctrl-z");
            assert("delete"@[0] != "ctrl-z"@[0]);
            reveal_strlit("shift-cmd-z");
            assert("delete"@.len() != "shift-cmd-z"@.len());
            reveal_strlit("shift-ctrl-z");
            assert("delete"@.len() != "shift-ctrl-z"@.len());
            reveal_strlit("enter");
            assert("delete"@.len() != "enter"@.len());
        }
    } else if k == 4 {
        assert(plain_keys()[k] == bound("left"@, EditorCommand::Left));
        assert(clipboard_rule("left"@, EditorCommand::Left)) by {
            reveal_strlit("left");
            reveal_strlit("cmd-c");
            assert("left"@.len() != "cmd-c"@.len());
            reveal_strlit("ctrl-c");
            assert("left"@.len() != "ctrl-c"@.len());
            reveal_strlit("cmd-x");
            assert("left"@.len() != "cmd-x"@.len());
            reveal_strlit("ctrl-x");
            assert("left"@.len() != "ctrl-x"@.len());
            reveal_strlit("cmd-v");
            assert("left"@.len() != "cmd-v"@.len());
            reveal_strlit("ctrl-v");
            assert("left"@.len() != "ctrl-v"@.len());
            reveal_strlit("cmd-a");
            assert("left"@.len() != "cmd-a"@.len());
            reveal_strlit("ctrl-a");
            assert("left"@.len() != "ctrl-a"@.len());
            reveal_strlit("cmd-z");
            assert("left"@.len() != "cmd-z"@.len());
            reveal_strlit("ctrl-z");
            assert("left"@.len() != "ctrl-z"@.len());
            reveal_strlit("shift-cmd-z");
            assert("left"@.len() != "shift-cmd-z"@.len());
            reveal_strlit("shift-ctrl-z");
            assert("left"@.len() != "shift-ctrl-z"@.len());
            reveal_strlit("enter");
            assert("left"@.len() != "enter"@.len());
        }
    } else if k == 5 {
        assert(plain_keys()[k] == bound("right"@, EditorCommand::Right));
        assert(clipboard_rule("right"@, EditorCommand::Right)) by {
            reveal_strlit("right");
            reveal_strlit("cmd-c");
            assert("right"@[0] != "cmd-c"@[0]);
            reveal_strlit("ctrl-c");
            assert("right"@.len() != "ctrl-c"@.len());
            reveal_strlit("cmd-x");
            assert("right"@[0] != "cmd-x"@[0]);
            reveal_strlit("ctrl-x");
            assert("right"@.len() != "ctrl-x"@.len());
            reveal_strlit("cmd-v");
            assert("right"@[0] != "cmd-v"@[0]);
            reveal_strlit("ctrl-v");
            assert("right"@.len() != "ctrl-v"@.len());
            reveal_strlit("cmd-a");
            assert("right"@[0] != "cmd-a"@[0]);
            reveal_strlit("ctrl-a");
            assert("right"@.len() != "ctrl-a"@.len());
            reveal_strlit("cmd-z");
            assert("right"@[0] != "cmd-z"@[0]);
            reveal_strlit("ctrl-z");
            assert("right"@.len() != "ctrl-z"@.len());
            reveal_strlit("shift-cmd-z");
            assert("right"@.len() != "shift-cmd-z"@.len());
            reveal_strlit("shift-ctrl-z");
            assert("right"@.len() != "shift-ctrl-z"@.len());
            reveal_strlit("enter");
            assert("right"@[0] != "enter"@[0]);
        }
    } else if k == 6 {
        assert(plain_keys()[k] == bound("up"@, EditorCommand::Up));
        assert(clipboard_rule("up"@, EditorCommand::Up)) by {
            reveal_strlit("up");
            reveal_strlit("cmd-c");
            assert("up"@.len() != "cmd-c"@.len());
            reveal_strlit("ctrl-c");
            assert("up"@.len() != "ctrl-c"@.len());
            reveal_strlit("cmd-x");
            assert("up"@.len() != "cmd-x"@.len());
            reveal_strlit("ctrl-x");
            assert("up"@.len() != "ctrl-x"@.len());
            reveal_strlit("cmd-v");
            assert("up"@.len() != "cmd-v"@.len());
            reveal_strlit("ctrl-v");
            assert("up"@.len() != "ctrl-v"@.len());
            reveal_strlit("cmd-a");
            assert("up"@.len() != "cmd-a"@.len());
            reveal_strlit("ctrl-a");
            assert("up"@.len() != "ctrl-a"@.len());
            reveal_strlit("cmd-z");
            assert("up"@.len() != "cmd-z"@.len());
            reveal_strlit("ctrl-z");
            assert("up"@.len() != "ctrl-z"@.len());
            reveal_strlit("shift-cmd-z");
            assert("up"@.len() != "shift-cmd-z"@.len());
            reveal_strlit("shift-ctrl-z");
            assert("up"@.len() != "shift-ctrl-z"@.len());
            reveal_strlit("enter");
            assert("up"@.len() != "enter"@.len());
        }
    } else if k == 7 {
        assert(plain_keys()[k] == bound("down"@, EditorCommand::Down));
        assert(clipboard_rule("down"@, EditorCommand::Down)) by {
            reveal_strlit("down");
            reveal_strlit("cmd-c");
            assert("down"@.len() != "cmd-c"@.len());
            reveal_strlit("ctrl-c");
            assert("down"@.len() != "ctrl-c"@.len());
            reveal_strlit("cmd-x");
            assert("down"@.len() != "cmd-x"@.len());
            reveal_strlit("ctrl-x");
            assert("down"@.len() != "ctrl-x"@.len());
            reveal_strlit("cmd-v");
            assert("down"@.len() != "cmd-v"@.len());
            reveal_strlit("ctrl-v");
            assert("down"@.len() != "ctrl-v"@.len());
            reveal_strlit("cmd-a");
            assert("down"@.len() != "cmd-a"@.len());
            reveal_strlit("ctrl-a");
            assert("down"@.len() != "ctrl-a"@.len());
            reveal_strlit("cmd-z");
            assert("down"@.len() != "cmd-z"@.len());
            reveal_strlit("ctrl-z");
            assert("down"@.len() != "ctrl-z"@.len());
            reveal_strlit("shift-cmd-z");
            assert("down"@.len() != "shift-cmd-z"@.len());
            reveal_strlit("shift-ctrl-z");
            assert("down"@.len() != "shift-ctrl-z"@.len());
            reveal_strlit("enter");
            assert("down"@.len() != "enter"@.len());
        }
    } else if k == 8 {
        assert(plain_keys()[k] == bound("shift-left"@, EditorCommand::SelectLeft));
        assert(clipboard_rule("shift-left"@, EditorCommand::SelectLeft)) by {
            reveal_strlit("shift-left");
            reveal_strlit("cmd-c");
            assert("shift-left"@.len() != "cmd-c"@.len());
            reveal_strlit("ctrl-c");
            assert("shift-left"@.len() != "ctrl-c"@.len());
            reveal_strlit("cmd-x");
            assert("shift-left"@.len() != "cmd-x"@.len());
            reveal_strlit("ctrl-x");
            assert("shift-left"@.len() != "ctrl-x"@.len());
            reveal_strlit("cmd-v");
            assert("shift-left"@.len() != "cmd-v"@.len());
            reveal_strlit("ctrl-v");
            assert("shift-left"@.len() != "ctrl-v"@.len());
            reveal_strlit("cmd-a");
            assert("shift-left"@.len() != "cmd-a"@.len());
            reveal_strlit("ctrl-a");
            assert("shift-left"@.len() != "ctrl-a"@.len());
            reveal_strlit("cmd-z");
            assert("shift-left"@.len() != "cmd-z"@.len());
            reveal_strlit("ctrl-z");
            assert("shift-left"@.len() != "ctrl-z"@.len());
            reveal_strlit("shift-cmd-z");
            assert("shift-left"@.len() != "shift-cmd-z"@.len());
            reveal_strlit("shift-ctrl-z");
            assert("shift-left"@.len() != "shift-ctrl-z"@.len());
            reveal_strlit("enter");
            assert("shift-left"@.len() != "enter"@.len());
        }
    } else if k == 9 {
        assert(plain_keys()[k] == bound("shift-right"@, EditorCommand::SelectRight));
        assert(clipboard_rule("shift-right"@, EditorCommand::SelectRight)) by {
            reveal_strlit("shift-right");
            reveal_strlit("cmd-c");
            assert("shift-right"@.len() != "cmd-c"@.len());
            reveal_strlit("ctrl-c");
            assert("shift-right"@.len() != "ctrl-c"@.len());
            reveal_strlit("cmd-x");
            assert("shift-right"@.len() != "cmd-x"@.len());
            reveal_strlit("ctrl-x");
            assert("shift-right"@.len() != "ctrl-x"@.len());
            reveal_strlit("cmd-v");
            assert("shift-right"@.len() != "cmd-v"@.len());
            reveal_strlit("ctrl-v");
            assert("shift-right"@.len() != "ctrl-v"@.len());
            reveal_strlit("cmd-a");
            assert("shift-right"@.len() != "cmd-a"@.len());
            reveal_strlit("ctrl-a");
            assert("shift-right"@.len() != "ctrl-a"@.len());
            reveal_strlit("cmd-z");
            assert("shift-right"@.len() != "cmd-z"@.len());
            reveal_strlit("ctrl-z");
            assert("shift-right"@.len() != "ctrl-z"@.len());
            reveal_strlit("shift-cmd-z");
            assert("shift-right"@[6] != "shift-cmd-z"@[6]);
            reveal_strlit("shift-ctrl-z");
            assert("shift-right"@.len() != "shift-ctrl-z"@.len());
            reveal_strlit("enter");
            assert("shift-right"@.len() != "enter"@.len());
        }
    } else if k == 10 {
        assert(plain_keys()[k] == bound("shift-up"@, EditorCommand::SelectUp));
        assert(clipboard_rule("shift-up"@, EditorCommand::SelectUp)) by {
            reveal_strlit("shift-up");
            reveal_strlit("cmd-c");
            assert("shift-up"@.len() != "cmd-c"@.len());
            reveal_strlit("ctrl-c");
            assert("shift-up"@.len() != "ctrl-c"@.len());
            reveal_strlit("cmd-x");
            assert("shift-up"@.len() != "cmd-x"@.len());
            reveal_strlit("ctrl-x");
            assert("shift-up"@.len() != "ctrl-x"@.len());
            reveal_strlit("cmd-v");
            assert("shift-up"@.len() != "cmd-v"@.len());
            reveal_strlit("ctrl-v");
            assert("shift-up"@.len() != "ctrl-v"@.len());
            reveal_strlit("cmd-a");
            assert("shift-up"@.len() != "cmd-a"@.len());
            reveal_strlit("ctrl-a");
            assert("shift-up"@.len() != "ctrl-a"@.len());
            reveal_strlit("cmd-z");
            assert("shift-up"@.len() != "cmd-z"@.len());
            reveal_strlit("ctrl-z");
            assert("shift-up"@.len() != "ctrl-z"@.len());
            reveal_strlit("shift-cmd-z");
            assert("shift-up"@.len() != "shift-cmd-z"@.len());
            reveal_strlit("shift-ctrl-z");
            assert("shift-up"@.len() != "shift-ctrl-z"@.len());
            reveal_strlit("enter");
            assert("shift-up"@.len() != "enter"@.len());
        }
    } else if k == 11 {
        assert(plain_keys()[k] == bound("shift-down"@, EditorCommand::SelectDown));
        assert(clipboard_rule("shift-down"@, EditorCommand::SelectDown)) by {
            reveal_strlit("shift-down");
            reveal_strlit("cmd-c");
            assert("shift-down"@.len() != "cmd-c"@.len());
            reveal_strlit("ctrl-c");
            assert("shift-down"@.len() != "ctrl-c"@.len());
            reveal_strlit("cmd-x");
            assert("shift-down"@.len() != "cmd-x"@.len());
            reveal_strlit("ctrl-x");
            assert("shift-down"@.len() != "ctrl-x"@.len());
            reveal_strlit("cmd-v");
            assert("shift-down"@.len() != "cmd-v"@.len());
            reveal_strlit("ctrl-v");
            assert("shift-down"@.len() != "ctrl-v"@.len());
            reveal_strlit("cmd-a");
            assert("shift-down"@.len() != "cmd-a"@.len());
            reveal_strlit("ctrl-a");
            assert("shift-down"@.len() != "ctrl-a"@.len());
            reveal_strlit("cmd-z");
            assert("shift-down"@.len() != "cmd-z"@.len());
            reveal_strlit("ctrl-z");
            assert("shift-down"@.len() != "ctrl-z"@.len());
            reveal_strlit("shift-cmd-z");
            assert("shift-down"@.len() != "shift-cmd-z"@.len());
            reveal_strlit("shift-ctrl-z");
            assert("shift-down"@.len() != "shift-ctrl-z"@.len());
            reveal_strlit("enter");
            assert("shift-down"@.len() != "enter"@.len());
        }
    } else if k == 12 {
        assert(plain_keys()[k] == bound("home"@, EditorCommand::Home));
        assert(clipboard_rule("home"@, EditorCommand::Home)) by {
            reveal_strlit("home");
            reveal_strlit("cmd-c");
            assert("home"@.len() != "cmd-c"@.len());
            reveal_strlit("ctrl-c");
            assert("home"@.len() != "ctrl-c"@.len());
            reveal_strlit("cmd-x");
            assert("home"@.len() != "cmd-x"@.len());
            reveal_strlit("ctrl-x");
            assert("home"@.len() != "ctrl-x"@.len());
            reveal_strlit("cmd-v");
            assert("home"@.len() != "cmd-v"@.len());
            reveal_strlit("ctrl-v");
            assert("home"@.len() != "ctrl-v"@.len());
            reveal_strlit("cmd-a");
            assert("home"@.len() != "cmd-a"@.len());
            reveal_strlit("ctrl-a");
            assert("home"@.len() != "ctrl-a"@.len());
            reveal_strlit("cmd-z");
            assert("home"@.len() != "cmd-z"@.len());
            reveal_strlit("ctrl-z");
            assert("home"@.len() != "ctrl-z"@.len());
            reveal_strlit("shift-cmd-z");
            assert("home"@.len() != "shift-cmd-z"@.len());
            reveal_strlit("shift-ctrl-z");
            assert("home"@.len() != "shift-ctrl-z"@.len());
            reveal_strlit("enter");
            assert("home"@.len() != "enter"@.len());
        }
    } else if k == 13 {
        assert(plain_keys()[k] == bound("end"@, EditorCommand::End));
        assert(clipboard_rule("end"@, EditorCommand::End)) by {
            reveal_strlit("end");
            reveal_strlit("cmd-c");
            assert("end"@.len() != "cmd-c"@.len());
            reveal_strlit("ctrl-c");
            assert("end"@.len() != "ctrl-c"@.len());
            reveal_strlit("cmd-x");
            assert("end"@.len() != "cmd-x"@.len());
            reveal_strlit("ctrl-x");
            assert("end"@.len() != "ctrl-x"@.len());
            reveal_strlit("cmd-v");
            assert("end"@.len() != "cmd-v"@.len());
            reveal_strlit("ctrl-v");
            assert("end"@.len() != "ctrl-v"@.len());
            reveal_strlit("cmd-a");
            assert("end"@.len() != "cmd-a"@.len());
            reveal_strlit("ctrl-a");
            assert("end"@.len() != "ctrl-a"@.len());
            reveal_strlit("cmd-z");
            assert("end"@.len() != "cmd-z"@.len());
            reveal_strlit("ctrl-z");
            assert("end"@.len() != "ctrl-z"@.len());
            reveal_strlit("shift-cmd-z");
            assert("end"@.len() != "shift-cmd-z"@.len());
            reveal_strlit("shift-ctrl-z");
            assert("end"@.len() != "shift-ctrl-z"@.len());
            reveal_strlit("enter");
            assert("end"@.len() != "enter"@.len());
        }
    } else if k == 14 {
        assert(plain_keys()[k] == bound("shift-home"@, EditorCommand::SelectHome));
        assert(clipboard_rule("shift-home"@, EditorCommand::SelectHome)) by {
            reveal_strlit("shift-home");
            reveal_strlit("cmd-c");
            assert("shift-home"@.len() != "cmd-c"@.len());
            reveal_strlit("ctrl-c");
            assert("shift-home"@.len() != "ctrl-c"@.len());
            reveal_strlit("cmd-x");
            assert("shift-home"@.len() != "cmd-x"@.len());
            reveal_strlit("ctrl-x");
            assert("shift-home"@.len() != "ctrl-x"@.len());
            reveal_strlit("cmd-v");
            assert("shift-home"@.len() != "cmd-v"@.len());
            reveal_strlit("ctrl-v");
            assert("shift-home"@.len() != "ctrl-v"@.len());
            reveal_strlit("cmd-a");
            assert("shift-home"@.len() != "cmd-a"@.len());
            reveal_strlit("ctrl-a");
            assert("shift-home"@.len() != "ctrl-a"@.len());
            reveal_strlit("cmd-z");
            assert("shift-home"@.len() != "cmd-z"@.len());
            reveal_strlit("ctrl-z");
            assert("shift-home"@.len() != "ctrl-z"@.len());
            reveal_strlit("shift-cmd-z");
            assert("shift-home"@.len() != "shift-cmd-z"@.len());
            reveal_strlit("shift-ctrl-z");
            assert("shift-home"@.len() != "shift-ctrl-z"@.len());
            reveal_strlit("enter");
            assert("shift-home"@.len() != "enter"@.len());
        }
    } else if k == 15 {
        assert(plain_keys()[k] == bound("shift-end"@, EditorCommand::SelectEnd));
        assert(clipboard_rule("shift-end"@, EditorCommand::SelectEnd)) by {
            reveal_strlit("shift-end");
            reveal_strlit("cmd-c");
            assert("shift-end"@.len() != "cmd-c"@.len());
            reveal_strlit("ctrl-c");
            assert("shift-end"@.len() != "ctrl-c"@.len());
            reveal_strlit("cmd-x");
            assert("shift-end"@.len() != "cmd-x"@.len());
            reveal_strlit("ctrl-x");
            assert("shift-end"@.len() != "ctrl-x"@.len());
            reveal_strlit("cmd-v");
            assert("shift-end"@.len() != "cmd-v"@.len());
            reveal_strlit("ctrl-v");
            assert("shift-end"@.len() != "ctrl-v"@.len());
            reveal_strlit("cmd-a");
            assert("shift-end"@.len() != "cmd-a"@.len());
            reveal_strlit("ctrl-a");
            assert("shift-end"@.len() != "ctrl-a"@.len());
            reveal_strlit("cmd-z");
            assert("shift-end"@.len() != "cmd-z"@.len());
            reveal_strlit("ctrl-z");
            assert("shift-end"@.len() != "ctrl-z"@.len());
            reveal_strlit("shift-cmd-z");
            assert("shift-end"@.len() != "shift-cmd-z"@.len());
            reveal_strlit("shift-ctrl-z");
            assert("shift-end"@.len() != "shift-ctrl-z"@.len());
            reveal_strlit("enter");
            assert("shift-end"@.len() != "enter"@.len());
        }
    } else if k == 16 {
        assert(plain_keys()[k] == bound("cmd-left"@, EditorCommand::Home));
        assert(clipboard_rule("cmd-left"@, EditorCommand::Home)) by {
            reveal_strlit("cmd-left");
            reveal_strlit("cmd-c");
            assert("cmd-left"@.len() != "cmd-c"@.len());
            reveal_strlit("ctrl-c");
            assert("cmd-left"@.len() != "ctrl-c"@.len());
            reveal_strlit("cmd-x");
            assert("cmd-left"@.len() != "cmd-x"@.len());
            reveal_strlit("ctrl-x");
            assert("cmd-left"@.len() != "ctrl-x"@.len());
            reveal_strlit("cmd-v");
            assert("cmd-left"@.len() != "cmd-v"@.len());
            reveal_strlit("ctrl-v");
            assert("cmd-left"@.len() != "ctrl-v"@.len());
            reveal_strlit("cmd-a");
            assert("cmd-left"@.len() != "cmd-a"@.len());
            reveal_strlit("ctrl-a");
            assert("cmd-left"@.len() != "ctrl-a"@.len());
            reveal_strlit("cmd-z");
            assert("cmd-left"@.len() != "cmd-z"@.len());
            reveal_strlit("ctrl-z");
            assert("cmd-left"@.len() != "ctrl-z"@.len());
            reveal_strlit("shift-cmd-z");
            assert("cmd-left"@.len() != "shift-cmd-z"@.len());
            reveal_strlit("shift-ctrl-z");
            assert("cmd-left"@.len() != "shift-ctrl-z"@.len());
            reveal_strlit("enter");
            assert("cmd-left"@.len() != "enter"@.len());
        }
    } else if k == 17 {
        assert(plain_keys()[k] == bound("cmd-right"@, EditorCommand::End));
        assert(clipboard_rule("cmd-right"@, EditorCommand::End)) by {
            reveal_strlit("cmd-right");
            reveal_strlit("cmd-c");
            assert("cmd-right"@.len() != "cmd-c"@.len());
            reveal_strlit("ctrl-c");
            assert("cmd-right"@.len() != "ctrl-c"@.len());
            reveal_strlit("cmd-x");
            assert("cmd-right"@.len() != "cmd-x"@.len());
            reveal_strlit("ctrl-x");
            assert("cmd-right"@.len() != "ctrl-x"@.len());
            reveal_strlit("cmd-v");
            assert("cmd-right"@.len() != "cmd-v"@.len());
            reveal_strlit("ctrl-v");
            assert("cmd-right"@.len() != "ctrl-v"@.len());
            reveal_strlit("cmd-a");
            assert("cmd-right"@.len() != "cmd-a"@.len());
            reveal_strlit("ctrl-a");
            assert("cmd-right"@.len() != "ctrl-a"@.len());
            reveal_strlit("cmd-z");
            assert("cmd-right"@.len() != "cmd-z"@.len());
            reveal_strlit("ctrl-z");
            assert("cmd-right"@.len() != "ctrl-z"@.len());
            reveal_strlit("shift-cmd-z");
            assert("cmd-right"@.len() != "shift-cmd-z"@.len());
            reveal_strlit("shift-ctrl-z");
            assert("cmd-right"@.len() != "shift-ctrl-z"@.len());
            reveal_strlit("enter");
            assert("cmd-right"@.len() != "enter"@.len());
        }
    } else if k == 18 {
        assert(plain_keys()[k] == bound("cmd-up"@, EditorCommand::DocStart));
        assert(clipboard_rule("cmd-up"@, EditorCommand::DocStart)) by {
            reveal_strlit("cmd-up");
            reveal_strlit("cmd-c");
            assert("cmd-up"@.len() != "cmd-c"@.len());
            reveal_strlit("ctrl-c");
            assert("cmd-up"@[1] != "ctrl-c"@[1]);
            reveal_strlit("cmd-x");
            assert("cmd-up"@.len() != "cmd-x"@.len());
            reveal_strlit("ctrl-x");
            assert("cmd-up"@[1] != "ctrl-x"@[1]);
            reveal_strlit("cmd-v");
            assert("cmd-up"@.len() != "cmd-v"@.len());
            reveal_strlit("ctrl-v");
            assert("cmd-up"@[1] != "ctrl-v"@[1]);
            reveal_strlit("cmd-a");
            assert("cmd-up"@.len() != "cmd-a"@.len());
            reveal_strlit("ctrl-a");
            assert("cmd-up"@[1] != "ctrl-a"@[1]);
            reveal_strlit("cmd-z");
            assert("cmd-up"@.len() != "cmd-z"@.len());
            reveal_strlit("ctrl-z");
            assert("cmd-up"@[1] != "ctrl-z"@[1]);
            reveal_strlit("shift-cmd-z");
            assert("cmd-up"@.len() != "shift-cmd-z"@.len());
            reveal_strlit("shift-ctrl-z");
            assert("cmd-up"@.len() != "shift-ctrl-z"@.len());
            reveal_strlit("enter");
            assert("cmd-up"@.len() != "enter"@.len());
        }
    } else if k == 19 {
        assert(plain_keys()[k] == bound("cmd-down"@, EditorCommand::DocEnd));
        assert(clipboard_rule("cmd-down"@, EditorCommand::DocEnd)) by {
            reveal_strlit("cmd-down");
            reveal_strlit("cmd-c");
            assert("cmd-down"@.len() != "cmd-c"@.len());
            reveal_strlit("ctrl-c");
            assert("cmd-down"@.len() != "ctrl-c"@.len());
            reveal_strlit("cmd-x");
            assert("cmd-down"@.len() != "cmd-x"@.len());
            reveal_strlit("ctrl-x");
            assert("cmd-down"@.len() != "ctrl-x"@.len());
            reveal_strlit("cmd-v");
            assert("cmd-down"@.len() != "cmd-v"@.len());
            reveal_strlit("ctrl-v");
            assert("cmd-down"@.len() != "ctrl-v"@.len());
            reveal_strlit("cmd-a");
            assert("cmd-down"@.len() != "cmd-a"@.len());
            reveal_strlit("ctrl-a");
            assert("cmd-down"@.len() != "ctrl-a"@.len());
            reveal_strlit("cmd-z");
            assert("cmd-down"@.len() != "cmd-z"@.len());
            reveal_strlit("ctrl-z");
            assert("cmd-down"@.len() != "ctrl-z"@.len());
            reveal_strlit("shift-cmd-z");
            assert("cmd-down"@.len() != "shift-cmd-z"@.len());
            reveal_strlit("shift-ctrl-z");
            assert("cmd-down"@.len() != "shift-ctrl-z"@.len());
            reveal_strlit("enter");
            assert("cmd-down"@.len() != "enter"@.len());
        }
    } else if k == 20 {
        assert(plain_keys()[k] == bound("shift-cmd-up"@, EditorCommand::SelectDocStart));
        assert(clipboard_rule("shift-cmd-up"@, EditorCommand::SelectDocStart)) by {
            reveal_strlit("shift-cmd-up");
            reveal_strlit("cmd-c");
            assert("shift-cmd-up"@.len() != "cmd-c"@.len());
            reveal_strlit("ctrl-c");
            assert("shift-cmd-up"@.len() != "ctrl-c"@.len());
            reveal_strlit("cmd-x");
            assert("shift-cmd-up"@.len() != "cmd-x"@.len());
            reveal_strlit("ctrl-x");
            assert("shift-cmd-up"@.len() != "ctrl-x"@.len());
            reveal_strlit("cmd-v");
            assert("shift-cmd-up"@.len() != "cmd-v"@.len());
            reveal_strlit("ctrl-v");
            assert("shift-cmd-up"@.len() != "ctrl-v"@.len());
            reveal_strlit("cmd-a");
            assert("shift-cmd-up"@.len() != "cmd-a"@.len());
            reveal_strlit("ctrl-a");
            assert("shift-cmd-up"@.len() != "ctrl-a"@.len());
            reveal_strlit("cmd-z");
            assert("shift-cmd-up"@.len() != "cmd-z"@.len());
            reveal_strlit("ctrl-z");
            assert("shift-cmd-up"@.len() != "ctrl-z"@.len());
            reveal_strlit("shift-cmd-z");
            assert("shift-cmd-up"@.len() != "shift-cmd-z"@.len());
            reveal_strlit("shift-ctrl-z");
            assert("shift-cmd-up"@[7] != "shift-ctrl-z"@[7]);
            reveal_strlit("enter");
            assert("shift-cmd-up"@.len() != "enter"@.len());
        }
    } else if k == 21 {
        assert(plain_keys()[k] == bound("shift-cmd-down"@, EditorCommand::SelectDocEnd));
        assert(clipboard_rule("shift-cmd-down"@, EditorCommand::SelectDocEnd)) by {
            reveal_strlit("shift-cmd-down");
            reveal_strlit("cmd-c");
            assert("shift-cmd-down"@.len() != "cmd-c"@.len());
            reveal_strlit("ctrl-c");
            assert("shift-cmd-down"@.len() != "ctrl-c"@.len());
            reveal_strlit("cmd-x");
            assert("shift-cmd-down"@.len() != "cmd-x"@.len());
            reveal_strlit("ctrl-x");
            assert("shift-cmd-down"@.len() != "ctrl-x"@.len());
            reveal_strlit("cmd-v");
            assert("shift-cmd-down"@.len() != "cmd-v"@.len());
            reveal_strlit("ctrl-v");
            assert("shift-cmd-down"@.len() != "ctrl-v"@.len());
            reveal_strlit("cmd-a");
            assert("shift-cmd-down"@.len() != "cmd-a"@.len());
            reveal_strlit("ctrl-a");
            assert("shift-cmd-down"@.len() != "ctrl-a"@.len());
            reveal_strlit("cmd-z");
            assert("shift-cmd-down"@.len() != "cmd-z"@.len());
            reveal_strlit("ctrl-z");
            assert("shift-cmd-down"@.len() != "ctrl-z"@.len());
            reveal_strlit("shift-cmd-z");
            assert("shift-cmd-down"@.len() != "shift-cmd-z"@.len());
            reveal_strlit("shift-ctrl-z");
            assert("shift-cmd-down"@.len() != "shift-ctrl-z"@.len());
            reveal_strlit("enter");
            assert("shift-cmd-down"@.len() != "enter"@.len());
        }
    } else if k == 22 {
        assert(plain_keys()[k] == bound("ctrl-home"@, EditorCommand::DocStart));
        assert(clipboard_rule("ctrl-home"@, EditorCommand::DocStart)) by {
            reveal_strlit("ctrl-home");
            reveal_strlit("cmd-c");
            assert("ctrl-home"@.len() != "cmd-c"@.len());
            reveal_strlit("ctrl-c");
            assert("ctrl-home"@.len() != "ctrl-c"@.len());
            reveal_strlit("cmd-x");
            assert("ctrl-home"@.len() != "cmd-x"@.len());
            reveal_strlit("ctrl-x");
            assert("ctrl-home"@.len() != "ctrl-x"@.len());
            reveal_strlit("cmd-v");
            assert("ctrl-home"@.len() != "cmd-v"@.len());
            reveal_strlit("ctrl-v");
            assert("ctrl-home"@.len() != "ctrl-v"@.len());
            reveal_strlit("cmd-a");
            assert("ctrl-home"@.len() != "cmd-a"@.len());
            reveal_strlit("ctrl-a");
            assert("ctrl-home"@.len() != "ctrl-a"@.len());
            reveal_strlit("cmd-z");
            assert("ctrl-home"@.len() != "cmd-z"@.len());
            reveal_strlit("ctrl-z");
            assert("ctrl-home"@.len() != "ctrl-z"@.len());
            reveal_strlit("shift-cmd-z");
            assert("ctrl-home"@.len() != "shift-cmd-z"@.len());
            reveal_strlit("shift-ctrl-z");
            assert("ctrl-home"@.len() != "shift-ctrl-z"@.len());
            reveal_strlit("enter");
            assert("ctrl-home"@.len() != "enter"@.len());
        }
    } else if k == 23 {
        assert(plain_keys()[k] == bound("ctrl-end"@, EditorCommand::DocEnd));
        assert(clipboard_rule("ctrl-end"@, EditorCommand::DocEnd)) by {
            reveal_strlit("ctrl-end");
            reveal_strlit("cmd-c");
            assert("ctrl-end"@.len() != "cmd-c"@.len());
            reveal_strlit("ctrl-c");
            assert("ctrl-end"@.len() != "ctrl-c"@.len());
            reveal_strlit("cmd-x");
            assert("ctrl-end"@.len() != "cmd-x"@.len());
            reveal_strlit("ctrl-x");
            assert("ctrl-end"@.len() != "ctrl-x"@.len());
            reveal_strlit("cmd-v");
            assert("ctrl-end"@.len() != "cmd-v"@.len());
            reveal_strlit("ctrl-v");
            assert("ctrl-end"@.len() != "ctrl-v"@.len());
            reveal_strlit("cmd-a");
            assert("ctrl-end"@.len() != "cmd-a"@.len());
            reveal_strlit("ctrl-a");
            assert("ctrl-end"@.len() != "ctrl-a"@.len());
            reveal_strlit("cmd-z");
            assert("ctrl-end"@.len() != "cmd-z"@.len());
            reveal_strlit("ctrl-z");
            assert("ctrl-end"@.len() != "ctrl-z"@.len());
            reveal_strlit("shift-cmd-z");
            assert("ctrl-end"@.len() != "shift-cmd-z"@.len());
            reveal_strlit("shift-ctrl-z");
            assert("ctrl-end"@.len() != "shift-ctrl-z"@.len());
            reveal_strlit("enter");
            assert("ctrl-end"@.len() != "enter"@.len());
        }
    } else if k == 24 {
        assert(plain_keys()[k] == bound("cmd-backspace"@, EditorCommand::DeleteToLineStart));
        assert(clipboard_rule("cmd-backspace"@, EditorCommand::DeleteToLineStart)) by {
            reveal_strlit("cmd-backspace");
            reveal_strlit("cmd-c");
            assert("cmd-backspace"@.len() != "cmd-c"@.len());
            reveal_strlit("ctrl-c");
            assert("cmd-backspace"@.len() != "ctrl-c"@.len());
            reveal_strlit("cmd-x");
            assert("cmd-backspace"@.len() != "cmd-x"@.len());
            reveal_strlit("ctrl-x");
            assert("cmd-backspace"@.len() != "ctrl-x"@.len());
            reveal_strlit("cmd-v");
            assert("cmd-backspace"@.len() != "cmd-v"@.len());
            reveal_strlit("ctrl-v");
            assert("cmd-backspace"@.len() != "ctrl-v"@.len());
            reveal_strlit("cmd-a");
            assert("cmd-backspace"@.len() != "cmd-a"@.len());
            reveal_strlit("ctrl-a");
            assert("cmd-backspace"@.len() != "ctrl-a"@.len());
            reveal_strlit("cmd-z");
            assert("cmd-backspace"@.len() != "cmd-z"@.len());
            reveal_strlit("ctrl-z");
            assert("cmd-backspace"@.len() != "ctrl-z"@.len());
            reveal_strlit("shift-cmd-z");
            assert("cmd-backspace"@.len() != "shift-cmd-z"@.len());
            reveal_strlit("shift-ctrl-z");
            assert("cmd-backspace"@.len() != "shift-ctrl-z"@.len());
            reveal_strlit("enter");
            assert("cmd-backspace"@.len() != "enter"@.len());
        }
    } else if k == 25 {
        assert(plain_keys()[k] == bound("cmd-delete"@, EditorCommand::DeleteToLineEnd));
        assert(clipboard_rule("cmd-delete"@, EditorCommand::DeleteToLineEnd)) by {
            reveal_strlit("cmd-delete");
            reveal_strlit("cmd-c");
            assert("cmd-delete"@.len() != "cmd-c"@.len());
            reveal_strlit("ctrl-c");
            assert("cmd-delete"@.len() != "ctrl-c"@.len());
            reveal_strlit("cmd-x");
            assert("cmd-delete"@.len() != "cmd-x"@.len());
            reveal_strlit("ctrl-x");
            assert("cmd-delete"@.len() != "ctrl-x"@.len());
            reveal_strlit("cmd-v");
            assert("cmd-delete"@.len() != "cmd-v"@.len());
            reveal_strlit("ctrl-v");
            assert("cmd-delete"@.len() != "ctrl-v"@.len());
            reveal_strlit("cmd-a");
            assert("cmd-delete"@.len() != "cmd-a"@.len());
            reveal_strlit("ctrl-a");
            assert("cmd-delete"@.len() != "ctrl-a"@.len());
            reveal_strlit("cmd-z");
            assert("cmd-delete"@.len() != "cmd-z"@.len());
            reveal_strlit("ctrl-z");
            assert("cmd-delete"@.len() != "ctrl-z"@.len());
            reveal_strlit("shift-cmd-z");
            assert("cmd-delete"@.len() != "shift-cmd-z"@.len());
            reveal_strlit("shift-ctrl-z");
            assert("cmd-delete"@.len() != "shift-ctrl-z"@.len());
            reveal_strlit("enter");
            assert("cmd-delete"@.len() != "enter"@.len());
        }
    }
}

proof fn lemma_cmd_rule(k: int)
    requires
        0 <= k < 6,
    ensures
        clipboard_rule(clipboard_keys("cmd"@)[k].0, clipboard_keys("cmd"@)[k].1),
{
    lemma_bindings_literal(true);
    if k == 0 {
        assert(clipboard_keys("cmd"@)[k] == bound("cmd-z"@, EditorCommand::Undo));
        assert(clipboard_rule("cmd-z"@, EditorCommand::Undo)) by {
            reveal_strlit("cmd-z");
            reveal_strlit("cmd-c");
            assert("cmd-z"@[4] != "cmd-c"@[4]);
            reveal_strlit("ctrl-c");
            assert("cmd-z"@.len() != "ctrl-c"@.len());
            reveal_strlit("cmd-x");
            assert("cmd-z"@[4] != "cmd-x"@[4]);
            reveal_strlit("ctrl-x");
            assert("cmd-z"@.len() != "ctrl-x"@.len());
            reveal_strlit("cmd-v");
            assert("cmd-z"@[4] != "cmd-v"@[4]);
            reveal_strlit("ctrl-v");
            assert("cmd-z"@.len() != "ctrl-v"@.len());
            reveal_strlit("cmd-a");
            assert("cmd-z"@[4] != "cmd-a"@[4]);
            reveal_strlit("ctrl-a");
            assert("cmd-z"@.len() != "ctrl-a"@.len());
            reveal_strlit("ctrl-z");
            assert("cmd-z"@.len() != "ctrl-z"@.len());
            reveal_strlit("shift-cmd-z");
            assert("cmd-z"@.len() != "shift-cmd-z"@.len());
            reveal_strlit("shift-ctrl-z");
            assert("cmd-z"@.len() != "shift-ctrl-z"@.len());
            reveal_strlit("enter");
            assert("cmd-z"@[0] != "enter"@[0]);
        }
    } else if k == 1 {
        assert(clipboard_keys("cmd"@)[k] == bound("shift-cmd-z"@, EditorCommand::Redo));
        assert(clipboard_rule("shift-cmd-z"@, EditorCommand::Redo)) by {
            reveal_strlit("shift-cmd-z");
            reveal_strlit("cmd-c");
            assert("shift-cmd-z"@.len() != "cmd-c"@.len());
            reveal_strlit("ctrl-c");
            assert("shift-cmd-z"@.len() != "ctrl-c"@.len());
            reveal_strlit("cmd-x");
            assert("shift-cmd-z"@.len() != "cmd-x"@.len());
            reveal_strlit("ctrl-x");
            assert("shift-cmd-z"@.len() != "ctrl-x"@.len());
            reveal_strlit("cmd-v");
            assert("shift-cmd-z"@.len() != "cmd-v"@.len());
            reveal_strlit("ctrl-v");
            assert("shift-cmd-z"@.len() != "ctrl-v"@.len());
            reveal_strlit("cmd-a");
            assert("shift-cmd-z"@.len() != "cmd-a"@.len());
            reveal_strlit("ctrl-a");
            assert("shift-cmd-z"@.len() != "ctrl-a"@.len());
            reveal_strlit("cmd-z");
            assert("shift-cmd-z"@.len() != "cmd-z"@.len());
            reveal_strlit("ctrl-z");
            assert("shift-cmd-z"@.len() != "ctrl-z"@.len());
            reveal_strlit("shift-ctrl-z");
            assert("shift-cmd-z"@.len() != "shift-ctrl-z"@.len());
            reveal_strlit("enter");
            assert("shift-cmd-z"@.len() != "enter"@.len());
        }
    } else if k == 2 {
        assert(clipboard_keys("cmd"@)[k] == bound("cmd-a"@, EditorCommand::SelectAll));
        assert(clipboard_rule("cmd-a"@, EditorCommand::SelectAll)) by {
            reveal_strlit("cmd-a");
            reveal_strlit("cmd-c");
            assert("cmd-a"@[4] != "cmd-c"@[4]);
            reveal_strlit("ctrl-c");
            assert("cmd-a"@.len() != "ctrl-c"@.len());
            reveal_strlit("cmd-x");
            assert("cmd-a"@[4] != "cmd-x"@[4]);
            reveal_strlit("ctrl-x");
            assert("cmd-a"@.len() != "ctrl-x"@.len());
            reveal_strlit("cmd-v");
            assert("cmd-a"@[4] != "cmd-v"@[4]);
            reveal_strlit("ctrl-v");
            assert("cmd-a"@.len() != "ctrl-v"@.len());
            reveal_strlit("ctrl-a");
            assert("cmd-a"@.len() != "ctrl-a"@.len());
            reveal_strlit("cmd-z");
            assert("cmd-a"@[4] != "cmd-z"@[4]);
            reveal_strlit("ctrl-z");
            assert("cmd-a"@.len() != "ctrl-z"@.len());
            reveal_strlit("shift-cmd-z");
            assert("cmd-a"@.len() != "shift-cmd-z"@.len());
            reveal_strlit("shift-ctrl-z");
            assert("cmd-a"@.len() != "shift-ctrl-z"@.len());
            reveal_strlit("enter");
            assert("cmd-a"@[0] != "enter"@[0]);
        }
    } else if k == 3 {
        assert(clipboard_keys("cmd"@)[k] == bound("cmd-c"@, EditorCommand::CopySelection));
        assert(clipboard_rule("cmd-c"@, EditorCommand::CopySelection)) by {
            reveal_strlit("cmd-c");
            reveal_strlit("ctrl-c");
            assert("cmd-c"@.len() != "ctrl-c"@.len());
            reveal_strlit("cmd-x");
            assert("cmd-c"@[4] != "cmd-x"@[4]);
            reveal_strlit("ctrl-x");
            assert("cmd-c"@.len() != "ctrl-x"@.len());
            reveal_strlit("cmd-v");
            assert("cmd-c"@[4] != "cmd-v"@[4]);
            reveal_strlit("ctrl-v");
            assert("cmd-c"@.len() != "ctrl-v"@.len());
            reveal_strlit("cmd-a");
            assert("cmd-c"@[4] != "cmd-a"@[4]);
            reveal_strlit("ctrl-a");
            assert("cmd-c"@.len() != "ctrl-a"@.len());
            reveal_strlit("cmd-z");
            assert("cmd-c"@[4] != "cmd-z"@[4]);
            reveal_strlit("ctrl-z");
            assert("cmd-c"@.len() != "ctrl-z"@.len());
            reveal_strlit("shift-cmd-z");
            assert("cmd-c"@.len() != "shift-cmd-z"@.len());
            reveal_strlit("shift-ctrl-z");
            assert("cmd-c"@.len() != "shift-ctrl-z"@.len());
            reveal_strlit("enter");
            assert("cmd-c"@[0] != "enter"@[0]);
        }
    } else if k == 4 {
        assert(clipboard_keys("cmd"@)[k] == bound("cmd-x"@, EditorCommand::Cut));
        assert(clipboard_rule("cmd-x"@, EditorCommand::Cut)) by {
            reveal_strlit("cmd-x");
            reveal_strlit("cmd-c");
            assert("cmd-x"@[4] != "cmd-c"@[4]);
            reveal_strlit("ctrl-c");
            assert("cmd-x"@.len() != "ctrl-c"@.len());
            reveal_strlit("ctrl-x");
            assert("cmd-x"@.len() != "ctrl-x"@.len());
            reveal_strlit("cmd-v");
            assert("cmd-x"@[4] != "cmd-v"@[4]);
            reveal_strlit("ctrl-v");
            assert("cmd-x"@.len() != "ctrl-v"@.len());
            reveal_strlit("cmd-a");
            assert("cmd-x"@[4] != "cmd-a"@[4]);
            reveal_strlit("ctrl-a");
            assert("cmd-x"@.len() != "ctrl-a"@.len());
            reveal_strlit("cmd-z");
            assert("cmd-x"@[4] != "cmd-z"@[4]);
            reveal_strlit("ctrl-z");
            assert("cmd-x"@.len() != "ctrl-z"@.len());
            reveal_strlit("shift-cmd-z");
            assert("cmd-x"@.len() != "shift-cmd-z"@.len());
            reveal_strlit("shift-ctrl-z");
            assert("cmd-x"@.len() != "shift-ctrl-z"@.len());
            reveal_strlit("enter");
            assert("cmd-x"@[0] != "enter"@[0]);
        }
    } else if k == 5 {
        assert(clipboard_keys("cmd"@)[k] == bound("cmd-v"@, EditorCommand::Paste));
        assert(clipboard_rule("cmd-v"@, EditorCommand::Paste)) by {
            reveal_strlit("cmd-v");
            reveal_strlit("cmd-c");
            assert("cmd-v"@[4] != "cmd-c"@[4]);
            reveal_strlit("ctrl-c");
            assert("cmd-v"@.len() != "ctrl-c"@.len());
            reveal_strlit("cmd-x");
            assert("cmd-v"@[4] != "cmd-x"@[4]);
            reveal_strlit("ctrl-x");
            assert("cmd-v"@.len() != "ctrl-x"@.len());
            reveal_strlit("ctrl-v");
            assert("cmd-v"@.len() != "ctrl-v"@.len());
            reveal_strlit("cmd-a");
            assert("cmd-v"@[4] != "cmd-a"@[4]);
            reveal_strlit("ctrl-a");
            assert("cmd-v"@.len() != "ctrl-a"@.len());
            reveal_strlit("cmd-z");
            assert("cmd-v"@[4] != "cmd-z"@[4]);
            reveal_strlit("ctrl-z");
            assert("cmd-v"@.len() != "ctrl-z"@.len());
            reveal_strlit("shift-cmd-z");
            assert("cmd-v"@.len() != "shift-cmd-z"@.len());
            reveal_strlit("shift-ctrl-z");
            assert("cmd-v"@.len() != "shift-ctrl-z"@.len());
            reveal_strlit("enter");
            assert("cmd-v"@[0] != "enter"@[0]);
        }
    }
}

proof fn lemma_ctrl_rule(k: int)
    requires
        0 <= k < 6,
    ensures
        clipboard_rule(clipboard_keys("ctrl"@)[k].0, clipboard_keys("ctrl"@)[k].1),
{
    lemma_bindings_literal(true);
    if k == 0 {
        assert(clipboard_keys("ctrl"@)[k] == bound("ctrl-z"@, EditorCommand::Undo));
        assert(clipboard_rule("ctrl-z"@, EditorCommand::Undo)) by {
            reveal_strlit("ctrl-z");
            reveal_strlit("cmd-c");
            assert("ctrl-z"@.len() != "cmd-c"@.len());
            reveal_strlit("ctrl-c");
            assert("ctrl-z"@[5] != "ctrl-c"@[5]);
            reveal_strlit("cmd-x");
            assert("ctrl-z"@.len() != "cmd-x"@.len());
            reveal_strlit("ctrl-x");
            assert("ctrl-z"@[5] != "ctrl-x"@[5]);
            reveal_strlit("cmd-v");
            assert("ctrl-z"@.len() != "cmd-v"@.len());
            reveal_strlit("ctrl-v");
            assert("ctrl-z"@[5] != "ctrl-v"@[5]);
            reveal_strlit("cmd-a");
            assert("ctrl-z"@.len() != "cmd-a"@.len());
            reveal_strlit("ctrl-a");
            assert("ctrl-z"@[5] != "ctrl-a"@[5]);
            reveal_strlit("cmd-z");
            assert("ctrl-z"@.len() != "cmd-z"@.len());
            reveal_strlit("shift-cmd-z");
            assert("ctrl-z"@.len() != "shift-cmd-z"@.len());
            reveal_strlit("shift-ctrl-z");
            assert("ctrl-z"@.len() != "shift-ctrl-z"@.len());
            reveal_strlit("enter");
            assert("ctrl-z"@.len() != "enter"@.len());
        }
    } else if k == 1 {
        assert(clipboard_keys("ctrl"@)[k] == bound("shift-ctrl-z"@, EditorCommand::Redo));
        assert(clipboard_rule("shift-ctrl-z"@, EditorCommand::Redo)) by {
            reveal_strlit("shift-ctrl-z");
            reveal_strlit("cmd-c");
            assert("shift-ctrl-z"@.len() != "cmd-c"@.len());
            reveal_strlit("ctrl-c");
            assert("shift-ctrl-z"@.len() != "ctrl-c"@.len());
            reveal_strlit("cmd-x");
            assert("shift-ctrl-z"@.len() != "cmd-x"@.len());
            reveal_strlit("ctrl-x");
            assert("shift-ctrl-z"@.len() != "ctrl-x"@.len());
            reveal_strlit("cmd-v");
            assert("shift-ctrl-z"@.len() != "cmd-v"@.len());
            reveal_strlit("ctrl-v");
            assert("shift-ctrl-z"@.len() != "ctrl-v"@.len());
            reveal_strlit("cmd-a");
            assert("shift-ctrl-z"@.len() != "cmd-a"@.len());
            reveal_strlit("ctrl-a");
            assert("shift-ctrl-z"@.len() != "ctrl-a"@.len());
            reveal_strlit("cmd-z");
            assert("shift-ctrl-z"@.len() != "cmd-z"@.len());
            reveal_strlit("ctrl-z");
            assert("shift-ctrl-z"@.len() != "ctrl-z"@.len());
            reveal_strlit("shift-cmd-z");
            assert("shift-ctrl-z"@.len() != "shift-cmd-z"@.len());
            reveal_strlit("enter");
            assert("shift-ctrl-z"@.len() != "enter"@.len());
        }
    } else if k == 2 {
        assert(clipboard_keys("ctrl"@)[k] == bound("ctrl-a"@, EditorCommand::SelectAll));
        assert(clipboard_rule("ctrl-a"@, EditorCommand::SelectAll)) by {
            reveal_strlit("ctrl-a");
            reveal_strlit("cmd-c");
            assert("ctrl-a"@.len() != "cmd-c"@.len());
            reveal_strlit("ctrl-c");
            assert("ctrl-a"@[5] != "ctrl-c"@[5]);
            reveal_strlit("cmd-x");
            assert("ctrl-a"@.len() != "cmd-x"@.len());
            reveal_strlit("ctrl-x");
            assert("ctrl-a"@[5] != "ctrl-x"@[5]);
            reveal_strlit("cmd-v");
            assert("ctrl-a"@.len() != "cmd-v"@.len());
            reveal_strlit("ctrl-v");
            assert("ctrl-a"@[5] != "ctrl-v"@[5]);
            reveal_strlit("cmd-a");
            assert("ctrl-a"@.len() != "cmd-a"@.len());
            reveal_strlit("cmd-z");
            assert("ctrl-a"@.len() != "cmd-z"@.len());
            reveal_strlit("ctrl-z");
            assert("ctrl-a"@[5] != "ctrl-z"@[5]);
            reveal_strlit("shift-cmd-z");
            assert("ctrl-a"@.len() != "shift-cmd-z"@.len());
            reveal_strlit("shift-ctrl-z");
            assert("ctrl-a"@.len() != "shift-ctrl-z"@.len());
            reveal_strlit("enter");
            assert("ctrl-a"@.len() != "enter"@.len());
        }
    } else if k == 3 {
        assert(clipboard_keys("ctrl"@)[k] == bound("ctrl-c"@, EditorCommand::CopySelection));
        assert(clipboard_rule("ctrl-c"@, EditorCommand::CopySelection)) by {
            reveal_strlit("ctrl-c");
            reveal_strlit("cmd-c");
            assert("ctrl-c"@.len() != "cmd-c"@.len());
            reveal_strlit("cmd-x");
            assert("ctrl-c"@.len() != "cmd-x"@.len());
            reveal_strlit("ctrl-x");
            assert("ctrl-c"@[5] != "ctrl-x"@[5]);
            reveal_strlit("cmd-v");
            assert("ctrl-c"@.len() != "cmd-v"@.len());
            reveal_strlit("ctrl-v");
            assert("ctrl-c"@[5] != "ctrl-v"@[5]);
            reveal_strlit("cmd-a");
            assert("ctrl-c"@.len() != "cmd-a"@.len());
            reveal_strlit("ctrl-a");
            assert("ctrl-c"@[5] != "ctrl-a"@[5]);
            reveal_strlit("cmd-z");
            assert("ctrl-c"@.len() != "cmd-z"@.len());
            reveal_strlit("ctrl-z");
            assert("ctrl-c"@[5] != "ctrl-z"@[5]);
            reveal_strlit("shift-cmd-z");
            assert("ctrl-c"@.len() != "shift-cmd-z"@.len());
            reveal_strlit("shift-ctrl-z");
            assert("ctrl-c"@.len() != "shift-ctrl-z"@.len());
            reveal_strlit("enter");
            assert("ctrl-c"@.len() != "enter"@.len());
        }
    } else if k == 4 {
        assert(clipboard_keys("ctrl"@)[k] == bound("ctrl-x"@, EditorCommand::Cut));
        assert(clipboard_rule("ctrl-x"@, EditorCommand::Cut)) by {
            reveal_strlit("ctrl-x");
            reveal_strlit("cmd-c");
            assert("ctrl-x"@.len() != "cmd-c"@.len());
            reveal_strlit("ctrl-c");
            assert("ctrl-x"@[5] != "ctrl-c"@[5]);
            reveal_strlit("cmd-x");
            assert("ctrl-x"@.len() != "cmd-x"@.len());
            reveal_strlit("cmd-v");
            assert("ctrl-x"@.len() != "cmd-v"@.len());
            reveal_strlit("ctrl-v");
            assert("ctrl-x"@[5] != "ctrl-v"@[5]);
            reveal_strlit("cmd-a");
            assert("ctrl-x"@.len() != "cmd-a"@.len());
            reveal_strlit("ctrl-a");
            assert("ctrl-x"@[5] != "ctrl-a"@[5]);
            reveal_strlit("cmd-z");
            assert("ctrl-x"@.len() != "cmd-z"@.len());
            reveal_strlit("ctrl-z");
            assert("ctrl-x"@[5] != "ctrl-z"@[5]);
            reveal_strlit("shift-cmd-z");
            assert("ctrl-x"@.len() != "shift-cmd-z"@.len());
            reveal_strlit("shift-ctrl-z");
            assert("ctrl-x"@.len() != "shift-ctrl-z"@.len());
            reveal_strlit("enter");
            assert("ctrl-x"@.len() != "enter"@.len());
        }
    } else if k == 5 {
        assert(clipboard_keys("ctrl"@)[k] == bound("ctrl-v"@, EditorCommand::Paste));
        assert(clipboard_rule("ctrl-v"@, EditorCommand::Paste)) by {
            reveal_strlit("ctrl-v");
            reveal_strlit("cmd-c");
            assert("ctrl-v"@.len() != "cmd-c"@.len());
            reveal_strlit("ctrl-c");
            assert("ctrl-v"@[5] != "ctrl-c"@[5]);
            reveal_strlit("cmd-x");
            assert("ctrl-v"@.len() != "cmd-x"@.len());
            reveal_strlit("ctrl-x");
            assert("ctrl-v"@[5] != "ctrl-x"@[5]);
            reveal_strlit("cmd-v");
            assert("ctrl-v"@.len() != "cmd-v"@.len());
            reveal_strlit("cmd-a");
            assert("ctrl-v"@.len() != "cmd-a"@.len());
            reveal_strlit("ctrl-a");
            assert("ctrl-v"@[5] != "ctrl-a"@[5]);
            reveal_strlit("cmd-z");
            assert("ctrl-v"@.len() != "cmd-z"@.len());
            reveal_strlit("ctrl-z");
            assert("ctrl-v"@[5] != "ctrl-z"@[5]);
            reveal_strlit("shift-cmd-z");
            assert("ctrl-v"@.len() != "shift-cmd-z"@.len());
            reveal_strlit("shift-ctrl-z");
            assert("ctrl-v"@.len() != "shift-ctrl-z"@.len());
            reveal_strlit("enter");
            assert("ctrl-v"@.len() != "enter"@.len());
        }
    }
}

proof fn lemma_alt_words_rule(k: int)
    requires
        0 <= k < 6,
    ensures
        clipboard_rule(word_keys("alt"@)[k].0, word_keys("alt"@)[k].1),
{
    lemma_bindings_literal(true);
    if k == 0 {
        assert(word_keys("alt"@)[k] == bound("alt-backspace"@, EditorCommand::DeleteWordLeft));
        assert(clipboard_rule("alt-backspace"@, EditorCommand::DeleteWordLeft)) by {
            reveal_strlit("alt-backspace");
            reveal_strlit("cmd-c");
            assert("alt-backspace"@.len() != "cmd-c"@.len());
            reveal_strlit("ctrl-c");
            assert("alt-backspace"@.len() != "ctrl-c"@.len());
            reveal_strlit("cmd-x");
            assert("alt-backspace"@.len() != "cmd-x"@.len());
            reveal_strlit("ctrl-x");
            assert("alt-backspace"@.len() != "ctrl-x"@.len());
            reveal_strlit("cmd-v");
            assert("alt-backspace"@.len() != "cmd-v"@.len());
            reveal_strlit("ctrl-v");
            assert("alt-backspace"@.len() != "ctrl-v"@.len());
            reveal_strlit("cmd-a");
            assert("alt-backspace"@.len() != "cmd-a"@.len());
            reveal_strlit("ctrl-a");
            assert("alt-backspace"@.len() != "ctrl-a"@.len());
            reveal_strlit("cmd-z");
            assert("alt-backspace"@.len() != "cmd-z"@.len());
            reveal_strlit("ctrl-z");
            assert("alt-backspace"@.len() != "ctrl-z"@.len());
            reveal_strlit("shift-cmd-z");
            assert("alt-backspace"@.len() != "shift-cmd-z"@.len());
            reveal_strlit("shift-ctrl-z");
            assert("alt-backspace"@.len() != "shift-ctrl-z"@.len());
            reveal_strlit("enter");
            assert("alt-backspace"@.len() != "enter"@.len());
        }
    } else if k == 1 {
        assert(word_keys("alt"@)[k] == bound("alt-delete"@, EditorCommand::DeleteWordRight));
        assert(clipboard_rule("alt-delete"@, EditorCommand::DeleteWordRight)) by {
            reveal_strlit("alt-delete");
            reveal_strlit("cmd-c");
            assert("alt-delete"@.len() != "cmd-c"@.len());
            reveal_strlit("ctrl-c");
            assert("alt-delete"@.len() != "ctrl-c"@.len());
            reveal_strlit("cmd-x");
            assert("alt-delete"@.len() != "cmd-x"@.len());
            reveal_strlit("ctrl-x");
            assert("alt-delete"@.len() != "ctrl-x"@.len());
            reveal_strlit("cmd-v");
            assert("alt-delete"@.len() != "cmd-v"@.len());
            reveal_strlit("ctrl-v");
            assert("alt-delete"@.len() != "ctrl-v"@.len());
            reveal_strlit("cmd-a");
            assert("alt-delete"@.len() != "cmd-a"@.len());
            reveal_strlit("ctrl-a");
            assert("alt-delete"@.len() != "ctrl-a"@.len());
            reveal_strlit("cmd-z");
            assert("alt-delete"@.len() != "cmd-z"@.len());
            reveal_strlit("ctrl-z");
            assert("alt-delete"@.len() != "ctrl-z"@.len());
            reveal_strlit("shift-cmd-z");
            assert("alt-delete"@.len() != "shift-cmd-z"@.len());
            reveal_strlit("shift-ctrl-z");
            assert("alt-delete"@.len() != "shift-ctrl-z"@.len());
            reveal_strlit("enter");
            assert("alt-delete"@.len() != "enter"@.len());
        }
    } else if k == 2 {
        assert(word_keys("alt"@)[k] == bound("alt-left"@, EditorCommand::WordLeft));
        assert(clipboard_rule("alt-left"@, EditorCommand::WordLeft)) by {
            reveal_strlit("alt-left");
            reveal_strlit("cmd-c");
            assert("alt-left"@.len() != "cmd-c"@.len());
            reveal_strlit("ctrl-c");
            assert("alt-left"@.len() != "ctrl-c"@.len());
            reveal_strlit("cmd-x");
            assert("alt-left"@.len() != "cmd-x"@.len());
            reveal_strlit("ctrl-x");
            assert("alt-left"@.len() != "ctrl-x"@.len());
            reveal_strlit("cmd-v");
            assert("alt-left"@.len() != "cmd-v"@.len());
            reveal_strlit("ctrl-v");
            assert("alt-left"@.len() != "ctrl-v"@.len());
            reveal_strlit("cmd-a");
            assert("alt-left"@.len() != "cmd-a"@.len());
            reveal_strlit("ctrl-a");
            assert("alt-left"@.len() != "ctrl-a"@.len());
            reveal_strlit("cmd-z");
            assert("alt-left"@.len() != "cmd-z"@.len());
            reveal_strlit("ctrl-z");
            assert("alt-left"@.len() != "ctrl-z"@.len());
            reveal_strlit("shift-cmd-z");
            assert("alt-left"@.len() != "shift-cmd-z"@.len());
            reveal_strlit("shift-ctrl-z");
            assert("alt-left"@.len() != "shift-ctrl-z"@.len());
            reveal_strlit("enter");
            assert("alt-left"@.len() != "enter"@.len());
        }
    } else if k == 3 {
        assert(word_keys("alt"@)[k] == bound("alt-right"@, EditorCommand::WordRight));
        assert(clipboard_rule("alt-right"@, EditorCommand::WordRight)) by {
            reveal_strlit("alt-right");
            reveal_strlit("cmd-c");
            assert("alt-right"@.len() != "cmd-c"@.len());
            reveal_strlit("ctrl-c");
            assert("alt-right"@.len() != "ctrl-c"@.len());
            reveal_strlit("cmd-x");
            assert("alt-right"@.len() != "cmd-x"@.len());
            reveal_strlit("ctrl-x");
            assert("alt-right"@.len() != "ctrl-x"@.len());
            reveal_strlit("cmd-v");
            assert("alt-right"@.len() != "cmd-v"@.len());
            reveal_strlit("ctrl-v");
            assert("alt-right"@.len() != "ctrl-v"@.len());
            reveal_strlit("cmd-a");
            assert("alt-right"@.len() != "cmd-a"@.len());
            reveal_strlit("ctrl-a");
            assert("alt-right"@.len() != "ctrl-a"@.len());
            reveal_strlit("cmd-z");
            assert("alt-right"@.len() != "cmd-z"@.len());
            reveal_strlit("ctrl-z");
            assert("alt-right"@.len() != "ctrl-z"@.len());
            reveal_strlit("shift-cmd-z");
            assert("alt-right"@.len() != "shift-cmd-z"@.len());
            reveal_strlit("shift-ctrl-z");
            assert("alt-right"@.len() != "shift-ctrl-z"@.len());
            reveal_strlit("enter");
            assert("alt-right"@.len() != "enter"@.len());
        }
    } else if k == 4 {
        assert(word_keys("alt"@)[k] == bound("shift-alt-left"@, EditorCommand::SelectWordLeft));
        assert(clipboard_rule("shift-alt-left"@, EditorCommand::SelectWordLeft)) by {
            reveal_strlit("shift-alt-left");
            reveal_strlit("cmd-c");
            assert("shift-alt-left"@.len() != "cmd-c"@.len());
            reveal_strlit("ctrl-c");
            assert("shift-alt-left"@.len() != "ctrl-c"@.len());
            reveal_strlit("cmd-x");
            assert("shift-alt-left"@.len() != "cmd-x"@.len());
            reveal_strlit("ctrl-x");
            assert("shift-alt-left"@.len() != "ctrl-x"@.len());
            reveal_strlit("cmd-v");
            assert("shift-alt-left"@.len() != "cmd-v"@.len());
            reveal_strlit("ctrl-v");
            assert("shift-alt-left"@.len() != "ctrl-v"@.len());
            reveal_strlit("cmd-a");
            assert("shift-alt-left"@.len() != "cmd-a"@.len());
            reveal_strlit("ctrl-a");
            assert("shift-alt-left"@.len() != "ctrl-a"@.len());
            reveal_strlit("cmd-z");
            assert("shift-alt-left"@.len() != "cmd-z"@.len());
            reveal_strlit("ctrl-z");
            assert("shift-alt-left"@.len() != "ctrl-z"@.len());
            reveal_strlit("shift-cmd-z");
            assert("shift-alt-left"@.len() != "shift-cmd-z"@.len());
            reveal_strlit("shift-ctrl-z");
            assert("shift-alt-left"@.len() != "shift-ctrl-z"@.len());
            reveal_strlit("enter");
            assert("shift-alt-left"@.len() != "enter"@.len());
        }
    } else if k == 5 {
        assert(word_keys("alt"@)[k] == bound("shift-alt-right"@, EditorCommand::SelectWordRight));
        assert(clipboard_rule("shift-alt-right"@, EditorCommand::SelectWordRight)) by {
            reveal_strlit("shift-alt-right");
            reveal_strlit("cmd-c");
            assert("shift-alt-right"@.len() != "cmd-c"@.len());
            reveal_strlit("ctrl-c");
            assert("shift-alt-right"@.len() != "ctrl-c"@.len());
            reveal_strlit("cmd-x");
            assert("shift-alt-right"@.len() != "cmd-x"@.len());
            reveal_strlit("ctrl-x");
            assert("shift-alt-right"@.len() != "ctrl-x"@.len());
            reveal_strlit("cmd-v");
            assert("shift-alt-right"@.len() != "cmd-v"@.len());
            reveal_strlit("ctrl-v");
            assert("shift-alt-right"@.len() != "ctrl-v"@.len());
            reveal_strlit("cmd-a");
            assert("shift-alt-right"@.len() != "cmd-a"@.len());
            reveal_strlit("ctrl-a");
            assert("shift-alt-right"@.len() != "ctrl-a"@.len());
            reveal_strlit("cmd-z");
            assert("shift-alt-right"@.len() != "cmd-z"@.len());
            reveal_strlit("ctrl-z");
            assert("shift-alt-right"@.len() != "ctrl-z"@.len());
            reveal_strlit("shift-cmd-z");
            assert("shift-alt-right"@.len() != "shift-cmd-z"@.len());
            reveal_strlit("shift-ctrl-z");
            assert("shift-alt-right"@.len() != "shift-ctrl-z"@.len());
            reveal_strlit("enter");
            assert("shift-alt-right"@.len() != "enter"@.len());
        }
    }
}

proof fn lemma_ctrl_words_rule(k: int)
    requires
        0 <= k < 6,
    ensures
        clipboard_rule(word_keys("ctrl"@)[k].0, word_keys("ctrl"@)[k].1),
{
    lemma_bindings_literal(true);
    if k == 0 {
        assert(word_keys("ctrl"@)[k] == bound("ctrl-backspace"@, EditorCommand::DeleteWordLeft));
        assert(clipboard_rule("ctrl-backspace"@, EditorCommand::DeleteWordLeft)) by {
            reveal_strlit("ctrl-backspace");
            reveal_strlit("cmd-c");
            assert("ctrl-backspace"@.len() != "cmd-c"@.len());
            reveal_strlit("ctrl-c");
            assert("ctrl-backspace"@.len() != "ctrl-c"@.len());
            reveal_strlit("cmd-x");
            assert("ctrl-backspace"@.len() != "cmd-x"@.len());
            reveal_strlit("ctrl-x");
            assert("ctrl-backspace"@.len() != "ctrl-x"@.len());
            reveal_strlit("cmd-v");
            assert("ctrl-backspace"@.len() != "cmd-v"@.len());
            reveal_strlit("ctrl-v");
            assert("ctrl-backspace"@.len() != "ctrl-v"@.len());
            reveal_strlit("cmd-a");
            assert("ctrl-backspace"@.len() != "cmd-a"@.len());
            reveal_strlit("ctrl-a");
            assert("ctrl-backspace"@.len() != "ctrl-a"@.len());
            reveal_strlit("cmd-z");
            assert("ctrl-backspace"@.len() != "cmd-z"@.len());
            reveal_strlit("ctrl-z");
            assert("ctrl-backspace"@.len() != "ctrl-z"@.len());
            reveal_strlit("shift-cmd-z");
            assert("ctrl-backspace"@.len() != "shift-cmd-z"@.len());
            reveal_strlit("shift-ctrl-z");
            assert("ctrl-backspace"@.len() != "shift-ctrl-z"@.len());
            reveal_strlit("enter");
            assert("ctrl-backspace"@.len() != "enter"@.len());
        }
    } else if k == 1 {
        assert(word_keys("ctrl"@)[k] == bound("ctrl-delete"@, EditorCommand::DeleteWordRight));
        assert(clipboard_rule("ctrl-delete"@, EditorCommand::DeleteWordRight)) by {
            reveal_strlit("ctrl-delete");
            reveal_strlit("cmd-c");
            assert("ctrl-delete"@.len() != "cmd-c"@.len());
            reveal_strlit("ctrl-c");
            assert("ctrl-delete"@.len() != "ctrl-c"@.len());
            reveal_strlit("cmd-x");
            assert("ctrl-delete"@.len() != "cmd-x"@.len());
            reveal_strlit("ctrl-x");
            assert("ctrl-delete"@.len() != "ctrl-x"@.len());
            reveal_strlit("cmd-v");
            assert("ctrl-delete"@.len() != "cmd-v"@.len());
            reveal_strlit("ctrl-v");
            assert("ctrl-delete"@.len() != "ctrl-v"@.len());
            reveal_strlit("cmd-a");
            assert("ctrl-delete"@.len() != "cmd-a"@.len());
            reveal_strlit("ctrl-a");
            assert("ctrl-delete"@.len() != "ctrl-a"@.len());
            reveal_strlit("cmd-z");
            assert("ctrl-delete"@.len() != "cmd-z"@.len());
            reveal_strlit("ctrl-z");
            assert("ctrl-delete"@.len() != "ctrl-z"@.len());
            reveal_strlit("shift-cmd-z");
            assert("ctrl-delete"@[0] != "shift-cmd-z"@[0]);
            reveal_strlit("shift-ctrl-z");
            assert("ctrl-delete"@.len() != "shift-ctrl-z"@.len());
            reveal_strlit("enter");
            assert("ctrl-delete"@.len() != "enter"@.len());
        }
    } else if k == 2 {
        assert(word_keys("ctrl"@)[k] == bound("ctrl-left"@, EditorCommand::WordLeft));
        assert(clipboard_rule("ctrl-left"@, EditorCommand::WordLeft)) by {
            reveal_strlit("ctrl-left");
            reveal_strlit("cmd-c");
            assert("ctrl-left"@.len() != "cmd-c"@.len());
            reveal_strlit("ctrl-c");
            assert("ctrl-left"@.len() != "ctrl-c"@.len());
            reveal_strlit("cmd-x");
            assert("ctrl-left"@.len() != "cmd-x"@.len());
            reveal_strlit("ctrl-x");
            assert("ctrl-left"@.len() != "ctrl-x"@.len());
            reveal_strlit("cmd-v");
            assert("ctrl-left"@.len() != "cmd-v"@.len());
            reveal_strlit("ctrl-v");
            assert("ctrl-left"@.len() != "ctrl-v"@.len());
            reveal_strlit("cmd-a");
            assert("ctrl-left"@.len() != "cmd-a"@.len());
            reveal_strlit("ctrl-a");
            assert("ctrl-left"@.len() != "ctrl-a"@.len());
            reveal_strlit("cmd-z");
            assert("ctrl-left"@.len() != "cmd-z"@.len());
            reveal_strlit("ctrl-z");
            assert("ctrl-left"@.len() != "ctrl-z"@.len());
            reveal_strlit("shift-cmd-z");
            assert("ctrl-left"@.len() != "shift-cmd-z"@.len());
            reveal_strlit("shift-ctrl-z");
            assert("ctrl-left"@.len() != "shift-ctrl-z"@.len());
            reveal_strlit("enter");
            assert("ctrl-left"@.len() != "enter"@.len());
        }
    } else if k == 3 {
        assert(word_keys("ctrl"@)[k] == bound("ctrl-right"@, EditorCommand::WordRight));
        assert(clipboard_rule("ctrl-right"@, EditorCommand::WordRight)) by {
            reveal_strlit("ctrl-right");
            reveal_strlit("cmd-c");
            assert("ctrl-right"@.len() != "cmd-c"@.len());
            reveal_strlit("ctrl-c");
            assert("ctrl-right"@.len() != "ctrl-c"@.len());
            reveal_strlit("cmd-x");
            assert("ctrl-right"@.len() != "cmd-x"@.len());
            reveal_strlit("ctrl-x");
            assert("ctrl-right"@.len() != "ctrl-x"@.len());
            reveal_strlit("cmd-v");
            assert("ctrl-right"@.len() != "cmd-v"@.len());
            reveal_strlit("ctrl-v");
            assert("ctrl-right"@.len() != "ctrl-v"@.len());
            reveal_strlit("cmd-a");
            assert("ctrl-right"@.len() != "cmd-a"@.len());
            reveal_strlit("ctrl-a");
            assert("ctrl-right"@.len() != "ctrl-a"@.len());
            reveal_strlit("cmd-z");
            assert("ctrl-right"@.len() != "cmd-z"@.len());
            reveal_strlit("ctrl-z");
            assert("ctrl-right"@.len() != "ctrl-z"@.len());
            reveal_strlit("shift-cmd-z");
            assert("ctrl-right"@.len() != "shift-cmd-z"@.len());
            reveal_strlit("shift-ctrl-z");
            assert("ctrl-right"@.len() != "shift-ctrl-z"@.len());
            reveal_strlit("enter");
            assert("ctrl-right"@.len() != "enter"@.len());
        }
    } else if k == 4 {
        assert(word_keys("ctrl"@)[k] == bound("shift-ctrl-left"@, EditorCommand::SelectWordLeft));
        assert(clipboard_rule("shift-ctrl-left"@, EditorCommand::SelectWordLeft)) by {
            reveal_strlit("shift-ctrl-left");
            reveal_strlit("cmd-c");
            assert("shift-ctrl-left"@.len() != "cmd-c"@.len());
            reveal_strlit("ctrl-c");
            assert("shift-ctrl-left"@.len() != "ctrl-c"@.len());
            reveal_strlit("cmd-x");
            assert("shift-ctrl-left"@.len() != "cmd-x"@.len());
            reveal_strlit("ctrl-x");
            assert("shift-ctrl-left"@.len() != "ctrl-x"@.len());
            reveal_strlit("cmd-v");
            assert("shift-ctrl-left"@.len() != "cmd-v"@.len());
            reveal_strlit("ctrl-v");
            assert("shift-ctrl-left"@.len() != "ctrl-v"@.len());
            reveal_strlit("cmd-a");
            assert("shift-ctrl-left"@.len() != "cmd-a"@.len());
            reveal_strlit("ctrl-a");
            assert("shift-ctrl-left"@.len() != "ctrl-a"@.len());
            reveal_strlit("cmd-z");
            assert("shift-ctrl-left"@.len() != "cmd-z"@.len());
            reveal_strlit("ctrl-z");
            assert("shift-ctrl-left"@.len() != "ctrl-z"@.len());
            reveal_strlit("shift-cmd-z");
            assert("shift-ctrl-left"@.len() != "shift-cmd-z"@.len());
            reveal_strlit("shift-ctrl-z");
            assert("shift-ctrl-left"@.len() != "shift-ctrl-z"@.len());
            reveal_strlit("enter");
            assert("shift-ctrl-left"@.len() != "enter"@.len());
        }
    } else if k == 5 {
        assert(word_keys("ctrl"@)[k] == bound("shift-ctrl-right"@, EditorCommand::SelectWordRight));
        assert(clipboard_rule("shift-ctrl-right"@, EditorCommand::SelectWordRight)) by {
            reveal_strlit("shift-ctrl-right");
            reveal_strlit("cmd-c");
            assert("shift-ctrl-right"@.len() != "cmd-c"@.len());
            reveal_strlit("ctrl-c");
            assert("shift-ctrl-right"@.len() != "ctrl-c"@.len());
            reveal_strlit("cmd-x");
            assert("shift-ctrl-right"@.len() != "cmd-x"@.len());
            reveal_strlit("ctrl-x");
            assert("shift-ctrl-right"@.len() != "ctrl-x"@.len());
            reveal_strlit("cmd-v");
            assert("shift-ctrl-right"@.len() != "cmd-v"@.len());
            reveal_strlit("ctrl-v");
            assert("shift-ctrl-right"@.len() != "ctrl-v"@.len());
            reveal_strlit("cmd-a");
            assert("shift-ctrl-right"@.len() != "cmd-a"@.len());
            reveal_strlit("ctrl-a");
            assert("shift-ctrl-right"@.len() != "ctrl-a"@.len());
            reveal_strlit("cmd-z");
            assert("shift-ctrl-right"@.len() != "cmd-z"@.len());
            reveal_strlit("ctrl-z");
            assert("shift-ctrl-right"@.len() != "ctrl-z"@.len());
            reveal_strlit("shift-cmd-z");
            assert("shift-ctrl-right"@.len() != "shift-cmd-z"@.len());
            reveal_strlit("shift-ctrl-z");
            assert("shift-ctrl-right"@.len() != "shift-ctrl-z"@.len());
            reveal_strlit("enter");
            assert("shift-ctrl-right"@.len() != "enter"@.len());
        }
    }
}

/// The clipboard and history chords, by their keystrokes: on every
/// platform, under `cmd` and under `ctrl` alike, `c` copies, `x` cuts, `v`
/// pastes, `a` selects all, `z` undoes and shift-`z` redoes. Each of these
/// keystrokes is bound once, and Enter inserts a line.
pub proof fn law_clipboard_chords_do_what_they_say(mac: bool)
    ensures
        forall|k: int| 0 <= k < files_bindings_spec(mac).len() ==> {
            let (key, command, context) = #[trigger] files_bindings_spec(mac)[k];
            &&& context == "FilesEditor"@
            &&& (key == "cmd-c"@ || key == "ctrl-c"@) ==> command == EditorCommand::CopySelection
            &&& (key == "cmd-x"@ || key == "ctrl-x"@) ==> command == EditorCommand::Cut
            &&& (key == "cmd-v"@ || key == "ctrl-v"@) ==> command == EditorCommand::Paste
            &&& (key == "cmd-a"@ || key == "ctrl-a"@) ==> command == EditorCommand::SelectAll
            &&& (key == "cmd-z"@ || key == "ctrl-z"@) ==> command == EditorCommand::Undo
            &&& (key == "shift-cmd-z"@ || key == "shift-ctrl-z"@) ==> command == EditorCommand::Redo
            &&& key == "enter"@ ==> command == EditorCommand::Newline
        },
        exists|k: int| 0 <= k < files_bindings_spec(mac).len() && #[trigger] files_bindings_spec(mac)[k] == (
            "ctrl-c"@,
            EditorCommand::CopySelection,
            "FilesEditor"@,
        ),
        exists|k: int| 0 <= k < files_bindings_spec(mac).len() && #[trigger] files_bindings_spec(mac)[k] == (
            "cmd-c"@,
            EditorCommand::CopySelection,
            "FilesEditor"@,
        ),
        exists|k: int| 0 <= k < files_bindings_spec(mac).len() && #[trigger] files_bindings_spec(mac)[k] == (
            "ctrl-x"@,
            EditorCommand::Cut,
            "FilesEditor"@,
        ),
        exists|k: int| 0 <= k < files_bindings_spec(mac).len() && #[trigger] files_bindings_spec(mac)[k] == (
            "cmd-x"@,
            EditorCommand::Cut,
            "FilesEditor"@,
        ),
{
    reveal_strlit("cmd");
    reveal_strlit("ctrl");
    reveal_strlit("alt");
    reveal_strlit("-");
    reveal_strlit("shift-");
    reveal_strlit("z");
    reveal_strlit("a");
    reveal_strlit("c");
    reveal_strlit("x");
    reveal_strlit("v");
    reveal_strlit("cmd-c");
    reveal_strlit("ctrl-c");
    reveal_strlit("cmd-x");
    reveal_strlit("ctrl-x");
    reveal_strlit("cmd-v");
    reveal_strlit("ctrl-v");
    reveal_strlit("cmd-a");
    reveal_strlit("ctrl-a");
    reveal_strlit("cmd-z");
    reveal_strlit("ctrl-z");
    reveal_strlit("shift-cmd-z");
    reveal_strlit("shift-ctrl-z");
    reveal_strlit("enter");
    reveal_strlit("FilesEditor");
    let b = files_bindings_spec(mac);
    assert(b.len() == 44);
    assert(b[29] == ("cmd-c"@, EditorCommand::CopySelection, "FilesEditor"@));
    assert(b[30] == ("cmd-x"@, EditorCommand::Cut, "FilesEditor"@));
    assert(b[35] == ("ctrl-c"@, EditorCommand::CopySelection, "FilesEditor"@));
    assert(b[36] == ("ctrl-x"@, EditorCommand::Cut, "FilesEditor"@));
    lemma_bindings_literal_sections();
    assert forall|k: int| 0 <= k < b.len() implies clipboard_rule(b[k].0, b[k].1) && b[k].2 == "FilesEditor"@ by {
        let w = if mac {
            "alt"@
        } else {
            "ctrl"@
        };
        let p = plain_keys();
        let c1 = clipboard_keys("cmd"@);
        let c2 = clipboard_keys("ctrl"@);
        let ws = word_keys(w);
        assert(b == p + c1 + c2 + ws);
        if k < 26 {
            assert(b[k] == p[k]);
            lemma_plain_rule(k);
        } else if k < 32 {
            assert(b[k] == c1[k - 26]);
            lemma_cmd_rule(k - 26);
        } else if k < 38 {
            assert(b[k] == c2[k - 32]);
            lemma_ctrl_rule(k - 32);
        } else if mac {
            assert(b[k] == ws[k - 38]);
            lemma_alt_words_rule(k - 38);
        } else {
            assert(b[k] == ws[k - 38]);
            lemma_ctrl_words_rule(k - 38);
        }
    }
}

} // verus!
