//! File action forms: what a create, rename or delete asks the engine to
//! do, and which names the form refuses.
use vstd::prelude::*;
use crate::proto::FileMutation;
use crate::text::{
    append, chars_eq, chars_of, last_index_of, last_index_of_exec, last_segment, last_segment_chars,
    opt_view, owned, slice_of,
    string_of, strs_view, trim, trim_chars,
};

verus! {

/// The form that is open, with the folder or file it acts on.
#[derive(Clone, Debug, PartialEq, Eq)]
pub enum FileAction {
    Create(String),
    Rename(String),
    Delete(String),
}

pub open spec fn title_spec(a: FileAction) -> Seq<char> {
    match a {
        FileAction::Create(_) => "New file"@,
        FileAction::Rename(_) => "Rename file"@,
        FileAction::Delete(_) => "Delete file"@,
    }
}

pub open spec fn action_path(a: FileAction) -> Seq<char> {
    match a {
        FileAction::Create(p) => p@,
        FileAction::Rename(p) => p@,
        FileAction::Delete(p) => p@,
    }
}

/// The folder a path sits in: what comes before its last `/`, or nothing.
pub open spec fn parent_spec(path: Seq<char>) -> Seq<char> {
    match last_index_of(path, '/') {
        Some(i) => path.take(i),
        None => seq![],
    }
}

/// A name the form accepts: not blank, not `.` or `..`, and without a
/// folder separator or a drive colon.
pub open spec fn plain_name(n: Seq<char>) -> bool {
    n.len() > 0 && n != "."@ && n != ".."@ && !n.contains('/') && !n.contains('\\') && !n.contains(':')
}

pub open spec fn folder_message() -> Seq<char> {
    "Enter a file name without folders."@
}

/// `dir/name`, or the name alone at the project root.
pub open spec fn target_spec(dir: Seq<char>, name: Seq<char>) -> Seq<char> {
    if dir.len() == 0 {
        name
    } else {
        dir + "/"@ + name
    }
}

/// What the engine is asked to do: a delete as it stands; a create in the
/// selected folder, or a rename within the file's own folder, under the
/// trimmed name typed.
pub open spec fn mutation_spec(a: FileAction, name: Seq<char>) -> Result<
    (nat, Seq<char>, Seq<char>),
    Seq<char>,
> {
    match a {
        FileAction::Delete(p) => Ok((2, p@, seq![])),
        FileAction::Create(dir) => if plain_name(trim(name)) {
            Ok((0, target_spec(dir@, trim(name)), seq![]))
        } else {
            Err(folder_message())
        },
        FileAction::Rename(p) => if plain_name(trim(name)) {
            Ok((1, p@, target_spec(parent_spec(p@), trim(name))))
        } else {
            Err(folder_message())
        },
    }
}

/// A mutation as `(kind, path, new path)`: create 0, rename 1, delete 2.
pub open spec fn mutation_view(m: FileMutation) -> (nat, Seq<char>, Seq<char>) {
    match m {
        FileMutation::Create { path } => (0, path@, seq![]),
        FileMutation::Rename { path, new_path } => (1, path@, new_path@),
        FileMutation::Delete { path } => (2, path@, seq![]),
    }
}

/// The folder `path` sits in.
pub fn parent(path: &str) -> (r: String)
    ensures
        r@ == parent_spec(path@),
{
    let v = chars_of(path);
    match last_index_of_exec(v.as_slice(), '/') {
        Some(i) => string_of(slice_of(v.as_slice(), 0, i).as_slice()),
        None => String::new(),
    }
}

fn has_char(v: &[char], c: char) -> (r: bool)
    ensures
        r == v@.contains(c),
{
    let mut i: usize = 0;
    while i < v.len()
        invariant
            i <= v@.len(),
            forall|j: int| 0 <= j < i ==> v@[j] != c,
        decreases v@.len() - i,
    {
        if v[i] == c {
            assert(v@[i as int] == c);
            return true;
        }
        i += 1;
    }
    false
}

fn is_plain_name(n: &[char]) -> (r: bool)
    ensures
        r == plain_name(n@),
{
    n.len() > 0 && !chars_eq(n, chars_of(".").as_slice()) && !chars_eq(n, chars_of("..").as_slice())
        && !has_char(n, '/') && !has_char(n, '\\') && !has_char(n, ':')
}

fn target(dir: &[char], name: &[char]) -> (r: String)
    ensures
        r@ == target_spec(dir@, name@),
{
    if dir.len() == 0 {
        string_of(name)
    } else {
        let mut v = slice_of(dir, 0, dir.len());
        assert(v@ == dir@);
        append(&mut v, chars_of("/").as_slice());
        append(&mut v, name);
        string_of(v.as_slice())
    }
}

/// The words that refuse an action while the editor still holds the file's
/// unsaved edits or a save in flight: nothing is silently discarded. A
/// create touches no open file.
pub open spec fn blocked_spec(a: FileAction, dirty: bool, saving: bool) -> Option<Seq<char>> {
    if !(a is Create) && (dirty || saving) {
        Some("Save or discard editor changes before changing this file."@)
    } else {
        None
    }
}

impl FileAction {
    pub fn title(&self) -> (r: &'static str)
        ensures
            r@ == title_spec(*self),
    {
        match self {
            FileAction::Create(_) => "New file",
            FileAction::Rename(_) => "Rename file",
            FileAction::Delete(_) => "Delete file",
        }
    }

    pub fn path(&self) -> (r: &str)
        ensures
            r@ == action_path(*self),
    {
        match self {
            FileAction::Create(p) => p.as_str(),
            FileAction::Rename(p) => p.as_str(),
            FileAction::Delete(p) => p.as_str(),
        }
    }

    /// The engine request for this form with `name` typed, or the words
    /// that refuse the name.
    pub fn mutation(&self, name: &str) -> (r: Result<FileMutation, &'static str>)
        ensures
            match mutation_spec(*self, name@) {
                Ok(m) => r matches Ok(rm) && mutation_view(rm) == m,
                Err(e) => r matches Err(re) && re@ == e,
            },
    {
        if let FileAction::Delete(path) = self {
            return Ok(FileMutation::Delete { path: owned(path.as_str()) });
        }
        let n = trim_chars(chars_of(name).as_slice());
        if !is_plain_name(n.as_slice()) {
            return Err("Enter a file name without folders.");
        }
        match self {
            FileAction::Create(dir) => Ok(
                FileMutation::Create { path: target(chars_of(dir.as_str()).as_slice(), n.as_slice()) },
            ),
            FileAction::Rename(path) => {
                let dir = parent(path.as_str());
                Ok(
                    FileMutation::Rename {
                        path: owned(path.as_str()),
                        new_path: target(chars_of(dir.as_str()).as_slice(), n.as_slice()),
                    },
                )
            },
            FileAction::Delete(path) => Ok(FileMutation::Delete { path: owned(path.as_str()) }),
        }
    }

    /// Whether the form may dispatch now, given the editor's state.
    pub fn blocked_by_editor(&self, dirty: bool, saving: bool) -> (r: Option<&'static str>)
        ensures
            match blocked_spec(*self, dirty, saving) {
                Some(m) => r matches Some(x) && x@ == m,
                None => r is None,
            },
    {
        let create = match self {
            FileAction::Create(_) => true,
            _ => false,
        };
        if !create && (dirty || saving) {
            Some("Save or discard editor changes before changing this file.")
        } else {
            None
        }
    }
}

/// An open action form: the action, whether its name field is to take the
/// keyboard, why the last submit went nowhere, and whether a request is in
/// flight.
#[derive(Clone, Debug, PartialEq, Eq)]
pub struct ActionForm {
    pub action: FileAction,
    pub focus_pending: bool,
    pub failure: Option<String>,
    pub busy: bool,
}

/// The folders to list again after a mutation, and the row to select: the
/// folder the old path left and the folder the new path landed in, in that
/// order, and the new path.
pub open spec fn completion_spec(m: (nat, Seq<char>, Seq<char>)) -> (Seq<Seq<char>>, Option<Seq<char>>) {
    if m.0 == 0 {
        (seq![parent_spec(m.1)], Some(m.1))
    } else if m.0 == 1 {
        (seq![parent_spec(m.1), parent_spec(m.2)], Some(m.2))
    } else {
        (seq![parent_spec(m.1)], None)
    }
}

impl ActionForm {
    /// A form opens for `action`, its field ready for the keyboard. Returns
    /// the text the name field starts with: a rename starts from the
    /// file's own name, the others from nothing.
    pub fn begin(action: FileAction) -> (r: (ActionForm, String))
        ensures
            r.0.action == action,
            r.0.focus_pending,
            r.0.failure is None,
            !r.0.busy,
            r.1@ == match action {
                FileAction::Rename(p) => last_segment(p@),
                _ => Seq::<char>::empty(),
            },
    {
        let name = match &action {
            FileAction::Rename(path) => string_of(last_segment_chars(chars_of(path.as_str()).as_slice()).as_slice()),
            _ => String::new(),
        };
        (ActionForm { action, focus_pending: true, failure: None, busy: false }, name)
    }

    /// Submit with `name` typed. Nothing happens while a request is in
    /// flight. A form for an open file with unsaved edits or a save going is
    /// refused before anything is sent, as is a name with a folder in it;
    /// either way the reason shows. Otherwise the request goes and the form
    /// is busy until it is answered.
    pub fn submit(&mut self, name: &str, editor_dirty: bool, editor_saving: bool) -> (r: Option<FileMutation>)
        ensures
            old(self).busy ==> r is None && *final(self) == *old(self),
            !old(self).busy ==> match blocked_spec(old(self).action, editor_dirty, editor_saving) {
                Some(why) => {
                    &&& r is None
                    &&& final(self).failure matches Some(f) && f@ == why
                    &&& !final(self).busy
                },
                None => match mutation_spec(old(self).action, name@) {
                    Err(why) => {
                        &&& r is None
                        &&& final(self).failure matches Some(f) && f@ == why
                        &&& !final(self).busy
                    },
                    Ok(m) => {
                        &&& r matches Some(rm) && mutation_view(rm) == m
                        &&& final(self).failure is None
                        &&& final(self).busy
                    },
                },
            },
            final(self).action == old(self).action,
            final(self).focus_pending == old(self).focus_pending,
    {
        if self.busy {
            return None;
        }
        match self.action.blocked_by_editor(editor_dirty, editor_saving) {
            Some(why) => {
                self.failure = Some(owned(why));
                return None;
            },
            None => {},
        }
        match self.action.mutation(name) {
            Err(why) => {
                self.failure = Some(owned(why));
                None
            },
            Ok(m) => {
                self.busy = true;
                self.failure = None;
                Some(m)
            },
        }
    }

    /// The engine refused the request: the form stays, with the reason.
    pub fn failed(&mut self, error: String)
        ensures
            !final(self).busy,
            final(self).failure == Some(error),
            final(self).action == old(self).action,
            final(self).focus_pending == old(self).focus_pending,
    {
        self.busy = false;
        self.failure = Some(error);
    }
}

/// The engine carried the mutation out: which folders to list again, and
/// the row to select (the new path; nothing after a delete).
pub fn completed(m: &FileMutation) -> (r: (Vec<String>, Option<String>))
    ensures
        strs_view(r.0@) == completion_spec(mutation_view(*m)).0,
        opt_view(r.1) == completion_spec(mutation_view(*m)).1,
{
    let mut reload: Vec<String> = Vec::new();
    match m {
        FileMutation::Create { path } => {
            reload.push(parent(path.as_str()));
            assert(strs_view(reload@) =~= seq![parent_spec(path@)]);
            (reload, Some(owned(path.as_str())))
        },
        FileMutation::Rename { path, new_path } => {
            reload.push(parent(path.as_str()));
            reload.push(parent(new_path.as_str()));
            assert(strs_view(reload@) =~= seq![parent_spec(path@), parent_spec(new_path@)]);
            (reload, Some(owned(new_path.as_str())))
        },
        FileMutation::Delete { path } => {
            reload.push(parent(path.as_str()));
            assert(strs_view(reload@) =~= seq![parent_spec(path@)]);
            (reload, None)
        },
    }
}

/// The line under a form's title: a delete says what it removes, a create
/// at the root says so, anything else names its folder or file.
pub open spec fn detail_spec(a: FileAction) -> Seq<char> {
    if a is Delete {
        "Delete "@ + action_path(a) + "? This removes the file from disk."@
    } else if action_path(a).len() == 0 {
        "In the project root"@
    } else {
        action_path(a)
    }
}

/// A form's submit button: its words, and whether it is drawn as danger.
pub open spec fn submit_spec(a: FileAction) -> (Seq<char>, bool) {
    match a {
        FileAction::Create(_) => ("Create"@, false),
        FileAction::Rename(_) => ("Rename"@, false),
        FileAction::Delete(_) => ("Delete"@, true),
    }
}

impl FileAction {
    /// The line under the title.
    pub fn detail(&self) -> (r: String)
        ensures
            r@ == detail_spec(*self),
    {
        match self {
            FileAction::Delete(path) => {
                let mut v = chars_of("Delete ");
                append(&mut v, chars_of(path.as_str()).as_slice());
                append(&mut v, chars_of("? This removes the file from disk.").as_slice());
                string_of(v.as_slice())
            },
            FileAction::Create(path) | FileAction::Rename(path) => {
                if chars_of(path.as_str()).len() == 0 {
                    owned("In the project root")
                } else {
                    owned(path.as_str())
                }
            },
        }
    }

    /// The submit button's words, and whether it is drawn as danger.
    pub fn submit_label(&self) -> (r: (&'static str, bool))
        ensures
            (r.0@, r.1) == submit_spec(*self),
    {
        match self {
            FileAction::Create(_) => ("Create", false),
            FileAction::Rename(_) => ("Rename", false),
            FileAction::Delete(_) => ("Delete", true),
        }
    }

    /// Whether the form asks for a name: all but a delete.
    pub fn asks_name(&self) -> (r: bool)
        ensures
            r == !(*self is Delete),
    {
        match self {
            FileAction::Delete(_) => false,
            _ => true,
        }
    }
}

/// Where the keyboard goes when a form opens.
#[derive(Debug, Clone, Copy, PartialEq, Eq, Structural)]
pub enum FormFocus {
    /// The name field.
    Name,
    /// The form itself: a delete has no field, and Escape still reaches it.
    Form,
}

impl ActionForm {
    /// The first frame of a form: where the keyboard goes, once.
    pub fn take_focus(&mut self) -> (r: Option<FormFocus>)
        ensures
            !old(self).focus_pending ==> r is None,
            old(self).focus_pending ==> r == Some(if old(self).action is Delete {
                FormFocus::Form
            } else {
                FormFocus::Name
            }),
            !final(self).focus_pending,
            final(self).action == old(self).action,
            final(self).failure == old(self).failure,
            final(self).busy == old(self).busy,
    {
        if !self.focus_pending {
            return None;
        }
        self.focus_pending = false;
        if self.action.asks_name() {
            Some(FormFocus::Name)
        } else {
            Some(FormFocus::Form)
        }
    }

    /// Escape or Cancel closes the form, but not while its request is in
    /// flight.
    pub fn can_close(&self) -> (r: bool)
        ensures
            r == !self.busy,
    {
        !self.busy
    }

    /// What the form shows in place of its buttons while busy.
    pub fn status_text(&self) -> (r: Option<&'static str>)
        ensures
            self.busy ==> (r matches Some(t) && t@ == "Updating file\u{2026}"@),
            !self.busy ==> r is None,
    {
        if self.busy {
            Some("Updating file\u{2026}")
        } else {
            None
        }
    }
}

} // verus!
