//! The editor's document state without a window: what a read becomes, when
//! a save may go, what a refusal does, and how a conflict is settled.
use vstd::prelude::*;
use crate::proto::{FileRead, FileWrite};
use crate::text::{chars_eq, chars_of, copy_opt, opt_view, owned};

verus! {

/// What the editor shows for a path.
#[derive(Debug, Clone, PartialEq, Eq)]
pub enum Body {
    Empty,
    Loading,
    Text,
    Binary { size: u64 },
    TooLarge { size: u64, max: u64 },
    Error(String),
}

impl Default for Body {
    fn default() -> (r: Body)
        ensures
            r == Body::Empty,
    {
        Body::Empty
    }
}

/// A refused save: why, and what is on disk now.
#[derive(Debug, Clone, PartialEq, Eq)]
pub struct Conflict {
    pub reason: String,
    pub text: Option<String>,
    pub hash: Option<String>,
}

#[derive(Debug, Clone, Copy, PartialEq, Eq, Structural)]
pub enum SaveOutcome {
    Saved,
    Refused,
}

/// The document behind the editor for one path.
#[derive(Debug)]
pub struct EditorDoc {
    pub path: Option<String>,
    pub body: Body,
    /// The content hash the buffer was read with; a write wants it back.
    pub hash: Option<String>,
    /// The text as of the last read or save; the buffer against it is dirty.
    pub saved_text: String,
    pub conflict: Option<Conflict>,
    pub saving: bool,
    pub note: Option<String>,
    pub saves_asked: u32,
    pub saved: u32,
    pub refused: u32,
}

impl Default for EditorDoc {
    fn default() -> (r: EditorDoc)
        ensures
            r.path is None,
            r.body == Body::Empty,
            r.hash is None,
            r.saved_text@ == Seq::<char>::empty(),
            r.conflict is None,
            !r.saving,
            r.note is None,
            r.saves_asked == 0,
            r.saved == 0,
            r.refused == 0,
    {
        EditorDoc {
            path: None,
            body: Body::Empty,
            hash: None,
            saved_text: String::new(),
            conflict: None,
            saving: false,
            note: None,
            saves_asked: 0,
            saved: 0,
            refused: 0,
        }
    }
}

/// The buffer `current` differs from what was last read or saved, for a
/// text body.
pub open spec fn dirty_spec(d: EditorDoc, current: Seq<char>) -> bool {
    d.body == Body::Text && current != d.saved_text@
}

/// A save may go now: there is a path and a text body, no save is in
/// flight, no conflict banner is up, and the buffer is dirty.
pub open spec fn grants_spec(d: EditorDoc, current: Seq<char>) -> bool {
    d.path is Some && d.body == Body::Text && !d.saving && d.conflict is None && dirty_spec(d, current)
}

/// What a refusal leaves on screen.
pub open spec fn conflict_view(c: Option<Conflict>) -> Option<(Seq<char>, Option<Seq<char>>, Option<Seq<char>>)> {
    match c {
        Some(c) => Some((c.reason@, opt_view(c.text), opt_view(c.hash))),
        None => None,
    }
}

/// Nothing but the conflict, the hash and the saved text changed.
pub open spec fn same_but_conflict(a: EditorDoc, b: EditorDoc) -> bool {
    &&& opt_view(a.path) == opt_view(b.path)
    &&& a.body == b.body
    &&& a.saving == b.saving
    &&& opt_view(a.note) == opt_view(b.note)
    &&& a.saves_asked == b.saves_asked
    &&& a.saved == b.saved
    &&& a.refused == b.refused
}

fn is_text(b: &Body) -> (r: bool)
    ensures
        r == (*b == Body::Text),
{
    match b {
        Body::Text => true,
        _ => false,
    }
}

impl EditorDoc {
    /// A read of `path` is under way.
    pub fn loading(&mut self, path: &str)
        ensures
            opt_view(final(self).path) == Some(path@),
            final(self).body == Body::Loading,
            final(self).hash is None,
            final(self).conflict is None,
            final(self).note is None,
            !final(self).saving,
            final(self).saved_text == old(self).saved_text,
            final(self).saves_asked == old(self).saves_asked,
            final(self).saved == old(self).saved,
            final(self).refused == old(self).refused,
    {
        self.path = Some(owned(path));
        self.body = Body::Loading;
        self.hash = None;
        self.conflict = None;
        self.note = None;
        self.saving = false;
    }

    /// A read answered. Returns the text to put in the buffer, if any. An
    /// answer for a path the editor has left changes nothing.
    pub fn opened(&mut self, path: &str, read: FileRead) -> (r: Option<String>)
        ensures
            opt_view(old(self).path) != Some(path@) ==> r is None && *final(self) == *old(self),
            opt_view(old(self).path) == Some(path@) ==> match read {
                FileRead::Text { text, hash, .. } => {
                    &&& r matches Some(t) && t@ == text@
                    &&& final(self).body == Body::Text
                    &&& opt_view(final(self).hash) == Some(hash@)
                    &&& final(self).saved_text@ == text@
                    &&& final(self).conflict == old(self).conflict
                    &&& same_rest(*old(self), *final(self))
                },
                FileRead::Binary { size } => {
                    &&& r is None
                    &&& final(self).body == (Body::Binary { size })
                    &&& final(self).hash == old(self).hash
                    &&& final(self).saved_text == old(self).saved_text
                    &&& final(self).conflict == old(self).conflict
                    &&& same_rest(*old(self), *final(self))
                },
                FileRead::TooLarge { size, max } => {
                    &&& r is None
                    &&& final(self).body == (Body::TooLarge { size, max })
                    &&& final(self).hash == old(self).hash
                    &&& final(self).saved_text == old(self).saved_text
                    &&& final(self).conflict == old(self).conflict
                    &&& same_rest(*old(self), *final(self))
                },
            },
    {
        let same = match &self.path {
            Some(p) => chars_eq(chars_of(p.as_str()).as_slice(), chars_of(path).as_slice()),
            None => false,
        };
        if !same {
            return None;
        }
        match read {
            FileRead::Text { text, hash, .. } => {
                self.body = Body::Text;
                self.hash = Some(hash);
                self.saved_text = owned(text.as_str());
                Some(text)
            },
            FileRead::Binary { size } => {
                self.body = Body::Binary { size };
                None
            },
            FileRead::TooLarge { size, max } => {
                self.body = Body::TooLarge { size, max };
                None
            },
        }
    }

    /// A read or write failed: a read under way shows the error in place of
    /// the body, anything else gets a note.
    pub fn failed(&mut self, why: String)
        ensures
            !final(self).saving,
            old(self).body == Body::Loading ==> final(self).body == Body::Error(why) && opt_view(
                final(self).note,
            ) == opt_view(old(self).note),
            old(self).body != Body::Loading ==> final(self).body == old(self).body && opt_view(
                final(self).note,
            ) == Some(why@),
            opt_view(final(self).path) == opt_view(old(self).path),
            final(self).hash == old(self).hash,
            final(self).saved_text == old(self).saved_text,
            final(self).conflict == old(self).conflict,
            final(self).saves_asked == old(self).saves_asked,
            final(self).saved == old(self).saved,
            final(self).refused == old(self).refused,
    {
        self.saving = false;
        let loading = match &self.body {
            Body::Loading => true,
            _ => false,
        };
        if loading {
            self.body = Body::Error(why);
        } else {
            self.note = Some(why);
        }
    }

    /// The buffer differs from what was last read or saved.
    pub fn is_dirty(&self, current: &str) -> (r: bool)
        ensures
            r == dirty_spec(*self, current@),
    {
        is_text(&self.body) && !chars_eq(chars_of(current).as_slice(), chars_of(self.saved_text.as_str()).as_slice())
    }

    /// Whether a save may go now, and with which expected hash. Nothing goes
    /// while a save is in flight or a conflict banner is up: the owner
    /// decides first.
    pub fn save_request(&mut self, current: &str) -> (r: Option<(String, Option<String>)>)
        requires
            grants_spec(*old(self), current@) ==> old(self).saves_asked < u32::MAX,
        ensures
            grants_spec(*old(self), current@) ==> {
                &&& r matches Some((p, h)) && Some(p@) == opt_view(old(self).path) && opt_view(h)
                    == opt_view(old(self).hash)
                &&& final(self).saving
                &&& final(self).saves_asked == old(self).saves_asked + 1
                &&& opt_view(final(self).path) == opt_view(old(self).path)
                &&& final(self).body == old(self).body
                &&& final(self).hash == old(self).hash
                &&& final(self).saved_text == old(self).saved_text
                &&& final(self).conflict == old(self).conflict
                &&& final(self).note == old(self).note
                &&& final(self).saved == old(self).saved
                &&& final(self).refused == old(self).refused
            },
            !grants_spec(*old(self), current@) ==> r is None && *final(self) == *old(self),
    {
        let path = match &self.path {
            Some(p) => owned(p.as_str()),
            None => {
                return None;
            },
        };
        if !is_text(&self.body) || self.saving || self.conflict.is_some() {
            return None;
        }
        if !self.is_dirty(current) {
            return None;
        }
        self.saving = true;
        self.saves_asked = self.saves_asked + 1;
        Some((path, copy_opt(&self.hash)))
    }

    /// The write answered for `text_at_save`: saved, or refused with what is
    /// on disk now, which raises the conflict banner.
    pub fn write_answered(&mut self, write: FileWrite, text_at_save: String) -> (r: SaveOutcome)
        requires
            write is Saved ==> old(self).saved < u32::MAX,
            write is Refused ==> old(self).refused < u32::MAX,
        ensures
            !final(self).saving,
            opt_view(final(self).path) == opt_view(old(self).path),
            final(self).body == old(self).body,
            final(self).saves_asked == old(self).saves_asked,
            match write {
                FileWrite::Saved { hash, .. } => {
                    &&& r == SaveOutcome::Saved
                    &&& opt_view(final(self).hash) == Some(hash@)
                    &&& final(self).saved_text@ == text_at_save@
                    &&& final(self).conflict is None
                    &&& final(self).note is None
                    &&& final(self).saved == old(self).saved + 1
                    &&& final(self).refused == old(self).refused
                    &&& !dirty_spec(*final(self), text_at_save@)
                },
                FileWrite::Refused { reason, text, hash } => {
                    &&& r == SaveOutcome::Refused
                    &&& conflict_view(final(self).conflict) == Some(
                        (reason@, opt_view(text), opt_view(hash)),
                    )
                    &&& final(self).hash == old(self).hash
                    &&& final(self).saved_text == old(self).saved_text
                    &&& opt_view(final(self).note) == opt_view(old(self).note)
                    &&& final(self).saved == old(self).saved
                    &&& final(self).refused == old(self).refused + 1
                },
            },
    {
        self.saving = false;
        match write {
            FileWrite::Saved { hash, .. } => {
                self.hash = Some(hash);
                self.saved_text = text_at_save;
                self.conflict = None;
                self.note = None;
                self.saved = self.saved + 1;
                SaveOutcome::Saved
            },
            FileWrite::Refused { reason, text, hash } => {
                self.conflict = Some(Conflict { reason, text, hash });
                self.refused = self.refused + 1;
                SaveOutcome::Refused
            },
        }
    }

    /// Take what is on disk: the conflict's text replaces the buffer and its
    /// hash becomes ours. Returns the text to load; without a conflict,
    /// nothing changes.
    pub fn take_theirs(&mut self) -> (r: Option<String>)
        ensures
            old(self).conflict is None ==> r is None && *final(self) == *old(self),
            old(self).conflict matches Some(c) ==> {
                &&& r matches Some(t) && t@ == match c.text {
                    Some(x) => x@,
                    None => Seq::<char>::empty(),
                }
                &&& final(self).conflict is None
                &&& opt_view(final(self).hash) == opt_view(c.hash)
                &&& final(self).saved_text@ == r->0@
                &&& same_but_conflict(*old(self), *final(self))
                &&& !dirty_spec(*final(self), r->0@)
            },
    {
        let c = match self.conflict.take() {
            Some(c) => c,
            None => {
                return None;
            },
        };
        let text = match c.text {
            Some(t) => t,
            None => String::new(),
        };
        self.hash = c.hash;
        self.saved_text = owned(text.as_str());
        Some(text)
    }

    /// Keep ours: the next save carries the disk's current hash, so the
    /// engine accepts it and the other writer's bytes are replaced.
    pub fn keep_mine(&mut self) -> (r: bool)
        ensures
            r == old(self).conflict is Some,
            final(self).conflict is None,
            old(self).conflict matches Some(c) ==> opt_view(final(self).hash) == if c.hash is Some {
                opt_view(c.hash)
            } else {
                opt_view(old(self).hash)
            },
            old(self).conflict is None ==> final(self).hash == old(self).hash,
            final(self).saved_text == old(self).saved_text,
            same_but_conflict(*old(self), *final(self)),
    {
        let c = match self.conflict.take() {
            Some(c) => c,
            None => {
                return false;
            },
        };
        if c.hash.is_some() {
            self.hash = c.hash;
        }
        true
    }
}

/// The fields a read answer leaves alone.
pub open spec fn same_rest(a: EditorDoc, b: EditorDoc) -> bool {
    &&& a.path == b.path
    &&& a.saving == b.saving
    &&& a.note == b.note
    &&& a.saves_asked == b.saves_asked
    &&& a.saved == b.saved
    &&& a.refused == b.refused
}

/// One save at a time, and none over a conflict: while a save is in flight
/// or the conflict banner is up, no buffer is granted a save.
pub proof fn law_one_save_at_a_time(d: EditorDoc, current: Seq<char>)
    requires
        d.saving || d.conflict is Some,
    ensures
        !grants_spec(d, current),
{
}

/// A clean buffer is never written, and only a text body is.
pub proof fn law_only_dirty_text_is_saved(d: EditorDoc, current: Seq<char>)
    requires
        grants_spec(d, current),
    ensures
        d.body == Body::Text,
        current != d.saved_text@,
{
}

} // verus!
