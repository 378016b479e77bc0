//! The browser pane's logic: what the address bar, find in page, the tab
//! chords and zoom decide. The page itself lives elsewhere; each method here
//! takes what was read from it and says what is to be asked of it.
pub mod state;

use vstd::prelude::*;
use crate::browser_pane::state::{zoom_host_spec, ZoomMemory, ZOOM_DEFAULT};
use crate::text::{chars_eq, chars_of, owned, string_of, trim, trim_chars};

verus! {

/// What the pane is doing around the page: the address field, the find
/// field, and the zoom.
pub struct BrowserPane {
    /// True while the person is typing an address the page has not loaded.
    /// The field follows the page's address whenever it is false.
    pub url_editing: bool,
    /// The last address the pane itself wrote into the field.
    pub last_written: String,
    pub find_open: bool,
    pub find_focus_pending: bool,
    /// What the last find asked for, so Enter can step through the same run.
    pub find_query: String,
    /// Why the last typed address went nowhere.
    pub refused: Option<String>,
    /// Per-host zoom, mirrored from the settings file.
    pub zoom: ZoomMemory,
    /// The active tab's zoom, in percent.
    pub zoom_percent: u32,
    /// The address the zoom was last applied for.
    pub zoom_url: String,
}

/// What a find asks of the page.
#[derive(Debug, Clone, PartialEq, Eq)]
pub enum FindCall {
    /// The field is empty: stop, and clear the page's selection.
    Stop,
    /// Search for `query`; `find_next` steps through the run already going.
    Find { query: String, forward: bool, find_next: bool },
}

/// Enter in the address field.
#[derive(Debug, Clone, PartialEq, Eq)]
pub enum UrlSubmit {
    /// Nothing typed: nothing happens.
    Nothing,
    /// A scheme the pane refuses; the field keeps what was typed.
    Refused,
    /// Go to what was typed.
    Navigate(String),
}

/// The reload button, which stops a load in flight.
#[derive(Debug, Clone, Copy, PartialEq, Eq, Structural)]
pub enum ReloadOrStop {
    Reload,
    Stop,
}

/// A key that reaches the pane from one of its two fields.
#[derive(Debug, Clone, Copy, PartialEq, Eq, Structural)]
pub enum PaneKey {
    Enter,
    Escape,
    Other,
}

/// What such a key does.
#[derive(Debug, Clone, Copy, PartialEq, Eq, Structural)]
pub enum PaneKeyAction {
    /// Enter in the find field: the next match, or the previous one with
    /// shift.
    StepFind { forward: bool },
    SubmitUrl,
    CloseFind,
    RestoreUrl,
}

/// A find call, as contracts speak of it: the query, the direction, and
/// whether it steps through the run already going.
pub open spec fn call_view(c: FindCall) -> Option<(Seq<char>, bool, bool)> {
    match c {
        FindCall::Stop => None,
        FindCall::Find { query, forward, find_next } => Some((query@, forward, find_next)),
    }
}

/// A find run on the field's text, from the last query: the query kept
/// after it, and the call made (none when the field is blank).
pub open spec fn find_run(query: Seq<char>, text: Seq<char>, forward: bool, next: bool) -> (Seq<char>, Option<(Seq<char>, bool, bool)>) {
    if trim(text).len() == 0 {
        (Seq::empty(), None)
    } else {
        (trim(text), Some((trim(text), forward, next && trim(text) == query)))
    }
}

/// Enter in the find field steps through the run that the same text
/// started, in the direction asked; a changed text starts a new run.
pub proof fn law_enter_steps_through_the_same_run(
    query: Seq<char>,
    text: Seq<char>,
    other: Seq<char>,
    forward: bool,
    again: bool,
)
    requires
        trim(text).len() > 0,
    ensures
        find_run(find_run(query, text, forward, false).0, text, again, true).1 == Some(
            (trim(text), again, true),
        ),
        trim(other).len() > 0 && trim(other) != trim(text) ==> find_run(
            find_run(query, text, forward, false).0,
            other,
            again,
            true,
        ).1 == Some((trim(other), again, false)),
{
}

/// The key's action: Enter and Escape, and only from the address field or
/// the find field.
pub open spec fn key_action(key: PaneKey, url_focused: bool, find_focused: bool, shift: bool) -> Option<PaneKeyAction> {
    if key is Other || (!url_focused && !find_focused) {
        None
    } else if key is Enter {
        if find_focused {
            Some(PaneKeyAction::StepFind { forward: !shift })
        } else {
            Some(PaneKeyAction::SubmitUrl)
        }
    } else if find_focused {
        Some(PaneKeyAction::CloseFind)
    } else {
        Some(PaneKeyAction::RestoreUrl)
    }
}

/// What a key from the fields does.
pub fn on_key(key: PaneKey, url_focused: bool, find_focused: bool, shift: bool) -> (r: Option<PaneKeyAction>)
    ensures
        r == key_action(key, url_focused, find_focused, shift),
{
    match key {
        PaneKey::Other => None,
        _ => {
            if !url_focused && !find_focused {
                return None;
            }
            match (key, find_focused) {
                (PaneKey::Enter, true) => Some(PaneKeyAction::StepFind { forward: !shift }),
                (PaneKey::Enter, false) => Some(PaneKeyAction::SubmitUrl),
                (_, true) => Some(PaneKeyAction::CloseFind),
                (_, false) => Some(PaneKeyAction::RestoreUrl),
            }
        },
    }
}

/// The reload button: stop a load in flight, else reload.
pub fn reload_or_stop(loading: bool) -> (r: ReloadOrStop)
    ensures
        r == if loading {
            ReloadOrStop::Stop
        } else {
            ReloadOrStop::Reload
        },
{
    if loading {
        ReloadOrStop::Stop
    } else {
        ReloadOrStop::Reload
    }
}

/// The address Enter submits: the field's text, trimmed, if anything is left.
pub fn typed_address(text: &str) -> (r: Option<String>)
    ensures
        trim(text@).len() == 0 ==> r is None,
        trim(text@).len() > 0 ==> (r matches Some(s) && s@ == trim(text@)),
{
    let t = trim_chars(chars_of(text).as_slice());
    if t.len() == 0 {
        None
    } else {
        Some(string_of(t.as_slice()))
    }
}

impl BrowserPane {
    /// A fresh pane: following the page, find closed, zoom at 100% and the
    /// saved per-host zooms remembered.
    pub fn new(saved: &Vec<(String, u32)>) -> (r: BrowserPane)
        ensures
            !r.url_editing,
            r.last_written@.len() == 0,
            !r.find_open,
            !r.find_focus_pending,
            r.find_query@.len() == 0,
            r.refused is None,
            r.zoom.wf(),
            forall|h: Seq<char>| #[trigger] r.zoom.zoom_of(h) == crate::browser_pane::state::zoom_for(saved@, h),
            r.zoom_percent == ZOOM_DEFAULT,
            r.zoom_url@.len() == 0,
    {
        BrowserPane {
            url_editing: false,
            last_written: String::new(),
            find_open: false,
            find_focus_pending: false,
            find_query: String::new(),
            refused: None,
            zoom: ZoomMemory::from_settings(saved),
            zoom_percent: ZOOM_DEFAULT,
            zoom_url: String::new(),
        }
    }

    /// The pane writes `text` into the address field. Remembering it is what
    /// tells the pane's own write apart from a person typing.
    pub fn set_url_text(&mut self, text: String)
        ensures
            final(self).last_written == text,
            final(self).url_editing == old(self).url_editing,
            final(self).find_open == old(self).find_open,
            final(self).find_query == old(self).find_query,
            final(self).refused == old(self).refused,
            final(self).zoom_percent == old(self).zoom_percent,
            final(self).zoom_url == old(self).zoom_url,
            final(self).find_focus_pending == old(self).find_focus_pending,
            final(self).zoom == old(self).zoom,
    {
        self.last_written = text;
    }

    /// The address field changed. If it still holds what the pane wrote,
    /// nobody typed; anything else is a person editing the address.
    pub fn edited(&mut self, field_text: &str)
        ensures
            final(self).url_editing == (old(self).url_editing || field_text@ != old(self).last_written@),
            final(self).last_written == old(self).last_written,
            final(self).find_open == old(self).find_open,
            final(self).find_query == old(self).find_query,
            final(self).refused == old(self).refused,
            final(self).zoom_percent == old(self).zoom_percent,
            final(self).zoom_url == old(self).zoom_url,
            final(self).find_focus_pending == old(self).find_focus_pending,
            final(self).zoom == old(self).zoom,
    {
        let same = chars_eq(chars_of(field_text).as_slice(), chars_of(self.last_written.as_str()).as_slice());
        if !same {
            self.url_editing = true;
        }
    }

    /// Each frame: while nobody is typing, the field follows the page's
    /// address. Returns the text to write when the field is stale.
    pub fn sync_url(&mut self, field_text: &str, shown: &str) -> (r: Option<String>)
        ensures
            (!old(self).url_editing && field_text@ != shown@) ==> (r matches Some(s) && s@ == shown@
                && final(self).last_written@ == shown@),
            (old(self).url_editing || field_text@ == shown@) ==> (r is None && final(self).last_written
                == old(self).last_written),
            final(self).url_editing == old(self).url_editing,
            final(self).find_open == old(self).find_open,
            final(self).find_query == old(self).find_query,
            final(self).refused == old(self).refused,
            final(self).zoom_percent == old(self).zoom_percent,
            final(self).zoom_url == old(self).zoom_url,
            final(self).find_focus_pending == old(self).find_focus_pending,
            final(self).zoom == old(self).zoom,
    {
        if self.url_editing {
            return None;
        }
        if chars_eq(chars_of(field_text).as_slice(), chars_of(shown).as_slice()) {
            return None;
        }
        self.set_url_text(owned(shown));
        Some(owned(shown))
    }

    /// Enter in the address field, once the page has said what `typed`
    /// resolves to. An empty resolution is a refusal: the field keeps what
    /// was typed and `refusal` says why; otherwise the page goes there and
    /// the field follows the page again.
    pub fn submit_url(&mut self, field_text: &str, resolved: &str, refusal: String) -> (r: UrlSubmit)
        ensures
            trim(field_text@).len() == 0 ==> r == UrlSubmit::Nothing && *final(self) == *old(self),
            trim(field_text@).len() > 0 && resolved@.len() == 0 ==> {
                &&& r == UrlSubmit::Refused
                &&& final(self).refused == Some(refusal)
                &&& final(self).url_editing == old(self).url_editing
            },
            trim(field_text@).len() > 0 && resolved@.len() > 0 ==> {
                &&& r matches UrlSubmit::Navigate(t) && t@ == trim(field_text@)
                &&& final(self).refused is None
                &&& !final(self).url_editing
            },
            final(self).last_written == old(self).last_written,
            final(self).find_open == old(self).find_open,
            final(self).find_query == old(self).find_query,
            final(self).zoom_percent == old(self).zoom_percent,
            final(self).zoom_url == old(self).zoom_url,
            final(self).find_focus_pending == old(self).find_focus_pending,
            final(self).zoom == old(self).zoom,
    {
        let typed = match typed_address(field_text) {
            Some(t) => t,
            None => {
                return UrlSubmit::Nothing;
            },
        };
        if chars_of(resolved).len() == 0 {
            self.refused = Some(refusal);
            return UrlSubmit::Refused;
        }
        self.refused = None;
        self.url_editing = false;
        UrlSubmit::Navigate(typed)
    }

    /// Escape in the address field: the page's own address comes back.
    /// Returns the text to write into the field.
    pub fn restore_url(&mut self, shown: &str) -> (r: String)
        ensures
            r@ == shown@,
            final(self).last_written@ == shown@,
            !final(self).url_editing,
            final(self).refused is None,
            final(self).find_open == old(self).find_open,
            final(self).find_query == old(self).find_query,
            final(self).zoom_percent == old(self).zoom_percent,
            final(self).zoom_url == old(self).zoom_url,
            final(self).find_focus_pending == old(self).find_focus_pending,
            final(self).zoom == old(self).zoom,
    {
        self.url_editing = false;
        self.refused = None;
        self.set_url_text(owned(shown));
        owned(shown)
    }

    /// Back or forward: the field follows the page again.
    pub fn go_back(&mut self)
        ensures
            !final(self).url_editing,
            final(self).last_written == old(self).last_written,
            final(self).refused == old(self).refused,
            final(self).find_open == old(self).find_open,
            final(self).find_query == old(self).find_query,
            final(self).zoom_percent == old(self).zoom_percent,
            final(self).zoom_url == old(self).zoom_url,
            final(self).find_focus_pending == old(self).find_focus_pending,
            final(self).zoom == old(self).zoom,
    {
        self.url_editing = false;
    }

    /// Forward: as back.
    pub fn go_forward(&mut self)
        ensures
            !final(self).url_editing,
            final(self).last_written == old(self).last_written,
            final(self).refused == old(self).refused,
            final(self).find_open == old(self).find_open,
            final(self).find_query == old(self).find_query,
            final(self).zoom_percent == old(self).zoom_percent,
            final(self).zoom_url == old(self).zoom_url,
            final(self).find_focus_pending == old(self).find_focus_pending,
            final(self).zoom == old(self).zoom,
    {
        self.url_editing = false;
    }

    /// A new tab opens empty and the keyboard goes to the address field:
    /// the field is cleared and counts as being typed into.
    pub fn open_tab(&mut self)
        ensures
            final(self).url_editing,
            final(self).last_written@.len() == 0,
            final(self).refused == old(self).refused,
            final(self).find_open == old(self).find_open,
            final(self).find_query == old(self).find_query,
            final(self).zoom_percent == old(self).zoom_percent,
            final(self).zoom_url == old(self).zoom_url,
            final(self).find_focus_pending == old(self).find_focus_pending,
            final(self).zoom == old(self).zoom,
    {
        self.url_editing = true;
        self.set_url_text(String::new());
    }

    /// A tab closed. The next tab may be another host, so the zoom is
    /// picked up afresh rather than kept from the one that closed.
    pub fn close(&mut self)
        ensures
            !final(self).url_editing,
            final(self).zoom_url@.len() == 0,
            final(self).last_written == old(self).last_written,
            final(self).refused == old(self).refused,
            final(self).find_open == old(self).find_open,
            final(self).find_query == old(self).find_query,
            final(self).zoom_percent == old(self).zoom_percent,
            final(self).find_focus_pending == old(self).find_focus_pending,
            final(self).zoom == old(self).zoom,
    {
        self.url_editing = false;
        self.zoom_url = String::new();
    }

    /// Another tab was brought forward: as after a close.
    pub fn activate(&mut self)
        ensures
            !final(self).url_editing,
            final(self).zoom_url@.len() == 0,
            final(self).last_written == old(self).last_written,
            final(self).refused == old(self).refused,
            final(self).find_open == old(self).find_open,
            final(self).find_query == old(self).find_query,
            final(self).zoom_percent == old(self).zoom_percent,
            final(self).find_focus_pending == old(self).find_focus_pending,
            final(self).zoom == old(self).zoom,
    {
        self.url_editing = false;
        self.zoom_url = String::new();
    }

    /// ctrl-f: the find field shows and takes the keyboard on the next frame.
    pub fn open_find(&mut self)
        ensures
            final(self).find_open,
            final(self).find_focus_pending,
            final(self).find_query == old(self).find_query,
            final(self).url_editing == old(self).url_editing,
            final(self).zoom_percent == old(self).zoom_percent,
            final(self).last_written == old(self).last_written,
            final(self).refused == old(self).refused,
            final(self).zoom == old(self).zoom,
            final(self).zoom_url == old(self).zoom_url,
    {
        self.find_open = true;
        self.find_focus_pending = true;
    }

    /// The find field closes and its run ends; the page stops finding.
    pub fn close_find(&mut self)
        ensures
            !final(self).find_open,
            final(self).find_query@.len() == 0,
            final(self).find_focus_pending == old(self).find_focus_pending,
            final(self).url_editing == old(self).url_editing,
            final(self).zoom_percent == old(self).zoom_percent,
            final(self).last_written == old(self).last_written,
            final(self).refused == old(self).refused,
            final(self).zoom == old(self).zoom,
            final(self).zoom_url == old(self).zoom_url,
    {
        self.find_open = false;
        self.find_query = String::new();
    }

    /// Whether the find field is to take the keyboard this frame; asking
    /// answers it.
    pub fn take_find_focus(&mut self) -> (r: bool)
        ensures
            r == old(self).find_focus_pending,
            !final(self).find_focus_pending,
            final(self).find_open == old(self).find_open,
            final(self).find_query == old(self).find_query,
            final(self).url_editing == old(self).url_editing,
            final(self).last_written == old(self).last_written,
            final(self).refused == old(self).refused,
            final(self).zoom == old(self).zoom,
            final(self).zoom_percent == old(self).zoom_percent,
            final(self).zoom_url == old(self).zoom_url,
    {
        let r = self.find_focus_pending;
        self.find_focus_pending = false;
        r
    }

    /// Search, or step to the next or previous match of the same run. A
    /// changed query starts a new run; the same query steps through it.
    pub fn run_find(&mut self, field_text: &str, forward: bool, next: bool) -> (r: FindCall)
        ensures
            final(self).find_query@ == find_run(old(self).find_query@, field_text@, forward, next).0,
            call_view(r) == find_run(old(self).find_query@, field_text@, forward, next).1,
            final(self).find_open == old(self).find_open,
            final(self).url_editing == old(self).url_editing,
            final(self).zoom_percent == old(self).zoom_percent,
            final(self).zoom_url == old(self).zoom_url,
            final(self).last_written == old(self).last_written,
            final(self).find_focus_pending == old(self).find_focus_pending,
            final(self).refused == old(self).refused,
            final(self).zoom == old(self).zoom,
    {
        let q = trim_chars(chars_of(field_text).as_slice());
        if q.len() == 0 {
            self.find_query = String::new();
            assert(self.find_query@ =~= Seq::<char>::empty());
            return FindCall::Stop;
        }
        let same = chars_eq(q.as_slice(), chars_of(self.find_query.as_str()).as_slice());
        self.find_query = string_of(q.as_slice());
        FindCall::Find { query: string_of(q.as_slice()), forward, find_next: next && same }
    }

    /// The two arrows, and Enter or shift-Enter in the field.
    pub fn step_find(&mut self, field_text: &str, forward: bool) -> (r: FindCall)
        ensures
            final(self).find_query@ == find_run(old(self).find_query@, field_text@, forward, true).0,
            call_view(r) == find_run(old(self).find_query@, field_text@, forward, true).1,
            final(self).find_open == old(self).find_open,
            final(self).url_editing == old(self).url_editing,
            final(self).zoom_percent == old(self).zoom_percent,
            final(self).last_written == old(self).last_written,
            final(self).find_focus_pending == old(self).find_focus_pending,
            final(self).refused == old(self).refused,
            final(self).zoom == old(self).zoom,
            final(self).zoom_url == old(self).zoom_url,
    {
        self.run_find(field_text, forward, true)
    }

    /// A zoom the person asked for on the page at `url`: it applies, and is
    /// remembered against the host. Returns true when the memory changed and
    /// the settings file needs a write.
    pub fn step_zoom(&mut self, percent: u32, url: &str) -> (r: bool)
        ensures
            final(self).zoom_percent == percent,
            final(self).zoom_url@ == url@,
            final(self).zoom.wf(),
            zoom_host_spec(url@) is Some ==> final(self).zoom.zoom_at(url@) == percent,
            zoom_host_spec(url@) is None ==> !r && forall|h: Seq<char>| #[trigger]
                final(self).zoom.zoom_of(h) == old(self).zoom.zoom_of(h),
            zoom_host_spec(url@) matches Some(host) ==> {
                &&& forall|h: Seq<char>| h != host ==> #[trigger] final(self).zoom.zoom_of(h)
                    == old(self).zoom.zoom_of(h)
                &&& r == if percent == ZOOM_DEFAULT {
                    old(self).zoom.zoom_of(host) is Some
                } else {
                    old(self).zoom.zoom_of(host) != Some(percent)
                }
            },
            final(self).url_editing == old(self).url_editing,
            final(self).find_open == old(self).find_open,
            final(self).find_query == old(self).find_query,
            final(self).last_written == old(self).last_written,
            final(self).find_focus_pending == old(self).find_focus_pending,
            final(self).refused == old(self).refused,
    {
        self.zoom_percent = percent;
        let changed = self.zoom.set(url, percent);
        self.zoom_url = owned(url);
        changed
    }

    /// The page moved to another address: that host's remembered zoom is
    /// picked up. Called every frame, so nothing happens unless the address
    /// actually changed. Returns the zoom to apply when it differs.
    pub fn follow_page_zoom(&mut self, url: &str) -> (r: Option<u32>)
        ensures
            (url@.len() == 0 || url@ == old(self).zoom_url@) ==> (r is None && final(self).zoom_url
                == old(self).zoom_url && final(self).zoom_percent == old(self).zoom_percent),
            (url@.len() > 0 && url@ != old(self).zoom_url@) ==> {
                &&& final(self).zoom_url@ == url@
                &&& final(self).zoom_percent == old(self).zoom.zoom_at(url@)
                &&& r == if old(self).zoom.zoom_at(url@) != old(self).zoom_percent {
                    Some(old(self).zoom.zoom_at(url@))
                } else {
                    None
                }
            },
            final(self).zoom == old(self).zoom,
            final(self).url_editing == old(self).url_editing,
            final(self).find_open == old(self).find_open,
            final(self).find_query == old(self).find_query,
            final(self).last_written == old(self).last_written,
            final(self).find_focus_pending == old(self).find_focus_pending,
            final(self).refused == old(self).refused,
    {
        let uv = chars_of(url);
        if uv.len() == 0 || chars_eq(uv.as_slice(), chars_of(self.zoom_url.as_str()).as_slice()) {
            return None;
        }
        self.zoom_url = owned(url);
        let percent = self.zoom.get(url);
        if percent != self.zoom_percent {
            self.zoom_percent = percent;
            Some(percent)
        } else {
            None
        }
    }
}

} // verus!
