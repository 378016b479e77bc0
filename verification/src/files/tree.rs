//! The file tree's view state without a window: search matches in place of
//! the tree while filtering, what activating a row does, which folders a
//! reveal opens, and what the arrow keys, Enter and Escape do.
use vstd::prelude::*;
use crate::files::model::{
    has_name, lookup, row_position, row_position_exec, rows_spec, FileKind, Row, RowView, TreeModel,
};
use crate::proto::FileSearchMatch;
use crate::text::{append, chars_eq, chars_of, owned, slice_of, split_any, split_any_exec, string_of, strs_view};

verus! {

/// A search hit drawn as a row: at the top level, named by its path.
pub open spec fn match_row(m: FileSearchMatch) -> RowView {
    RowView {
        path: m.path@,
        kind: if m.is_dir {
            FileKind::Dir
        } else {
            FileKind::File
        },
        status: seq![],
        depth: 0,
        label: m.path@,
        expanded: false,
        has_children: m.is_dir,
    }
}

pub open spec fn match_rows(ms: Seq<FileSearchMatch>) -> Seq<RowView> {
    ms.map_values(|m: FileSearchMatch| match_row(m))
}

pub open spec fn row_views(rs: Seq<Row>) -> Seq<RowView> {
    rs.map_values(|r: Row| r@)
}

/// The first hit at path `p`.
pub open spec fn match_position(ms: Seq<FileSearchMatch>, p: Seq<char>) -> Option<int>
    decreases ms.len(),
{
    if ms.len() == 0 {
        None
    } else {
        match match_position(ms.drop_last(), p) {
            Some(i) => Some(i),
            None => if ms.last().path@ == p {
                Some(ms.len() - 1)
            } else {
                None
            },
        }
    }
}

/// The tree and, while the filter box holds a query, its search matches.
pub struct FileTreeState {
    pub model: TreeModel,
    pub matches: Option<Vec<FileSearchMatch>>,
}

/// The model, its selection aside, is as it was.
pub open spec fn same_tree(a: TreeModel, b: TreeModel) -> bool {
    &&& a.entries() == b.entries()
    &&& a.loaded() == b.loaded()
    &&& a.expanded() == b.expanded()
    &&& a.counts() == b.counts()
}

/// A path names a folder: the tree's entry says so, else the search hit.
pub open spec fn is_dir_spec(model: TreeModel, matches: Option<Vec<FileSearchMatch>>, path: Seq<char>) -> bool {
    match lookup(model.entries(), path) {
        Some(e) => e.kind == FileKind::Dir,
        None => match matches {
            Some(ms) => match match_position(ms@, path) {
                Some(i) => ms@[i].is_dir,
                None => false,
            },
            None => false,
        },
    }
}

/// The next step of a reveal's walk down `path`'s parts.
pub open spec fn next_acc(acc: Seq<char>, part: Seq<char>) -> Seq<char> {
    if acc.len() == 0 {
        part
    } else {
        acc + "/"@ + part
    }
}

/// The paths a reveal walks: each part joined onto the ones before it.
pub open spec fn accs_of(parts: Seq<Seq<char>>) -> Seq<Seq<char>>
    decreases parts.len(),
{
    if parts.len() == 0 {
        seq![]
    } else {
        let prev = accs_of(parts.drop_last());
        let acc = if prev.len() == 0 {
            Seq::<char>::empty()
        } else {
            prev.last()
        };
        prev.push(next_acc(acc, parts.last()))
    }
}

/// A reveal has opened `x`: it was open, or the walk passed it on the way
/// to `path`.
pub open spec fn opened_by(accs: Seq<Seq<char>>, path: Seq<char>, e0: Seq<String>, x: Seq<char>) -> bool {
    has_name(e0, x) || (accs.contains(x) && x != path)
}

/// The folders a reveal has to list: each one on the way that was neither
/// open nor listed before the walk reached it.
pub open spec fn reveal_loads(accs: Seq<Seq<char>>, path: Seq<char>, e0: Seq<String>, loaded: Seq<String>) -> Seq<Seq<char>>
    decreases accs.len(),
{
    if accs.len() == 0 {
        seq![]
    } else {
        let before = reveal_loads(accs.drop_last(), path, e0, loaded);
        let a = accs.last();
        if a != path && !opened_by(accs.drop_last(), path, e0, a) && !has_name(loaded, a) {
            before.push(a)
        } else {
            before
        }
    }
}

/// What activating a row asks of the pane: a file to open, whether the
/// filter box is to be cleared, and the folders to list.
#[derive(Debug, Clone, PartialEq, Eq)]
pub struct Activation {
    pub open: Option<String>,
    pub clear_filter: bool,
    pub loads: Vec<String>,
}

fn match_position_exec(ms: &Vec<FileSearchMatch>, p: &[char]) -> (r: Option<usize>)
    ensures
        r matches Some(i) ==> match_position(ms@, p@) == Some(i as int) && i < ms@.len(),
        r is None ==> match_position(ms@, p@) is None,
{
    let mut i: usize = 0;
    while i < ms.len()
        invariant
            i <= ms@.len(),
            match_position(ms@.take(i as int), p@) is None,
        decreases ms@.len() - i,
    {
        assert(ms@.take(i + 1).drop_last() == ms@.take(i as int));
        assert(ms@.take(i + 1).last() == ms@[i as int]);
        if chars_eq(chars_of(ms[i].path.as_str()).as_slice(), p) {
            proof {
                lemma_match_position_prefix(ms@, i + 1, p@);
            }
            return Some(i);
        }
        i += 1;
    }
    assert(ms@.take(ms@.len() as int) == ms@);
    None
}

proof fn lemma_match_position_prefix(ms: Seq<FileSearchMatch>, k: int, p: Seq<char>)
    requires
        0 <= k <= ms.len(),
        match_position(ms.take(k), p) is Some,
    ensures
        match_position(ms, p) == match_position(ms.take(k), p),
    decreases ms.len() - k,
{
    if k < ms.len() {
        assert(ms.drop_last().take(k) == ms.take(k));
        lemma_match_position_prefix(ms.drop_last(), k, p);
    } else {
        assert(ms.take(k) == ms);
    }
}

impl FileTreeState {
    /// The rows on screen: search matches while filtering, else the tree.
    pub open spec fn rows_spec(&self) -> Seq<RowView> {
        match self.matches {
            Some(ms) => match_rows(ms@),
            None => rows_spec(self.model.entries(), self.model.loaded(), self.model.expanded()),
        }
    }

    /// An empty tree, not filtering.
    pub fn new() -> (r: FileTreeState)
        ensures
            r.model.entries().len() == 0,
            r.model.loaded().len() == 0,
            r.model.expanded().len() == 0,
            r.model.selection() is None,
            r.matches is None,
    {
        FileTreeState { model: TreeModel::new(), matches: None }
    }

    /// The rows on screen.
    pub fn rows(&self) -> (r: Vec<Row>)
        ensures
            row_views(r@) == self.rows_spec(),
    {
        match &self.matches {
            Some(ms) => {
                let mut out: Vec<Row> = Vec::new();
                let mut i: usize = 0;
                while i < ms.len()
                    invariant
                        i <= ms@.len(),
                        row_views(out@) == match_rows(ms@.take(i as int)),
                    decreases ms@.len() - i,
                {
                    let m = &ms[i];
                    let row = Row {
                        path: owned(m.path.as_str()),
                        kind: if m.is_dir {
                            FileKind::Dir
                        } else {
                            FileKind::File
                        },
                        status: String::new(),
                        depth: 0,
                        label: owned(m.path.as_str()),
                        expanded: false,
                        has_children: m.is_dir,
                    };
                    let ghost before = out@;
                    out.push(row);
                    proof {
                        assert(ms@.take(i + 1) == ms@.take(i as int).push(*m));
                        assert(row_views(out@) =~= row_views(before).push(row@));
                        assert(row@ == match_row(*m));
                        assert(match_rows(ms@.take(i + 1)) =~= match_rows(ms@.take(i as int)).push(match_row(*m)));
                    }
                    i += 1;
                }
                assert(ms@.take(ms@.len() as int) == ms@);
                out
            },
            None => {
                let r = self.model.rows();
                assert(row_views(r@) =~= r@.map_values(|x: Row| x@));
                r
            },
        }
    }

    /// The filter box was emptied: back to the tree.
    pub fn clear_filter(&mut self)
        ensures
            final(self).matches is None,
            final(self).model == old(self).model,
    {
        self.matches = None;
    }

    /// The filter box changed. A blank box (spaces only) goes back to the
    /// tree; anything else is the query to search for, trimmed.
    pub fn filter_changed(&mut self, text: &str) -> (r: Option<String>)
        ensures
            crate::text::trim(text@).len() == 0 ==> r is None && final(self).matches is None,
            crate::text::trim(text@).len() > 0 ==> (r matches Some(q) && q@ == crate::text::trim(text@))
                && final(self).matches == old(self).matches,
            final(self).model == old(self).model,
    {
        let q = crate::text::trim_chars(chars_of(text).as_slice());
        if q.len() == 0 {
            self.matches = None;
            return None;
        }
        Some(string_of(q.as_slice()))
    }

    /// A search answered. An answer that arrives after the box was cleared
    /// must not bring the list back; otherwise the hits replace the tree
    /// and the first one is selected.
    pub fn search_answered(&mut self, still_filtering: bool, found: Vec<FileSearchMatch>)
        ensures
            !still_filtering ==> *final(self) == *old(self),
            still_filtering ==> final(self).matches == Some(found) && same_tree(
                final(self).model,
                old(self).model,
            ) && if found@.len() == 0 {
                final(self).model.selection() is None
            } else {
                final(self).model.selection() matches Some(s) && s@ == found@[0].path@
            },
    {
        if !still_filtering {
            return;
        }
        let first = if found.len() > 0 {
            Some(owned(found[0].path.as_str()))
        } else {
            None
        };
        self.model.select(first);
        self.matches = Some(found);
    }

    /// Whether `path` is a folder.
    pub fn is_dir(&self, path: &str) -> (r: bool)
        ensures
            r == is_dir_spec(self.model, self.matches, path@),
    {
        match self.model.entry(path) {
            Some(e) => e.kind == FileKind::Dir,
            None => match &self.matches {
                Some(ms) => match match_position_exec(ms, chars_of(path).as_slice()) {
                    Some(i) => ms[i].is_dir,
                    None => false,
                },
                None => false,
            },
        }
    }

    /// Open every folder on the way to `path` so its row shows. Returns the
    /// folders that have to be listed first.
    pub fn reveal_path(&mut self, path: &str) -> (r: Vec<String>)
        ensures
            strs_view(r@) == reveal_loads(
                accs_of(split_any(path@, '/', '/')),
                path@,
                old(self).model.expanded(),
                old(self).model.loaded(),
            ),
            forall|x: Seq<char>|
                #[trigger] has_name(final(self).model.expanded(), x) == opened_by(
                    accs_of(split_any(path@, '/', '/')),
                    path@,
                    old(self).model.expanded(),
                    x,
                ),
            final(self).model.entries() == old(self).model.entries(),
            final(self).model.loaded() == old(self).model.loaded(),
            final(self).model.selection() == old(self).model.selection(),
            final(self).model.counts() == old(self).model.counts(),
            final(self).matches == old(self).matches,
    {
        let p = chars_of(path);
        let parts = split_any_exec(p.as_slice(), '/', '/');
        let ghost pv = crate::text::chars_view(parts@);
        assert(pv =~= split_any(path@, '/', '/'));
        let ghost e0 = self.model.expanded();
        let ghost l0 = self.model.loaded();
        let mut loads: Vec<String> = Vec::new();
        let mut acc: Vec<char> = Vec::new();
        let mut i: usize = 0;
        assert(pv.take(0) == Seq::<Seq<char>>::empty());
        while i < parts.len()
            invariant
                i <= parts@.len(),
                pv == crate::text::chars_view(parts@),
                p@ == path@,
                acc@ == if i == 0 {
                    Seq::<char>::empty()
                } else {
                    accs_of(pv.take(i as int)).last()
                },
                accs_of(pv.take(i as int)).len() == i,
                strs_view(loads@) == reveal_loads(accs_of(pv.take(i as int)), path@, e0, l0),
                forall|x: Seq<char>|
                    #[trigger] has_name(self.model.expanded(), x) == opened_by(
                        accs_of(pv.take(i as int)),
                        path@,
                        e0,
                        x,
                    ),
                self.model.entries() == old(self).model.entries(),
                self.model.loaded() == l0,
                self.model.selection() == old(self).model.selection(),
                self.model.counts() == old(self).model.counts(),
                self.matches == old(self).matches,
            decreases parts@.len() - i,
        {
            let ghost accs_before = accs_of(pv.take(i as int));
            assert(pv.take(i + 1).drop_last() == pv.take(i as int));
            assert(pv.take(i + 1).last() == parts@[i as int]@);
            if acc.len() > 0 {
                append(&mut acc, chars_of("/").as_slice());
            }
            append(&mut acc, parts[i].as_slice());
            let ghost a = acc@;
            assert(a == next_acc(if i == 0 {
                Seq::<char>::empty()
            } else {
                accs_before.last()
            }, pv[i as int]));
            assert(accs_of(pv.take(i + 1)) == accs_before.push(a));
            let name = string_of(acc.as_slice());
            let ghost rl = reveal_loads(accs_before, path@, e0, l0);
            assert(accs_before.push(a).drop_last() == accs_before);
            assert(accs_before.push(a).last() == a);
            if !chars_eq(acc.as_slice(), p.as_slice()) {
                let ghost was_open = has_name(self.model.expanded(), a);
                assert(was_open == opened_by(accs_before, path@, e0, a));
                assert(reveal_loads(accs_before.push(a), path@, e0, l0) == if !was_open && !has_name(l0, a) {
                    rl.push(a)
                } else {
                    rl
                });
                let fresh = self.model.expand(name.as_str());
                if fresh {
                    let ghost before = loads@;
                    loads.push(name);
                    assert(strs_view(loads@) =~= strs_view(before).push(a));
                }
                proof {
                    assert forall|x: Seq<char>| #[trigger] has_name(self.model.expanded(), x) == opened_by(
                        accs_before.push(a),
                        path@,
                        e0,
                        x,
                    ) by {
                        if x == a {
                            assert(accs_before.push(a).contains(a)) by {
                                assert(accs_before.push(a)[i as int] == a);
                            }
                        } else {
                            assert(accs_before.push(a).contains(x) == accs_before.contains(x)) by {
                                if accs_before.push(a).contains(x) {
                                    let k = choose|k: int| 0 <= k < accs_before.push(a).len() && accs_before.push(a)[k] == x;
                                    assert(k < accs_before.len());
                                    assert(accs_before[k] == x);
                                }
                                if accs_before.contains(x) {
                                    let k = choose|k: int| 0 <= k < accs_before.len() && accs_before[k] == x;
                                    assert(accs_before.push(a)[k] == x);
                                }
                            }
                        }
                    }
                }
            } else {
                assert(reveal_loads(accs_before.push(a), path@, e0, l0) == rl);
                proof {
                    assert forall|x: Seq<char>| #[trigger] has_name(self.model.expanded(), x) == opened_by(
                        accs_before.push(a),
                        path@,
                        e0,
                        x,
                    ) by {
                        if x != a {
                            assert(accs_before.push(a).contains(x) == accs_before.contains(x)) by {
                                if accs_before.push(a).contains(x) {
                                    let k = choose|k: int| 0 <= k < accs_before.push(a).len() && accs_before.push(a)[k] == x;
                                    assert(k < accs_before.len());
                                    assert(accs_before[k] == x);
                                }
                                if accs_before.contains(x) {
                                    let k = choose|k: int| 0 <= k < accs_before.len() && accs_before[k] == x;
                                    assert(accs_before.push(a)[k] == x);
                                }
                            }
                        }
                    }
                }
            }
            i += 1;
        }
        assert(pv.take(pv.len() as int) == pv);
        loads
    }
}

/// The first row at path `p`, by views.
pub open spec fn pos_v(rs: Seq<RowView>, p: Seq<char>) -> Option<int>
    decreases rs.len(),
{
    if rs.len() == 0 {
        None
    } else {
        match pos_v(rs.drop_last(), p) {
            Some(i) => Some(i),
            None => if rs.last().path == p {
                Some(rs.len() - 1)
            } else {
                None
            },
        }
    }
}

/// Where the selection lands moving `delta` rows: from the selected row,
/// clamped to the list, or from the top (down) or bottom (up) when nothing
/// on screen is selected.
pub open spec fn next_v(rs: Seq<RowView>, selected: Option<Seq<char>>, delta: int) -> int {
    match (match selected {
        Some(s) => pos_v(rs, s),
        None => None,
    }) {
        None => if delta >= 0 {
            0
        } else {
            rs.len() - 1
        },
        Some(i) => crate::files::model::clamp(i + delta, 0, rs.len() - 1),
    }
}

proof fn lemma_pos_views(rows: Seq<Row>, p: Seq<char>)
    ensures
        row_position(rows, p) == pos_v(row_views(rows), p),
    decreases rows.len(),
{
    if rows.len() > 0 {
        lemma_pos_views(rows.drop_last(), p);
        assert(row_views(rows).drop_last() =~= row_views(rows.drop_last()));
        assert(row_views(rows).last() == rows.last()@);
    }
}

proof fn lemma_pos_found(rs: Seq<RowView>, k: int)
    requires
        0 <= k < rs.len(),
    ensures
        pos_v(rs, rs[k].path) is Some,
    decreases rs.len(),
{
    if k < rs.len() - 1 {
        lemma_pos_found(rs.drop_last(), k);
        assert(rs.drop_last()[k] == rs[k]);
    }
}

/// The selected path, by its view.
pub open spec fn sel_view(m: TreeModel) -> Option<Seq<char>> {
    match m.selection() {
        Some(s) => Some(s@),
        None => None,
    }
}

/// A key the tree handles.
#[derive(Debug, Clone, Copy, PartialEq, Eq, Structural)]
pub enum TreeKey {
    Up,
    Down,
    Enter,
    Escape,
    Right,
    Left,
    Other,
}

/// What a key did.
#[derive(Debug, Clone, PartialEq, Eq)]
pub enum KeyOutcome {
    /// Nothing for this key here.
    Ignored,
    /// The selection moved; this row is to be scrolled into view.
    Moved(Option<usize>),
    /// Enter activated the selected row.
    Activated(Activation),
    /// Escape: the filter is cleared and the tree takes the focus back.
    FilterCleared,
    /// Right or Left opened, closed or stepped; these folders are to be
    /// listed.
    Stepped(Vec<String>),
}

impl FileTreeState {
    /// Activate a row: a file opens; a folder found by a search ends the
    /// search and is revealed in the tree; a folder in the tree opens or
    /// closes. The row becomes the selection either way.
    pub fn activate(&mut self, path: &str) -> (r: Activation)
        ensures
            final(self).model.selection() matches Some(s) && s@ == path@,
            final(self).model.entries() == old(self).model.entries(),
            final(self).model.loaded() == old(self).model.loaded(),
            final(self).model.counts() == old(self).model.counts(),
            !is_dir_spec(old(self).model, old(self).matches, path@) ==> {
                &&& r.open matches Some(o) && o@ == path@
                &&& !r.clear_filter
                &&& r.loads@.len() == 0
                &&& final(self).model.expanded() == old(self).model.expanded()
                &&& final(self).matches == old(self).matches
            },
            is_dir_spec(old(self).model, old(self).matches, path@) && old(self).matches is Some ==> {
                &&& r.open is None
                &&& r.clear_filter
                &&& final(self).matches is None
                &&& strs_view(r.loads@) == reveal_loads(
                    accs_of(split_any(path@, '/', '/')),
                    path@,
                    old(self).model.expanded(),
                    old(self).model.loaded(),
                )
                &&& forall|x: Seq<char>|
                    #[trigger] has_name(final(self).model.expanded(), x) == opened_by(
                        accs_of(split_any(path@, '/', '/')),
                        path@,
                        old(self).model.expanded(),
                        x,
                    )
            },
            is_dir_spec(old(self).model, old(self).matches, path@) && old(self).matches is None ==> {
                &&& r.open is None
                &&& !r.clear_filter
                &&& final(self).matches is None
                &&& strs_view(r.loads@) == if !has_name(old(self).model.expanded(), path@) && !has_name(
                    old(self).model.loaded(),
                    path@,
                ) {
                    seq![path@]
                } else {
                    Seq::<Seq<char>>::empty()
                }
                &&& forall|x: Seq<char>|
                    #[trigger] has_name(final(self).model.expanded(), x) == if x == path@ {
                        !has_name(old(self).model.expanded(), path@)
                    } else {
                        has_name(old(self).model.expanded(), x)
                    }
            },
    {
        let dir = self.is_dir(path);
        self.model.select(Some(owned(path)));
        if !dir {
            return Activation { open: Some(owned(path)), clear_filter: false, loads: Vec::new() };
        }
        if self.matches.is_some() {
            self.matches = None;
            let loads = self.reveal_path(path);
            return Activation { open: None, clear_filter: true, loads };
        }
        let mut loads: Vec<String> = Vec::new();
        if self.model.toggle(path) {
            loads.push(owned(path));
            assert(strs_view(loads@) =~= seq![path@]);
        } else {
            assert(strs_view(loads@) =~= Seq::<Seq<char>>::empty());
        }
        Activation { open: None, clear_filter: false, loads }
    }

    /// What a key does to the tree, with the filter box focused or not.
    pub fn key(&mut self, key: TreeKey, filter_focused: bool) -> (r: KeyOutcome)
        ensures
            ({
                let rs = old(self).rows_spec();
                let sel = sel_view(old(self).model);
                match key {
                    TreeKey::Up | TreeKey::Down => {
                        let delta: int = if key is Up {
                            -1
                        } else {
                            1
                        };
                        &&& same_tree(final(self).model, old(self).model)
                        &&& final(self).matches == old(self).matches
                        &&& if rs.len() == 0 {
                            final(self).model.selection() is None && r == KeyOutcome::Moved(None)
                        } else {
                            &&& sel_view(final(self).model) == Some(rs[next_v(rs, sel, delta)].path)
                            &&& r matches KeyOutcome::Moved(Some(ix)) && pos_v(rs, rs[next_v(rs, sel, delta)].path)
                                == Some(ix as int)
                        }
                    },
                    TreeKey::Escape => {
                        &&& r == KeyOutcome::FilterCleared
                        &&& final(self).matches is None
                        &&& final(self).model == old(self).model
                    },
                    TreeKey::Enter => if filter_focused || sel is None {
                        r == KeyOutcome::Ignored && *final(self) == *old(self)
                    } else {
                        r is Activated && sel_view(final(self).model) == sel
                    },
                    TreeKey::Right => if filter_focused || sel is None || (match pos_v(rs, sel->0) {
                        Some(i) => rs[i].kind != FileKind::Dir,
                        None => true,
                    }) {
                        r == KeyOutcome::Ignored && *final(self) == *old(self)
                    } else if rs[pos_v(rs, sel->0)->0].expanded {
                        &&& r matches KeyOutcome::Stepped(l) && l@.len() == 0
                        &&& same_tree(final(self).model, old(self).model)
                        &&& sel_view(final(self).model) == Some(rs[next_v(rs, sel, 1)].path)
                        &&& final(self).matches == old(self).matches
                    } else {
                        &&& r matches KeyOutcome::Stepped(l) && strs_view(l@) == if !has_name(
                            old(self).model.expanded(),
                            sel->0,
                        ) && !has_name(old(self).model.loaded(), sel->0) {
                            seq![sel->0]
                        } else {
                            Seq::<Seq<char>>::empty()
                        }
                        &&& forall|x: Seq<char>|
                            #[trigger] has_name(final(self).model.expanded(), x) == (has_name(
                                old(self).model.expanded(),
                                x,
                            ) || x == sel->0)
                        &&& final(self).model.entries() == old(self).model.entries()
                        &&& final(self).model.loaded() == old(self).model.loaded()
                        &&& final(self).model.selection() == old(self).model.selection()
                        &&& final(self).matches == old(self).matches
                    },
                    TreeKey::Left => if filter_focused || sel is None {
                        r == KeyOutcome::Ignored && *final(self) == *old(self)
                    } else if has_name(old(self).model.expanded(), sel->0) {
                        &&& r matches KeyOutcome::Stepped(l) && l@.len() == 0
                        &&& forall|x: Seq<char>|
                            #[trigger] has_name(final(self).model.expanded(), x) == (has_name(
                                old(self).model.expanded(),
                                x,
                            ) && x != sel->0)
                        &&& final(self).model.entries() == old(self).model.entries()
                        &&& final(self).model.loaded() == old(self).model.loaded()
                        &&& final(self).model.selection() == old(self).model.selection()
                        &&& final(self).matches == old(self).matches
                    } else {
                        &&& r matches KeyOutcome::Stepped(l) && l@.len() == 0
                        &&& same_tree(final(self).model, old(self).model)
                        &&& final(self).matches == old(self).matches
                        &&& sel_view(final(self).model) == match crate::text::last_index_of(sel->0, '/') {
                            Some(i) => Some(sel->0.take(i)),
                            None => sel,
                        }
                    },
                    TreeKey::Other => r == KeyOutcome::Ignored && *final(self) == *old(self),
                }
            }),
    {
        match key {
            TreeKey::Up | TreeKey::Down => {
                let rows = self.rows();
                let delta: isize = match key {
                    TreeKey::Up => -1,
                    _ => 1,
                };
                let ghost sel0 = self.model.selection();
                let moved = self.model.move_selection(rows.as_slice(), delta);
                proof {
                    match sel0 {
                        Some(s) => lemma_pos_views(rows@, s@),
                        None => {},
                    }
                }
                match moved {
                    Some(sel) => {
                        let ix = row_position_exec(rows.as_slice(), chars_of(sel.as_str()).as_slice());
                        proof {
                            lemma_pos_views(rows@, sel@);
                            crate::files::model::law_selection_stays_on_a_row(
                                rows@,
                                match sel0 {
                                    Some(s) => Some(s@),
                                    None => None,
                                },
                                delta as int,
                            );
                            let k = crate::files::model::next_row(
                                rows@,
                                match sel0 {
                                    Some(s) => Some(s@),
                                    None => None,
                                },
                                delta as int,
                            );
                            assert(row_views(rows@)[k] == rows@[k]@);
                            lemma_pos_found(row_views(rows@), k);
                        }
                        KeyOutcome::Moved(ix)
                    },
                    None => KeyOutcome::Moved(None),
                }
            },
            TreeKey::Escape => {
                self.clear_filter();
                KeyOutcome::FilterCleared
            },
            TreeKey::Enter => {
                if filter_focused {
                    return KeyOutcome::Ignored;
                }
                match self.model.selected_path() {
                    Some(p) => {
                        let path = owned(p);
                        KeyOutcome::Activated(self.activate(path.as_str()))
                    },
                    None => KeyOutcome::Ignored,
                }
            },
            TreeKey::Right => {
                if filter_focused {
                    return KeyOutcome::Ignored;
                }
                let sel = match self.model.selected_path() {
                    Some(p) => owned(p),
                    None => {
                        return KeyOutcome::Ignored;
                    },
                };
                let rows = self.rows();
                proof {
                    lemma_pos_views(rows@, sel@);
                }
                let at = match row_position_exec(rows.as_slice(), chars_of(sel.as_str()).as_slice()) {
                    Some(i) => i,
                    None => {
                        return KeyOutcome::Ignored;
                    },
                };
                proof {
                    crate::files::model::lemma_row_position(rows@, sel@);
                    assert(row_views(rows@)[at as int] == rows@[at as int]@);
                }
                if rows[at].kind != FileKind::Dir {
                    return KeyOutcome::Ignored;
                }
                if rows[at].expanded {
                    let ghost sel0 = self.model.selection();
                    self.model.move_selection(rows.as_slice(), 1);
                    proof {
                        lemma_pos_views(rows@, sel@);
                        crate::files::model::law_selection_stays_on_a_row(rows@, Some(sel@), 1);
                        let k = crate::files::model::next_row(rows@, Some(sel@), 1);
                        assert(row_views(rows@)[k] == rows@[k]@);
                    }
                    return KeyOutcome::Stepped(Vec::new());
                }
                let mut loads: Vec<String> = Vec::new();
                if self.model.expand(sel.as_str()) {
                    loads.push(owned(sel.as_str()));
                    assert(strs_view(loads@) =~= seq![sel@]);
                } else {
                    assert(strs_view(loads@) =~= Seq::<Seq<char>>::empty());
                }
                KeyOutcome::Stepped(loads)
            },
            TreeKey::Left => {
                if filter_focused {
                    return KeyOutcome::Ignored;
                }
                let sel = match self.model.selected_path() {
                    Some(p) => owned(p),
                    None => {
                        return KeyOutcome::Ignored;
                    },
                };
                if self.model.is_expanded(sel.as_str()) {
                    self.model.collapse(sel.as_str());
                    return KeyOutcome::Stepped(Vec::new());
                }
                let sv = chars_of(sel.as_str());
                match crate::text::last_index_of_exec(sv.as_slice(), '/') {
                    Some(i) => {
                        let parent = string_of(slice_of(sv.as_slice(), 0, i).as_slice());
                        self.model.select(Some(parent));
                    },
                    None => {},
                }
                KeyOutcome::Stepped(Vec::new())
            },
            TreeKey::Other => KeyOutcome::Ignored,
        }
    }
}

} // verus!
