//! The file tree's model: what the engine has said about a checkout (tree
//! listings, watch batches), which directories are open, and the rows that
//! fall out. A directory whose only child is a directory folds into it, so
//! `src/main/java/com` is one row, not four; the folded row carries the
//! deepest directory's path.
use vstd::prelude::*;
use crate::text::{
    chars_view, strs_view, last_segment,
    append, chars_eq, starts_with_exec, chars_of, last_index_of, last_index_of_exec, lemma_last_index_of, slice_of,
    split_any, split_any_exec, starts_with, string_of,
};

verus! {

/// What a path on disk is.
#[derive(Debug, Clone, Copy, PartialEq, Eq, Structural)]
pub enum FileKind {
    File,
    Dir,
}

/// One path the engine listed.
#[derive(Debug, Clone, PartialEq, Eq)]
pub struct FileEntry {
    pub path: String,
    pub kind: FileKind,
    pub status: String,
    /// Set by the engine on directories at the edge of a listing: the ones
    /// whose children it did not list.
    pub has_children: bool,
    pub size: u64,
}

impl FileEntry {
    /// A field-by-field copy.
    pub fn copy(&self) -> (r: FileEntry)
        ensures
            r == *self,
    {
        FileEntry {
            path: self.path.clone(),
            kind: self.kind,
            status: self.status.clone(),
            has_children: self.has_children,
            size: self.size,
        }
    }
}

/// One drawable row.
#[derive(Debug, Clone, PartialEq, Eq)]
pub struct Row {
    pub path: String,
    pub kind: FileKind,
    pub status: String,
    pub depth: usize,
    /// The name, or `a/b/c` for a folded chain.
    pub label: String,
    pub expanded: bool,
    /// A directory known (or believed) to have children.
    pub has_children: bool,
}

/// A row, as contracts speak of it.
pub struct RowView {
    pub path: Seq<char>,
    pub kind: FileKind,
    pub status: Seq<char>,
    pub depth: nat,
    pub label: Seq<char>,
    pub expanded: bool,
    pub has_children: bool,
}

impl View for Row {
    type V = RowView;

    open spec fn view(&self) -> RowView {
        RowView {
            path: self.path@,
            kind: self.kind,
            status: self.status@,
            depth: self.depth as nat,
            label: self.label@,
            expanded: self.expanded,
            has_children: self.has_children,
        }
    }
}

/// The directory a path sits in: everything before its last `/`, or the
/// root (`""`) for a top-level path.
pub open spec fn parent_of(p: Seq<char>) -> Seq<char> {
    match last_index_of(p, '/') {
        Some(i) => p.take(i),
        None => seq![],
    }
}

/// `p` lies inside directory `d` (everything lies inside the root).
pub open spec fn is_under(p: Seq<char>, d: Seq<char>) -> bool {
    d.len() == 0 || starts_with(p, d.push('/'))
}

/// Some string of `v` reads `d`.
pub open spec fn has_name(v: Seq<String>, d: Seq<char>) -> bool {
    exists|k: int| 0 <= k < v.len() && (#[trigger] v[k])@ == d
}

/// Strictly increasing character order, as `String`'s `Ord` compares.
pub open spec fn lex_lt(a: Seq<char>, b: Seq<char>) -> bool
    decreases a.len(),
{
    if b.len() == 0 {
        false
    } else if a.len() == 0 {
        true
    } else if a[0] == b[0] {
        lex_lt(a.drop_first(), b.drop_first())
    } else {
        a[0] < b[0]
    }
}

/// The entries are in strictly increasing path order: a sorted map.
pub open spec fn sorted(es: Seq<FileEntry>) -> bool {
    forall|i: int, j: int| 0 <= i < j < es.len() ==> lex_lt(es[i].path@, es[j].path@)
}

/// How many entries sit directly in directory `d`.
pub open spec fn n_children(es: Seq<FileEntry>, d: Seq<char>) -> nat
    decreases es.len(),
{
    if es.len() == 0 {
        0
    } else {
        n_children(es.drop_last(), d) + if parent_of(es.last().path@) == d {
            1nat
        } else {
            0nat
        }
    }
}

/// The index of the first entry that sits directly in `d`.
pub open spec fn first_child(es: Seq<FileEntry>, d: Seq<char>) -> Option<int>
    decreases es.len(),
{
    if es.len() == 0 {
        None
    } else {
        match first_child(es.drop_last(), d) {
            Some(i) => Some(i),
            None => if parent_of(es.last().path@) == d {
                Some(es.len() - 1)
            } else {
                None
            },
        }
    }
}

/// The index of the first entry at path `p`.
pub open spec fn index_of_path(es: Seq<FileEntry>, p: Seq<char>) -> Option<int>
    decreases es.len(),
{
    if es.len() == 0 {
        None
    } else {
        match index_of_path(es.drop_last(), p) {
            Some(i) => Some(i),
            None => if es.last().path@ == p {
                Some(es.len() - 1)
            } else {
                None
            },
        }
    }
}

/// A listed directory whose only child is a directory: that child.
pub open spec fn only_child_dir(es: Seq<FileEntry>, loaded: Seq<String>, d: Seq<char>) -> Option<
    int,
> {
    if has_name(loaded, d) && n_children(es, d) == 1 {
        match first_child(es, d) {
            Some(c) => if es[c].kind == FileKind::Dir {
                Some(c)
            } else {
                None
            },
            None => None,
        }
    } else {
        None
    }
}

/// Follow only-child directories down from entry `i`, at most `fuel` steps.
pub open spec fn chain_tail(es: Seq<FileEntry>, loaded: Seq<String>, i: int, fuel: nat) -> int
    decreases fuel,
{
    if fuel == 0 {
        i
    } else {
        match only_child_dir(es, loaded, es[i].path@) {
            Some(c) => chain_tail(es, loaded, c, (fuel - 1) as nat),
            None => i,
        }
    }
}

/// The entry that directory entry `i` folds into, if it folds: the deepest
/// directory of its chain of only children.
pub open spec fn folded_at(es: Seq<FileEntry>, loaded: Seq<String>, i: int) -> Option<int> {
    if es[i].kind == FileKind::Dir && only_child_dir(es, loaded, es[i].path@) is Some {
        Some(chain_tail(es, loaded, i, es.len()))
    } else {
        None
    }
}

/// The entry that path `p` folds into, if it folds.
pub open spec fn folded(es: Seq<FileEntry>, loaded: Seq<String>, p: Seq<char>) -> Option<int> {
    match index_of_path(es, p) {
        Some(i) => folded_at(es, loaded, i),
        None => None,
    }
}

pub open spec fn folds_into(es: Seq<FileEntry>, loaded: Seq<String>, p: Seq<char>, target: Seq<char>) -> bool {
    match folded(es, loaded, p) {
        Some(t) => es[t].path@ == target,
        None => false,
    }
}

/// A directory is open when it, or the row it folds into, is expanded.
pub open spec fn is_open(es: Seq<FileEntry>, loaded: Seq<String>, expanded: Seq<String>, d: Seq<char>) -> bool {
    match folded(es, loaded, d) {
        Some(t) => has_name(expanded, es[t].path@),
        None => has_name(expanded, d),
    }
}

/// The running prefixes a `/`-split walk of `parts` builds.
pub open spec fn accs_of(parts: Seq<Seq<char>>) -> Seq<Seq<char>>
    decreases parts.len(),
{
    if parts.len() == 0 {
        seq![]
    } else {
        let prev = accs_of(parts.drop_last());
        let last: Seq<char> = if prev.len() == 0 {
            seq![]
        } else {
            prev.last()
        };
        prev.push(
            if last.len() == 0 {
                parts.last()
            } else {
                last.push('/') + parts.last()
            },
        )
    }
}

/// The ancestors of a path's row, outermost first, for a parent directory `p`.
pub open spec fn ancestors(p: Seq<char>) -> Seq<Seq<char>> {
    if p.len() == 0 {
        seq![]
    } else {
        accs_of(split_any(p, '/', '/'))
    }
}

/// Every directory of `a` is open, or is folded into the row for `p` itself.
pub open spec fn all_open(es: Seq<FileEntry>, loaded: Seq<String>, expanded: Seq<String>, a: Seq<Seq<char>>, p: Seq<char>) -> bool {
    forall|k: int|
        0 <= k < a.len() ==> folds_into(es, loaded, #[trigger] a[k], p) || is_open(
            es,
            loaded,
            expanded,
            a[k],
        )
}

/// Every ancestor of entry `i` is open, or is folded into `i` itself.
pub open spec fn shown(es: Seq<FileEntry>, loaded: Seq<String>, expanded: Seq<String>, i: int) -> bool {
    all_open(es, loaded, expanded, ancestors(parent_of(es[i].path@)), es[i].path@)
}

/// How many of `a` fold into nothing: the row's indentation.
pub open spec fn unfolded_count(es: Seq<FileEntry>, loaded: Seq<String>, a: Seq<Seq<char>>) -> nat
    decreases a.len(),
{
    if a.len() == 0 {
        0
    } else {
        unfolded_count(es, loaded, a.drop_last()) + if folded(es, loaded, a.last()) is None {
            1nat
        } else {
            0nat
        }
    }
}

/// Walk up from `h` while the parent folds into `target`: the top of the
/// folded chain.
pub open spec fn head(es: Seq<FileEntry>, loaded: Seq<String>, h: Seq<char>, target: Seq<char>) -> Seq<char>
    decreases h.len(),
{
    match last_index_of(h, '/') {
        Some(i) => if 0 <= i < h.len() && folds_into(es, loaded, h.take(i), target) {
            head(es, loaded, h.take(i), target)
        } else {
            h
        },
        None => h,
    }
}

/// The words on a row: the name, or `a/b/c` from the top of its folded chain.
pub open spec fn label(es: Seq<FileEntry>, loaded: Seq<String>, p: Seq<char>) -> Seq<char> {
    let h = head(es, loaded, p, p);
    if h == p {
        last_segment(p)
    } else {
        match last_index_of(h, '/') {
            Some(i) => p.skip(i + 1),
            None => p,
        }
    }
}

/// Entry `i` gets a row.
pub open spec fn visible(es: Seq<FileEntry>, loaded: Seq<String>, expanded: Seq<String>, i: int) -> bool {
    folded(es, loaded, es[i].path@) is None && shown(es, loaded, expanded, i)
}

/// The row entry `i` draws as.
pub open spec fn row_for(es: Seq<FileEntry>, loaded: Seq<String>, expanded: Seq<String>, i: int) -> RowView {
    let e = es[i];
    RowView {
        path: e.path@,
        kind: e.kind,
        status: e.status@,
        depth: unfolded_count(es, loaded, ancestors(parent_of(e.path@))),
        label: label(es, loaded, e.path@),
        expanded: e.kind == FileKind::Dir && has_name(expanded, e.path@),
        has_children: e.kind == FileKind::Dir && (e.has_children || n_children(es, e.path@) > 0),
    }
}

/// The rows of the first `n` entries, in path order.
pub open spec fn rows_upto(es: Seq<FileEntry>, loaded: Seq<String>, expanded: Seq<String>, n: int) -> Seq<RowView>
    decreases n,
{
    if n <= 0 {
        seq![]
    } else {
        let prev = rows_upto(es, loaded, expanded, n - 1);
        if visible(es, loaded, expanded, n - 1) {
            prev.push(row_for(es, loaded, expanded, n - 1))
        } else {
            prev
        }
    }
}

/// Every row of the tree, in path order.
pub open spec fn rows_spec(es: Seq<FileEntry>, loaded: Seq<String>, expanded: Seq<String>) -> Seq<RowView> {
    rows_upto(es, loaded, expanded, es.len() as int)
}

// ---- executable pieces of `rows` ----

/// `paths` holds the characters of each entry's path.
spec fn paths_match(es: Seq<FileEntry>, paths: Seq<Vec<char>>) -> bool {
    &&& paths.len() == es.len()
    &&& forall|i: int| 0 <= i < es.len() ==> (#[trigger] paths[i])@ == es[i].path@
}

/// `chars` holds the characters of each string of `strs`.
spec fn names_match(strs: Seq<String>, chars: Seq<Vec<char>>) -> bool {
    &&& chars.len() == strs.len()
    &&& forall|i: int| 0 <= i < strs.len() ==> (#[trigger] chars[i])@ == strs[i]@
}

fn chars_of_all(strs: &Vec<String>) -> (r: Vec<Vec<char>>)
    ensures
        names_match(strs@, r@),
{
    let mut r: Vec<Vec<char>> = Vec::new();
    let mut i: usize = 0;
    while i < strs.len()
        invariant
            i <= strs@.len(),
            r@.len() == i,
            forall|k: int| 0 <= k < i ==> (#[trigger] r@[k])@ == strs@[k]@,
        decreases strs@.len() - i,
    {
        r.push(chars_of(strs[i].as_str()));
        i += 1;
    }
    r
}

fn paths_of(es: &Vec<FileEntry>) -> (r: Vec<Vec<char>>)
    ensures
        paths_match(es@, r@),
{
    let mut r: Vec<Vec<char>> = Vec::new();
    let mut i: usize = 0;
    while i < es.len()
        invariant
            i <= es@.len(),
            r@.len() == i,
            forall|k: int| 0 <= k < i ==> (#[trigger] r@[k])@ == es@[k].path@,
        decreases es@.len() - i,
    {
        r.push(chars_of(es[i].path.as_str()));
        i += 1;
    }
    r
}

/// The parent directory of a path.
pub fn parent_chars(p: &[char]) -> (r: Vec<char>)
    ensures
        r@ == parent_of(p@),
{
    match last_index_of_exec(p, '/') {
        Some(i) => {
            proof {
                lemma_last_index_of(p@, '/');
            }
            slice_of(p, 0, i)
        },
        None => Vec::new(),
    }
}

/// Some name of `names` reads `d`.
fn name_in(strs: Ghost<Seq<String>>, names: &Vec<Vec<char>>, d: &[char]) -> (r: bool)
    requires
        names_match(strs@, names@),
    ensures
        r == has_name(strs@, d@),
{
    let mut k: usize = 0;
    while k < names.len()
        invariant
            k <= names@.len(),
            names_match(strs@, names@),
            forall|j: int| 0 <= j < k ==> strs@[j]@ != d@,
        decreases names@.len() - k,
    {
        if chars_eq(names[k].as_slice(), d) {
            assert(strs@[k as int]@ == d@);
            return true;
        }
        k += 1;
    }
    false
}

proof fn lemma_take_last<T>(s: Seq<T>, i: int)
    requires
        0 <= i < s.len(),
    ensures
        s.take(i + 1).drop_last() == s.take(i),
        s.take(i + 1).last() == s[i],
{
}

/// How many entries sit in `d`, and the first of them.
fn children_of(
    es: &Vec<FileEntry>,
    parents: &Vec<Vec<char>>,
    d: &[char],
) -> (r: (usize, Option<usize>))
    requires
        parents@.len() == es@.len(),
        forall|i: int| 0 <= i < es@.len() ==> (#[trigger] parents@[i])@ == parent_of(es@[i].path@),
    ensures
        r.0 as nat == n_children(es@, d@),
        r.1 matches Some(c) ==> first_child(es@, d@) == Some(c as int),
        r.1 is None ==> first_child(es@, d@) is None,
{
    let mut count: usize = 0;
    let mut first: Option<usize> = None;
    let mut i: usize = 0;
    while i < es.len()
        invariant
            i <= es@.len(),
            parents@.len() == es@.len(),
            forall|j: int| 0 <= j < es@.len() ==> (#[trigger] parents@[j])@ == parent_of(es@[j].path@),
            count as nat == n_children(es@.take(i as int), d@),
            count <= i,
            first matches Some(c) ==> first_child(es@.take(i as int), d@) == Some(c as int),
            first is None ==> first_child(es@.take(i as int), d@) is None,
        decreases es@.len() - i,
    {
        proof {
            lemma_take_last(es@, i as int);
        }
        if chars_eq(parents[i].as_slice(), d) {
            count += 1;
            if first.is_none() {
                first = Some(i);
            }
        }
        i += 1;
    }
    assert(es@.take(es@.len() as int) == es@);
    (count, first)
}

/// The only child directory of a listed directory `d`.
fn only_child_dir_exec(
    es: &Vec<FileEntry>,
    parents: &Vec<Vec<char>>,
    loaded: Ghost<Seq<String>>,
    ld: &Vec<Vec<char>>,
    d: &[char],
) -> (r: Option<usize>)
    requires
        parents@.len() == es@.len(),
        forall|i: int| 0 <= i < es@.len() ==> (#[trigger] parents@[i])@ == parent_of(es@[i].path@),
        names_match(loaded@, ld@),
    ensures
        r matches Some(c) ==> only_child_dir(es@, loaded@, d@) == Some(c as int),
        r is None ==> only_child_dir(es@, loaded@, d@) is None,
        r matches Some(c) ==> c < es@.len(),
{
    if !name_in(loaded, ld, d) {
        return None;
    }
    let (count, first) = children_of(es, parents, d);
    if count != 1 {
        return None;
    }
    match first {
        Some(c) => {
            proof {
                lemma_first_child_bounds(es@, d@);
            }
            if es[c].kind == FileKind::Dir {
                Some(c)
            } else {
                None
            }
        },
        None => None,
    }
}

proof fn lemma_first_child_bounds(es: Seq<FileEntry>, d: Seq<char>)
    ensures
        first_child(es, d) matches Some(c) ==> 0 <= c < es.len(),
    decreases es.len(),
{
    if es.len() > 0 {
        lemma_first_child_bounds(es.drop_last(), d);
    }
}

proof fn lemma_index_of_path(es: Seq<FileEntry>, p: Seq<char>)
    ensures
        index_of_path(es, p) matches Some(i) ==> 0 <= i < es.len() && es[i].path@ == p,
        index_of_path(es, p) is None ==> forall|j: int| 0 <= j < es.len() ==> es[j].path@ != p,
    decreases es.len(),
{
    if es.len() > 0 {
        lemma_index_of_path(es.drop_last(), p);
        assert forall|j: int| 0 <= j < es.len() - 1 implies es.drop_last()[j] == es[j] by {}
    }
}

proof fn lemma_index_of_path_prefix(es: Seq<FileEntry>, k: int, p: Seq<char>)
    requires
        0 <= k <= es.len(),
        index_of_path(es.take(k), p) is Some,
    ensures
        index_of_path(es, p) == index_of_path(es.take(k), p),
    decreases es.len() - k,
{
    if k < es.len() {
        assert(es.drop_last().take(k) == es.take(k));
        lemma_index_of_path_prefix(es.drop_last(), k, p);
    } else {
        assert(es.take(k) == es);
    }
}

/// The first entry at path `p`.
fn index_of_path_exec(es: &Vec<FileEntry>, paths: &Vec<Vec<char>>, p: &[char]) -> (r: Option<usize>)
    requires
        paths_match(es@, paths@),
    ensures
        r matches Some(i) ==> index_of_path(es@, p@) == Some(i as int),
        r is None ==> index_of_path(es@, p@) is None,
{
    let mut i: usize = 0;
    while i < es.len()
        invariant
            i <= es@.len(),
            paths_match(es@, paths@),
            index_of_path(es@.take(i as int), p@) is None,
        decreases es@.len() - i,
    {
        proof {
            lemma_take_last(es@, i as int);
        }
        if chars_eq(paths[i].as_slice(), p) {
            proof {
                lemma_index_of_path_prefix(es@, i + 1, p@);
            }
            return Some(i);
        }
        i += 1;
    }
    assert(es@.take(es@.len() as int) == es@);
    None
}

proof fn lemma_chain_tail_bounds(es: Seq<FileEntry>, loaded: Seq<String>, i: int, fuel: nat)
    requires
        0 <= i < es.len(),
    ensures
        0 <= chain_tail(es, loaded, i, fuel) < es.len(),
    decreases fuel,
{
    if fuel > 0 {
        match only_child_dir(es, loaded, es[i].path@) {
            Some(c) => {
                lemma_first_child_bounds(es, es[i].path@);
                lemma_chain_tail_bounds(es, loaded, c, (fuel - 1) as nat);
            },
            None => {},
        }
    }
}

/// For every entry, the entry it folds into.
fn fold_targets(
    es: &Vec<FileEntry>,
    paths: &Vec<Vec<char>>,
    parents: &Vec<Vec<char>>,
    loaded: Ghost<Seq<String>>,
    ld: &Vec<Vec<char>>,
) -> (r: Vec<Option<usize>>)
    requires
        paths_match(es@, paths@),
        parents@.len() == es@.len(),
        forall|i: int| 0 <= i < es@.len() ==> (#[trigger] parents@[i])@ == parent_of(es@[i].path@),
        names_match(loaded@, ld@),
    ensures
        r@.len() == es@.len(),
        forall|i: int|
            0 <= i < es@.len() ==> (#[trigger] r@[i]) == match folded_at(es@, loaded@, i) {
                Some(t) => Some(t as usize),
                None => None::<usize>,
            },
        forall|i: int| 0 <= i < es@.len() ==> ((#[trigger] r@[i]) matches Some(t) ==> t < es@.len()),
{
    proof {
        assert forall|i: int| 0 <= i < es@.len() implies (#[trigger] folded_at(es@, loaded@, i) matches Some(
            t,
        ) ==> 0 <= t < es@.len()) by {
            lemma_chain_tail_bounds(es@, loaded@, i, es@.len());
        }
    }
    let n = es.len();
    let mut r: Vec<Option<usize>> = Vec::new();
    let mut i: usize = 0;
    while i < n
        invariant
            n == es@.len(),
            i <= n,
            r@.len() == i,
            paths_match(es@, paths@),
            parents@.len() == es@.len(),
            forall|j: int| 0 <= j < es@.len() ==> (#[trigger] parents@[j])@ == parent_of(es@[j].path@),
            names_match(loaded@, ld@),
            forall|j: int|
                0 <= j < i ==> (#[trigger] r@[j]) == match folded_at(es@, loaded@, j) {
                    Some(t) => Some(t as usize),
                    None => None::<usize>,
                },
            forall|j: int| 0 <= j < i ==> ((#[trigger] r@[j]) matches Some(t) ==> t < es@.len()),
        decreases n - i,
    {
        let first = if es[i].kind == FileKind::Dir {
            only_child_dir_exec(es, parents, loaded, ld, paths[i].as_slice())
        } else {
            None
        };
        if first.is_none() {
            r.push(None);
        } else {
            let mut t: usize = i;
            let mut fuel: usize = n;
            proof {
                lemma_chain_tail_bounds(es@, loaded@, i as int, n as nat);
            }
            let mut go = true;
            while go && fuel > 0
                invariant
                    n == es@.len(),
                    t < n,
                    !go ==> fuel > 0 && only_child_dir(es@, loaded@, es@[t as int].path@) is None,
                    paths_match(es@, paths@),
                    parents@.len() == es@.len(),
                    forall|j: int|
                        0 <= j < es@.len() ==> (#[trigger] parents@[j])@ == parent_of(es@[j].path@),
                    names_match(loaded@, ld@),
                    chain_tail(es@, loaded@, i as int, n as nat) == chain_tail(
                        es@,
                        loaded@,
                        t as int,
                        fuel as nat,
                    ),
                decreases fuel + if go {
                    1int
                } else {
                    0int
                },
            {
                match only_child_dir_exec(es, parents, loaded, ld, paths[t].as_slice()) {
                    Some(c) => {
                        t = c;
                        fuel -= 1;
                    },
                    None => {
                        go = false;
                    },
                }
            }
            assert(t as int == chain_tail(es@, loaded@, i as int, n as nat));
            r.push(Some(t));
        }
        i += 1;
    }
    r
}

/// The entry `p` folds into.
fn folded_exec(
    es: &Vec<FileEntry>,
    paths: &Vec<Vec<char>>,
    loaded: Ghost<Seq<String>>,
    fold: &Vec<Option<usize>>,
    p: &[char],
) -> (r: Option<usize>)
    requires
        paths_match(es@, paths@),
        fold@.len() == es@.len(),
        forall|i: int|
            0 <= i < es@.len() ==> (#[trigger] fold@[i]) == match folded_at(es@, loaded@, i) {
                Some(t) => Some(t as usize),
                None => None::<usize>,
            },
        forall|i: int| 0 <= i < es@.len() ==> ((#[trigger] fold@[i]) matches Some(t) ==> t < es@.len()),
    ensures
        r matches Some(t) ==> folded(es@, loaded@, p@) == Some(t as int) && t < es@.len(),
        r is None ==> folded(es@, loaded@, p@) is None,
{
    proof {
        lemma_index_of_path(es@, p@);
    }
    let _n = es.len();
    match index_of_path_exec(es, paths, p) {
        Some(i) => {
            proof {
                lemma_chain_tail_bounds(es@, loaded@, i as int, es@.len());
                assert(folded(es@, loaded@, p@) == folded_at(es@, loaded@, i as int));
            }
            let r = fold[i];
            proof {
                assert(r == fold@[i as int]);
                assert(0 <= i < es@.len());
                match folded_at(es@, loaded@, i as int) {
                    Some(t) => {
                        assert(0 <= t < es@.len());
                        assert(r == Some(t as usize));
                        assert((t as usize) as int == t);
                    },
                    None => {
                        assert(r is None);
                    },
                }
            }
            r
        },
        None => None,
    }
}

/// The running `/`-prefixes of a parent directory.
fn ancestors_exec(p: &[char]) -> (r: Vec<Vec<char>>)
    ensures
        r@.len() == ancestors(p@).len(),
        forall|k: int| 0 <= k < r@.len() ==> (#[trigger] r@[k])@ == ancestors(p@)[k],
{
    let mut r: Vec<Vec<char>> = Vec::new();
    if p.len() == 0 {
        return r;
    }
    let parts = split_any_exec(p, '/', '/');
    let ghost sp = split_any(p@, '/', '/');
    let mut acc: Vec<char> = Vec::new();
    let mut i: usize = 0;
    while i < parts.len()
        invariant
            i <= parts@.len(),
            parts@.len() == sp.len(),
            forall|k: int| 0 <= k < parts@.len() ==> (#[trigger] parts@[k])@ == sp[k],
            r@.len() == accs_of(sp.take(i as int)).len(),
            r@.len() == i,
            forall|k: int| 0 <= k < r@.len() ==> (#[trigger] r@[k])@ == accs_of(sp.take(i as int))[k],
            acc@ == (if i == 0 {
                seq![]
            } else {
                accs_of(sp.take(i as int)).last()
            }),
        decreases parts@.len() - i,
    {
        proof {
            lemma_take_last(sp, i as int);
        }
        if acc.len() == 0 {
            acc = slice_of(parts[i].as_slice(), 0, parts[i].len());
        } else {
            acc.push('/');
            append(&mut acc, parts[i].as_slice());
        }
        let copy = slice_of(acc.as_slice(), 0, acc.len());
        r.push(copy);
        i += 1;
    }
    assert(sp.take(sp.len() as int) == sp);
    r
}

/// Whether `d` is open.
fn is_open_exec(
    es: &Vec<FileEntry>,
    paths: &Vec<Vec<char>>,
    loaded: Ghost<Seq<String>>,
    expanded: Ghost<Seq<String>>,
    ex: &Vec<Vec<char>>,
    fold: &Vec<Option<usize>>,
    d: &[char],
) -> (r: bool)
    requires
        paths_match(es@, paths@),
        names_match(expanded@, ex@),
        fold@.len() == es@.len(),
        forall|i: int|
            0 <= i < es@.len() ==> (#[trigger] fold@[i]) == match folded_at(es@, loaded@, i) {
                Some(t) => Some(t as usize),
                None => None::<usize>,
            },
        forall|i: int| 0 <= i < es@.len() ==> ((#[trigger] fold@[i]) matches Some(t) ==> t < es@.len()),
    ensures
        r == is_open(es@, loaded@, expanded@, d@),
{
    match folded_exec(es, paths, loaded, fold, d) {
        Some(t) => name_in(expanded, ex, paths[t].as_slice()),
        None => name_in(expanded, ex, d),
    }
}

/// Whether `d` folds into the entry at `target`.
fn folds_into_exec(
    es: &Vec<FileEntry>,
    paths: &Vec<Vec<char>>,
    loaded: Ghost<Seq<String>>,
    fold: &Vec<Option<usize>>,
    d: &[char],
    target: &[char],
) -> (r: bool)
    requires
        paths_match(es@, paths@),
        fold@.len() == es@.len(),
        forall|i: int|
            0 <= i < es@.len() ==> (#[trigger] fold@[i]) == match folded_at(es@, loaded@, i) {
                Some(t) => Some(t as usize),
                None => None::<usize>,
            },
        forall|i: int| 0 <= i < es@.len() ==> ((#[trigger] fold@[i]) matches Some(t) ==> t < es@.len()),
    ensures
        r == folds_into(es@, loaded@, d@, target@),
{
    match folded_exec(es, paths, loaded, fold, d) {
        Some(t) => chars_eq(paths[t].as_slice(), target),
        None => false,
    }
}

impl TreeModel {
    /// The rows to draw, in path order, single-child chains folded.
    pub fn rows(&self) -> (r: Vec<Row>)
        ensures
            r@.map_values(|x: Row| x@) == rows_spec(self.entries(), self.loaded(), self.expanded()),
    {
        let es = &self.entries;
        let ghost g_es = es@;
        let ghost loaded = self.loaded@;
        let ghost expanded = self.expanded@;
        let n = es.len();
        let paths = paths_of(es);
        let mut parents: Vec<Vec<char>> = Vec::new();
        let mut i: usize = 0;
        while i < n
            invariant
                n == es@.len(),
                i <= n,
                paths_match(es@, paths@),
                parents@.len() == i,
                forall|j: int| 0 <= j < i ==> (#[trigger] parents@[j])@ == parent_of(es@[j].path@),
            decreases n - i,
        {
            parents.push(parent_chars(paths[i].as_slice()));
            i += 1;
        }
        let ld = chars_of_all(&self.loaded);
        let ex = chars_of_all(&self.expanded);
        let fold = fold_targets(es, &paths, &parents, Ghost(loaded), &ld);
        let mut rows: Vec<Row> = Vec::new();
        let mut i: usize = 0;
        while i < n
            invariant
                n == es@.len(),
                g_es == es@,
                es@ == self.entries@,
                loaded == self.loaded@,
                expanded == self.expanded@,
                i <= n,
                paths_match(es@, paths@),
                parents@.len() == es@.len(),
                forall|j: int| 0 <= j < es@.len() ==> (#[trigger] parents@[j])@ == parent_of(es@[j].path@),
                names_match(loaded, ld@),
                names_match(expanded, ex@),
                fold@.len() == es@.len(),
                forall|j: int|
                    0 <= j < es@.len() ==> (#[trigger] fold@[j]) == match folded_at(es@, loaded, j) {
                        Some(t) => Some(t as usize),
                        None => None::<usize>,
                    },
                forall|j: int| 0 <= j < es@.len() ==> ((#[trigger] fold@[j]) matches Some(t) ==> t < es@.len()),
                rows@.map_values(|x: Row| x@) == rows_upto(es@, loaded, expanded, i as int),
            decreases n - i,
        {
            let ghost before = rows@;
            if let Some(row) = self.row_at(&paths, &parents, &ld, &ex, &fold, i) {
                rows.push(row);
                assert(rows@.map_values(|x: Row| x@) == before.map_values(|x: Row| x@).push(row@));
            }
            i += 1;
        }
        rows
    }

    /// The row entry `i` draws as, when it draws at all.
    fn row_at(
        &self,
        paths: &Vec<Vec<char>>,
        parents: &Vec<Vec<char>>,
        ld: &Vec<Vec<char>>,
        ex: &Vec<Vec<char>>,
        fold: &Vec<Option<usize>>,
        i: usize,
    ) -> (r: Option<Row>)
        requires
            i < self.entries@.len(),
            paths_match(self.entries@, paths@),
            parents@.len() == self.entries@.len(),
            forall|j: int|
                0 <= j < self.entries@.len() ==> (#[trigger] parents@[j])@ == parent_of(
                    self.entries@[j].path@,
                ),
            names_match(self.loaded@, ld@),
            names_match(self.expanded@, ex@),
            fold@.len() == self.entries@.len(),
            forall|j: int|
                0 <= j < self.entries@.len() ==> (#[trigger] fold@[j]) == match folded_at(
                    self.entries@,
                    self.loaded@,
                    j,
                ) {
                    Some(t) => Some(t as usize),
                    None => None::<usize>,
                },
            forall|j: int|
                0 <= j < self.entries@.len() ==> ((#[trigger] fold@[j]) matches Some(t) ==> t
                    < self.entries@.len()),
        ensures
            r is Some == visible(self.entries@, self.loaded@, self.expanded@, i as int),
            r matches Some(row) ==> row@ == row_for(
                self.entries@,
                self.loaded@,
                self.expanded@,
                i as int,
            ),
    {
        let es = &self.entries;
        let ghost loaded = self.loaded@;
        let ghost expanded = self.expanded@;
        let path = paths[i].as_slice();
        if folded_exec(es, paths, Ghost(loaded), fold, path).is_some() {
            return None;
        }
        let anc = ancestors_exec(parents[i].as_slice());
        let ghost a = ancestors(parent_of(es@[i as int].path@));
        let mut depth: usize = 0;
        let mut k: usize = 0;
        while k < anc.len()
            invariant
                i < es@.len(),
                es@ == self.entries@,
                path@ == es@[i as int].path@,
                paths_match(es@, paths@),
                fold@.len() == es@.len(),
                forall|j: int|
                    0 <= j < es@.len() ==> (#[trigger] fold@[j]) == match folded_at(es@, loaded, j) {
                        Some(t) => Some(t as usize),
                        None => None::<usize>,
                    },
                forall|j: int| 0 <= j < es@.len() ==> ((#[trigger] fold@[j]) matches Some(t) ==> t < es@.len()),
                names_match(expanded, ex@),
                loaded == self.loaded@,
                expanded == self.expanded@,
                a == ancestors(parent_of(es@[i as int].path@)),
                anc@.len() == a.len(),
                forall|j: int| 0 <= j < anc@.len() ==> (#[trigger] anc@[j])@ == a[j],
                k <= anc@.len(),
                depth <= k,
                depth as nat == unfolded_count(es@, loaded, a.take(k as int)),
                forall|j: int|
                    0 <= j < k ==> folds_into(es@, loaded, #[trigger] a[j], es@[i as int].path@)
                        || is_open(es@, loaded, expanded, a[j]),
            decreases anc@.len() - k,
        {
            proof {
                lemma_take_last(a, k as int);
            }
            let acc = anc[k].as_slice();
            let into_me = folds_into_exec(es, paths, Ghost(loaded), fold, acc, path);
            if !into_me && !is_open_exec(es, paths, Ghost(loaded), Ghost(expanded), ex, fold, acc) {
                proof {
                    assert(acc@ == a[k as int]);
                    assert(!(folds_into(es@, loaded, a[k as int], es@[i as int].path@) || is_open(
                        es@,
                        loaded,
                        expanded,
                        a[k as int],
                    )));
                    assert(!all_open(es@, loaded, expanded, a, es@[i as int].path@));
                    assert(!shown(es@, loaded, expanded, i as int));
                    assert(!visible(self.entries@, self.loaded@, self.expanded@, i as int));
                }
                return None;
            }
            if folded_exec(es, paths, Ghost(loaded), fold, acc).is_none() {
                depth += 1;
            }
            k += 1;
        }
        assert(a.take(a.len() as int) == a);
        let label = self.label_of(paths, fold, path);
        let e = &es[i];
        let (nc, _) = children_of(es, parents, path);
        let is_dir = e.kind == FileKind::Dir;
        let expanded_row = is_dir && name_in(Ghost(expanded), ex, path);
        Some(
            Row {
                path: e.path.clone(),
                kind: e.kind,
                status: e.status.clone(),
                depth,
                label: string_of(label.as_slice()),
                expanded: expanded_row,
                has_children: is_dir && (e.has_children || nc > 0),
            },
        )
    }

    /// The words on the row for path `p`.
    fn label_of(&self, paths: &Vec<Vec<char>>, fold: &Vec<Option<usize>>, p: &[char]) -> (r: Vec<
        char,
    >)
        requires
            paths_match(self.entries@, paths@),
            fold@.len() == self.entries@.len(),
            forall|j: int|
                0 <= j < self.entries@.len() ==> (#[trigger] fold@[j]) == match folded_at(
                    self.entries@,
                    self.loaded@,
                    j,
                ) {
                    Some(t) => Some(t as usize),
                    None => None::<usize>,
                },
            forall|j: int|
                0 <= j < self.entries@.len() ==> ((#[trigger] fold@[j]) matches Some(t) ==> t
                    < self.entries@.len()),
        ensures
            r@ == label(self.entries@, self.loaded@, p@),
    {
        let es = &self.entries;
        let ghost loaded = self.loaded@;
        let mut h: Vec<char> = slice_of(p, 0, p.len());
        assert(h@ =~= p@);
        let mut go = true;
        while go
            invariant
                !go ==> head(es@, loaded, h@, p@) == h@,
                paths_match(es@, paths@),
                fold@.len() == es@.len(),
                forall|j: int|
                    0 <= j < es@.len() ==> (#[trigger] fold@[j]) == match folded_at(es@, loaded, j) {
                        Some(t) => Some(t as usize),
                        None => None::<usize>,
                    },
                forall|j: int| 0 <= j < es@.len() ==> ((#[trigger] fold@[j]) matches Some(t) ==> t < es@.len()),
                loaded == self.loaded@,
                head(es@, loaded, p@, p@) == head(es@, loaded, h@, p@),
            decreases h@.len() + if go {
                1int
            } else {
                0int
            },
        {
            proof {
                lemma_last_index_of(h@, '/');
            }
            match last_index_of_exec(h.as_slice(), '/') {
                Some(i) => {
                    let up = slice_of(h.as_slice(), 0, i);
                    if folds_into_exec(es, paths, Ghost(loaded), fold, up.as_slice(), p) {
                        h = up;
                    } else {
                        go = false;
                    }
                },
                None => {
                    go = false;
                },
            }
        }
        proof {
            lemma_head_prefix(es@, loaded, p@, p@);
        }
        proof {
            lemma_last_index_of(h@, '/');
            lemma_last_index_of(p@, '/');
        }
        if chars_eq(h.as_slice(), p) {
            match last_index_of_exec(p, '/') {
                Some(i) => slice_of(p, i + 1, p.len()),
                None => slice_of(p, 0, p.len()),
            }
        } else {
            match last_index_of_exec(h.as_slice(), '/') {
                Some(i) => slice_of(p, i + 1, p.len()),
                None => slice_of(p, 0, p.len()),
            }
        }
    }
}

proof fn lemma_head_prefix(es: Seq<FileEntry>, loaded: Seq<String>, h: Seq<char>, target: Seq<char>)
    ensures
        head(es, loaded, h, target).len() <= h.len(),
        head(es, loaded, h, target) == h.take(head(es, loaded, h, target).len() as int),
    decreases h.len(),
{
    lemma_last_index_of(h, '/');
    match last_index_of(h, '/') {
        Some(i) => {
            if 0 <= i < h.len() && folds_into(es, loaded, h.take(i), target) {
                lemma_head_prefix(es, loaded, h.take(i), target);
            }
        },
        None => {},
    }
}

/// An entry, as contracts speak of it.
pub struct EntryView {
    pub path: Seq<char>,
    pub kind: FileKind,
    pub status: Seq<char>,
    pub has_children: bool,
    pub size: u64,
}

impl View for FileEntry {
    type V = EntryView;

    open spec fn view(&self) -> EntryView {
        EntryView {
            path: self.path@,
            kind: self.kind,
            status: self.status@,
            has_children: self.has_children,
            size: self.size,
        }
    }
}

/// The entry the model holds at path `p`: a sorted map from path to entry.
pub open spec fn lookup(es: Seq<FileEntry>, p: Seq<char>) -> Option<EntryView> {
    match index_of_path(es, p) {
        Some(i) => Some(es[i]@),
        None => None,
    }
}

proof fn lemma_lex_irreflexive(a: Seq<char>)
    ensures
        !lex_lt(a, a),
    decreases a.len(),
{
    if a.len() > 0 {
        lemma_lex_irreflexive(a.drop_first());
    }
}

proof fn lemma_lex_transitive(a: Seq<char>, b: Seq<char>, c: Seq<char>)
    requires
        lex_lt(a, b),
        lex_lt(b, c),
    ensures
        lex_lt(a, c),
    decreases a.len(),
{
    if a.len() > 0 && b.len() > 0 && c.len() > 0 && a[0] == b[0] && b[0] == c[0] {
        lemma_lex_transitive(a.drop_first(), b.drop_first(), c.drop_first());
    }
}

proof fn lemma_lex_total(a: Seq<char>, b: Seq<char>)
    requires
        a != b,
    ensures
        lex_lt(a, b) || lex_lt(b, a),
    decreases a.len(),
{
    if a.len() > 0 && b.len() > 0 && a[0] == b[0] {
        if a.drop_first() == b.drop_first() {
            assert(a =~= seq![a[0]] + a.drop_first());
            assert(b =~= seq![b[0]] + b.drop_first());
        }
        lemma_lex_total(a.drop_first(), b.drop_first());
    } else if a.len() == 0 && b.len() == 0 {
        assert(a =~= b);
    }
}

/// `a < b` in path order.
fn lex_lt_exec(a: &[char], b: &[char]) -> (r: bool)
    ensures
        r == lex_lt(a@, b@),
{
    let mut i: usize = 0;
    assert(a@.skip(0) == a@);
    assert(b@.skip(0) == b@);
    while i < a.len() && i < b.len() && a[i] == b[i]
        invariant
            i <= a@.len(),
            i <= b@.len(),
            lex_lt(a@, b@) == lex_lt(a@.skip(i as int), b@.skip(i as int)),
        decreases a@.len() - i,
    {
        proof {
            assert(a@.skip(i as int).drop_first() == a@.skip(i + 1));
            assert(b@.skip(i as int).drop_first() == b@.skip(i + 1));
        }
        i += 1;
    }
    if i == b.len() {
        false
    } else if i == a.len() {
        true
    } else {
        a[i] < b[i]
    }
}

proof fn lemma_lookup_sorted(es: Seq<FileEntry>, i: int)
    requires
        sorted(es),
        0 <= i < es.len(),
    ensures
        index_of_path(es, es[i].path@) == Some(i),
        lookup(es, es[i].path@) == Some(es[i]@),
{
    lemma_index_of_path(es, es[i].path@);
    let j = index_of_path(es, es[i].path@)->0;
    if j != i {
        lemma_lex_irreflexive(es[i].path@);
        if j < i {
            assert(lex_lt(es[j].path@, es[i].path@));
        } else {
            assert(lex_lt(es[i].path@, es[j].path@));
        }
    }
}

proof fn lemma_lookup_absent(es: Seq<FileEntry>, p: Seq<char>)
    requires
        forall|i: int| 0 <= i < es.len() ==> es[i].path@ != p,
    ensures
        lookup(es, p) is None,
{
    lemma_index_of_path(es, p);
    if index_of_path(es, p) is Some {
        let j = index_of_path(es, p)->0;
        assert(es[j].path@ == p);
    }
}

/// `lookup` of a sorted sequence, read off its elements.
proof fn lemma_lookup_cases(es: Seq<FileEntry>, p: Seq<char>)
    requires
        sorted(es),
    ensures
        lookup(es, p) is None <==> forall|i: int| 0 <= i < es.len() ==> es[i].path@ != p,
        forall|i: int| 0 <= i < es.len() && es[i].path@ == p ==> lookup(es, p) == Some(es[i]@),
{
    assert forall|i: int| 0 <= i < es.len() && es[i].path@ == p implies lookup(es, p) == Some(
        es[i]@,
    ) by {
        lemma_lookup_sorted(es, i);
    }
    if forall|i: int| 0 <= i < es.len() ==> es[i].path@ != p {
        lemma_lookup_absent(es, p);
    }
}

/// Put `e` in its place: replaces the entry at the same path, or goes in
/// between its neighbours.
fn upsert(es: &mut Vec<FileEntry>, e: FileEntry)
    requires
        sorted(old(es)@),
    ensures
        sorted(final(es)@),
        forall|p: Seq<char>|
            #![trigger lookup(final(es)@, p)]
            lookup(final(es)@, p) == if p == e.path@ {
                Some(e@)
            } else {
                lookup(old(es)@, p)
            },
{
    let ghost o = es@;
    let key = chars_of(e.path.as_str());
    let mut k: usize = 0;
    while k < es.len() && lex_lt_exec(chars_of(es[k].path.as_str()).as_slice(), key.as_slice())
        invariant
            k <= es@.len(),
            es@ == o,
            key@ == e.path@,
            forall|j: int| 0 <= j < k ==> lex_lt(#[trigger] es@[j].path@, e.path@),
        decreases es@.len() - k,
    {
        k += 1;
    }
    // Everything from `k` on is not below the key.
    proof {
        assert forall|j: int| k <= j < o.len() implies lex_lt(e.path@, #[trigger] o[j].path@) || (j
            == k && o[j].path@ == e.path@) by {
            if k < o.len() {
                assert(!lex_lt(o[k as int].path@, e.path@));
                if o[k as int].path@ != e.path@ {
                    lemma_lex_total(o[k as int].path@, e.path@);
                }
                if j > k {
                    assert(lex_lt(o[k as int].path@, o[j].path@));
                    if o[k as int].path@ == e.path@ {
                    } else {
                        lemma_lex_transitive(e.path@, o[k as int].path@, o[j].path@);
                    }
                }
            }
        }
    }
    let same = k < es.len() && chars_eq(chars_of(es[k].path.as_str()).as_slice(), key.as_slice());
    if same {
        es.set(k, e);
        proof {
            let n = es@;
            assert forall|i: int, j: int| 0 <= i < j < n.len() implies lex_lt(
                n[i].path@,
                n[j].path@,
            ) by {
                if i == k {
                    assert(o[i].path@ == n[i].path@);
                } else if j == k {
                    assert(o[j].path@ == n[j].path@);
                }
            }
            assert forall|p: Seq<char>| #[trigger]
                lookup(es@, p) == if p == e.path@ {
                    Some(e@)
                } else {
                    lookup(o, p)
                } by {
                lemma_lookup_cases(n, p);
                lemma_lookup_cases(o, p);
                if p == e.path@ {
                    assert(n[k as int].path@ == p);
                } else {
                    assert forall|i: int| 0 <= i < n.len() && n[i].path@ == p implies o[i]
                        == n[i] by {}
                    assert forall|i: int| 0 <= i < o.len() && o[i].path@ == p implies n[i]
                        == o[i] by {}
                }
            }
        }
    } else {
        es.insert(k, e);
        proof {
            let n = es@;
            assert(n == o.insert(k as int, e));
            assert forall|i: int, j: int| 0 <= i < j < n.len() implies lex_lt(
                n[i].path@,
                n[j].path@,
            ) by {
                if j < k {
                } else if j == k {
                } else if i < k {
                    // i < k < j: o[i] < e < o[j - 1]
                    assert(lex_lt(o[i].path@, e.path@));
                    assert(lex_lt(e.path@, o[j - 1].path@));
                    lemma_lex_transitive(o[i].path@, e.path@, o[j - 1].path@);
                } else if i == k {
                    assert(lex_lt(e.path@, o[j - 1].path@));
                } else {
                    assert(lex_lt(o[i - 1].path@, o[j - 1].path@));
                }
            }
            assert forall|p: Seq<char>| #[trigger]
                lookup(es@, p) == if p == e.path@ {
                    Some(e@)
                } else {
                    lookup(o, p)
                } by {
                lemma_lookup_cases(n, p);
                lemma_lookup_cases(o, p);
                if p == e.path@ {
                    assert(n[k as int].path@ == p);
                } else {
                    assert forall|i: int| 0 <= i < n.len() && n[i].path@ == p implies (i < k
                        && o[i] == n[i]) || (i > k && o[i - 1] == n[i]) by {}
                    assert forall|i: int| 0 <= i < o.len() && o[i].path@ == p implies (i < k
                        && n[i] == o[i]) || (i >= k && n[i + 1] == o[i]) by {}
                }
            }
        }
    }
}

/// Keep the entries whose path `keep` accepts, in order.
fn retain_paths(es: &Vec<FileEntry>, flags: &Vec<bool>, keep: Ghost<spec_fn(Seq<char>) -> bool>) -> (r: Vec<FileEntry>)
    requires
        sorted(es@),
        flags@.len() == es@.len(),
        forall|i: int| 0 <= i < es@.len() ==> #[trigger] flags@[i] == keep@(es@[i].path@),
    ensures
        sorted(r@),
        forall|p: Seq<char>|
            #![trigger lookup(r@, p)]
            lookup(r@, p) == if keep@(p) {
                lookup(es@, p)
            } else {
                None
            },
{
    let mut r: Vec<FileEntry> = Vec::new();
    let ghost mut src: Seq<int> = seq![];
    let mut i: usize = 0;
    while i < es.len()
        invariant
            i <= es@.len(),
            sorted(es@),
            flags@.len() == es@.len(),
            forall|j: int| 0 <= j < es@.len() ==> #[trigger] flags@[j] == keep@(es@[j].path@),
            src.len() == r@.len(),
            forall|k: int| 0 <= k < src.len() ==> 0 <= #[trigger] src[k] < i,
            forall|k: int| 0 <= k < src.len() ==> r@[k] == es@[#[trigger] src[k]],
            forall|k: int| 0 <= k < src.len() ==> keep@(es@[#[trigger] src[k]].path@),
            forall|k: int, l: int| 0 <= k < l < src.len() ==> #[trigger] src[k] < #[trigger] src[l],
            forall|j: int|
                0 <= j < i && keep@(#[trigger] es@[j].path@) ==> exists|k: int|
                    0 <= k < src.len() && src[k] == j,
        decreases es@.len() - i,
    {
        let ghost old_src = src;
        if flags[i] {
            let c = es[i].copy();
            r.push(c);
            proof {
                src = src.push(i as int);
                assert(src[src.len() - 1] == i);
            }
        }
        proof {
            assert forall|j: int|
                0 <= j < i + 1 && keep@(#[trigger] es@[j].path@) implies exists|k: int|
                0 <= k < src.len() && src[k] == j by {
                if j == i {
                    assert(src[src.len() - 1] == i);
                } else {
                    let k = choose|k: int| 0 <= k < old_src.len() && old_src[k] == j;
                    assert(src[k] == old_src[k]);
                }
            }
        }
        i += 1;
    }
    proof {
        assert forall|a: int, b: int| 0 <= a < b < r@.len() implies lex_lt(
            r@[a].path@,
            r@[b].path@,
        ) by {
            assert(src[a] < src[b]);
        }
        assert forall|p: Seq<char>| #[trigger]
            lookup(r@, p) == if keep@(p) {
                lookup(es@, p)
            } else {
                None
            } by {
            lemma_lookup_cases(r@, p);
            lemma_lookup_cases(es@, p);
            if keep@(p) {
                assert forall|k: int| 0 <= k < r@.len() && r@[k].path@ == p implies lookup(
                    es@,
                    p,
                ) == Some(r@[k]@) by {
                    assert(es@[src[k]] == r@[k]);
                }
                if exists|j: int| 0 <= j < es@.len() && es@[j].path@ == p {
                    let j = choose|j: int| 0 <= j < es@.len() && es@[j].path@ == p;
                    let k = choose|k: int| 0 <= k < src.len() && src[k] == j;
                    assert(r@[k].path@ == p);
                }
            } else {
                assert forall|k: int| 0 <= k < r@.len() implies r@[k].path@ != p by {
                    assert(es@[src[k]] == r@[k]);
                }
            }
        }
    }
    r
}

/// One `FilesTree` answer: a directory and the entries under it.
#[derive(Debug, Clone, PartialEq, Eq)]
pub struct FileTree {
    pub path: String,
    pub entries: Vec<FileEntry>,
    pub truncated: bool,
}

/// The last entry a listing gives for path `p`: a later one replaces an
/// earlier one.
pub open spec fn tree_lookup(ts: Seq<FileEntry>, p: Seq<char>) -> Option<EntryView>
    decreases ts.len(),
{
    if ts.len() == 0 {
        None
    } else if ts.last().path@ == p {
        Some(ts.last()@)
    } else {
        tree_lookup(ts.drop_last(), p)
    }
}

/// The levels a listing of `dir` is authoritative for: the directory itself
/// and every directory it listed in full (not at the depth edge).
pub open spec fn listed(dir: Seq<char>, ts: Seq<FileEntry>, d: Seq<char>) -> bool {
    d == dir || exists|i: int|
        0 <= i < ts.len() && (#[trigger] ts[i]).kind == FileKind::Dir && !ts[i].has_children
            && ts[i].path@ == d
}

/// A path survives a listing of `dir` unless it sits in one of the levels
/// the listing covered.
pub open spec fn survives_listing(dir: Seq<char>, ts: Seq<FileEntry>, p: Seq<char>) -> bool {
    !is_under(p, dir) || !listed(dir, ts, parent_of(p))
}

/// `p` lies in `d`.
fn is_under_exec(p: &[char], d: &[char]) -> (r: bool)
    ensures
        r == is_under(p@, d@),
{
    if d.len() == 0 {
        return true;
    }
    let mut pre = slice_of(d, 0, d.len());
    pre.push('/');
    assert(pre@ == d@.push('/'));
    starts_with_exec(p, pre.as_slice())
}

/// Some element of `v` reads `d`.
pub open spec fn in_list(v: Seq<Vec<char>>, d: Seq<char>) -> bool {
    exists|k: int| 0 <= k < v.len() && (#[trigger] v[k])@ == d
}

/// Some element of `v` reads `d`.
fn any_eq(v: &Vec<Vec<char>>, d: &[char]) -> (r: bool)
    ensures
        r == in_list(v@, d@),
{
    let mut k: usize = 0;
    while k < v.len()
        invariant
            k <= v@.len(),
            forall|j: int| 0 <= j < k ==> (#[trigger] v@[j])@ != d@,
        decreases v@.len() - k,
    {
        if chars_eq(v[k].as_slice(), d) {
            return true;
        }
        k += 1;
    }
    false
}

/// Add `d` to a set of names, unless it is already there.
fn add_name(v: &mut Vec<String>, d: &[char])
    ensures
        forall|x: Seq<char>| #[trigger] has_name(final(v)@, x) == (has_name(old(v)@, x) || x == d@),
{
    let names = chars_of_all(v);
    if !name_in(Ghost(v@), &names, d) {
        let ghost o = v@;
        v.push(string_of(d));
        assert forall|x: Seq<char>| #[trigger] has_name(v@, x) == (has_name(o, x) || x == d@) by {
            if has_name(o, x) {
                let k = choose|k: int| 0 <= k < o.len() && o[k]@ == x;
                assert(v@[k] == o[k]);
            }
            if x == d@ {
                assert(v@[o.len() as int]@ == x);
            }
            if has_name(v@, x) {
                let k = choose|k: int| 0 <= k < v@.len() && v@[k]@ == x;
                if k < o.len() {
                    assert(o[k] == v@[k]);
                }
            }
        }
    }
}

/// The tree's model: every entry seen so far, sorted by path, which
/// directories have been listed and which are open.
pub struct TreeModel {
    entries: Vec<FileEntry>,
    loaded: Vec<String>,
    expanded: Vec<String>,
    pub selected: Option<String>,
    /// Watch events folded in, as a pair with `applied`.
    pub events_seen: usize,
    pub applied: usize,
}

impl TreeModel {
    /// Everything seen so far, in path order.
    pub closed spec fn entries(&self) -> Seq<FileEntry> {
        self.entries@
    }

    /// Directories whose children have been listed.
    pub closed spec fn loaded(&self) -> Seq<String> {
        self.loaded@
    }

    /// Directories the user has opened.
    pub closed spec fn expanded(&self) -> Seq<String> {
        self.expanded@
    }

    /// The selected path.
    pub closed spec fn selection(&self) -> Option<String> {
        self.selected
    }

    /// Watch events seen, and applied.
    pub closed spec fn counts(&self) -> (usize, usize) {
        (self.events_seen, self.applied)
    }
}

impl TreeModel {
    /// The model's own invariant: entries in strictly increasing path order.
    pub open spec fn wf(&self) -> bool {
        sorted(self.entries())
    }

    /// An empty tree: nothing listed, nothing open, nothing selected.
    pub fn new() -> (r: TreeModel)
        ensures
            r.wf(),
            r.entries() == Seq::<FileEntry>::empty(),
            r.loaded() == Seq::<String>::empty(),
            r.expanded() == Seq::<String>::empty(),
            r.selection() is None,
            r.counts() == (0usize, 0usize),
    {
        TreeModel {
            entries: Vec::new(),
            loaded: Vec::new(),
            expanded: Vec::new(),
            selected: None,
            events_seen: 0,
            applied: 0,
        }
    }

    /// Fold a `FilesTree` answer in: the levels the listing covers are
    /// replaced by what the engine sent (so a re-list drops what vanished),
    /// everything else stays, and the listed directories count as loaded.
    pub fn apply_tree(&mut self, tree: &FileTree)
        requires
            old(self).wf(),
        ensures
            final(self).wf(),
            forall|p: Seq<char>|
                #![trigger lookup(final(self).entries(), p)]
                lookup(final(self).entries(), p) == match tree_lookup(tree.entries@, p) {
                    Some(v) => Some(v),
                    None => if survives_listing(tree.path@, tree.entries@, p) {
                        lookup(old(self).entries(), p)
                    } else {
                        None
                    },
                },
            forall|d: Seq<char>|
                #[trigger] has_name(final(self).loaded(), d) == (has_name(old(self).loaded(), d)
                    || listed(tree.path@, tree.entries@, d)),
            final(self).expanded() == old(self).expanded(),
            final(self).selection() == old(self).selection(),
            final(self).counts() == old(self).counts(),
    {
        let ts = &tree.entries;
        let dir = chars_of(tree.path.as_str());
        let mut lv: Vec<Vec<char>> = Vec::new();
        lv.push(slice_of(dir.as_slice(), 0, dir.len()));
        assert(lv@[0]@ =~= tree.path@);
        let mut j: usize = 0;
        while j < ts.len()
            invariant
                j <= ts@.len(),
                dir@ == tree.path@,
                forall|d: Seq<char>|
                    #[trigger] in_list(lv@, d) == (d
                        == tree.path@ || exists|i: int|
                        0 <= i < j && (#[trigger] ts@[i]).kind == FileKind::Dir
                            && !ts@[i].has_children && ts@[i].path@ == d),
            decreases ts@.len() - j,
        {
            let ghost before = lv@;
            if ts[j].kind == FileKind::Dir && !ts[j].has_children {
                lv.push(chars_of(ts[j].path.as_str()));
            }
            proof {
                assert forall|d: Seq<char>|
                    #[trigger] in_list(lv@, d) == (d
                        == tree.path@ || exists|i: int|
                        0 <= i < j + 1 && (#[trigger] ts@[i]).kind == FileKind::Dir
                            && !ts@[i].has_children && ts@[i].path@ == d) by {
                    if in_list(lv@, d) {
                        let k = choose|k: int| 0 <= k < lv@.len() && (#[trigger] lv@[k])@ == d;
                        if k < before.len() {
                            assert(before[k] == lv@[k]);
                        }
                    }
                    if in_list(before, d) {
                        let k = choose|k: int| 0 <= k < before.len() && (#[trigger] before[k])@ == d;
                        assert(before[k] == lv@[k]);
                    }
                    if d == ts@[j as int].path@ && ts@[j as int].kind == FileKind::Dir
                        && !ts@[j as int].has_children {
                        assert(lv@[lv@.len() - 1]@ == d);
                    }
                }
            }
            j += 1;
        }
        let es = &self.entries;
        let mut flags: Vec<bool> = Vec::new();
        let mut i: usize = 0;
        while i < es.len()
            invariant
                i <= es@.len(),
                dir@ == tree.path@,
                flags@.len() == i,
                forall|d: Seq<char>|
                    #[trigger] in_list(lv@, d) == listed(
                        tree.path@,
                        ts@,
                        d,
                    ),
                forall|k: int|
                    0 <= k < i ==> #[trigger] flags@[k] == survives_listing(
                        tree.path@,
                        ts@,
                        es@[k].path@,
                    ),
            decreases es@.len() - i,
        {
            let p = chars_of(es[i].path.as_str());
            let parent = parent_chars(p.as_slice());
            let keep = !is_under_exec(p.as_slice(), dir.as_slice()) || !any_eq(&lv, parent.as_slice());
            flags.push(keep);
            i += 1;
        }
        let ghost keep = |p: Seq<char>| survives_listing(tree.path@, ts@, p);
        let mut kept = retain_paths(es, &flags, Ghost(keep));
        let ghost filtered = kept@;
        let mut j: usize = 0;
        while j < ts.len()
            invariant
                j <= ts@.len(),
                sorted(kept@),
                forall|p: Seq<char>|
                    #![trigger lookup(kept@, p)]
                    lookup(kept@, p) == match tree_lookup(ts@.take(j as int), p) {
                        Some(v) => Some(v),
                        None => lookup(filtered, p),
                    },
                forall|p: Seq<char>|
                    #![trigger lookup(filtered, p)]
                    lookup(filtered, p) == if keep(p) {
                        lookup(self.entries@, p)
                    } else {
                        None
                    },
            decreases ts@.len() - j,
        {
            proof {
                lemma_take_last(ts@, j as int);
            }
            upsert(&mut kept, ts[j].copy());
            j += 1;
        }
        assert(ts@.take(ts@.len() as int) == ts@);
        self.entries = kept;
        let ghost ne = self.entries@;
        let mut k: usize = 0;
        while k < lv.len()
            invariant
                k <= lv@.len(),
                self.entries@ == ne,
                self.expanded@ == old(self).expanded@,
                self.selected == old(self).selected,
                self.events_seen == old(self).events_seen,
                self.applied == old(self).applied,
                forall|d: Seq<char>|
                    #[trigger] in_list(lv@, d) == listed(
                        tree.path@,
                        ts@,
                        d,
                    ),
                forall|d: Seq<char>|
                    #[trigger] has_name(self.loaded@, d) == (has_name(old(self).loaded@, d)
                        || exists|m: int| 0 <= m < k && (#[trigger] lv@[m])@ == d),
            decreases lv@.len() - k,
        {
            let ghost before = self.loaded@;
            add_name(&mut self.loaded, lv[k].as_slice());
            proof {
                assert forall|d: Seq<char>|
                    #[trigger] has_name(self.loaded@, d) == (has_name(old(self).loaded@, d)
                        || exists|m: int| 0 <= m < k + 1 && (#[trigger] lv@[m])@ == d) by {
                    if d == lv@[k as int]@ {
                    }
                    if exists|m: int| 0 <= m < k + 1 && (#[trigger] lv@[m])@ == d {
                        let m = choose|m: int| 0 <= m < k + 1 && (#[trigger] lv@[m])@ == d;
                        if m < k {
                        }
                    }
                }
            }
            k += 1;
        }
        proof {
            assert forall|d: Seq<char>|
                #[trigger] has_name(self.loaded@, d) == (has_name(old(self).loaded@, d) || listed(
                    tree.path@,
                    ts@,
                    d,
                )) by {
                assert(in_list(lv@, d) == listed(tree.path@, ts@, d));
            }
        }
    }
}

/// What a watch event says happened.
#[derive(Debug, Clone, Copy, PartialEq, Eq, Structural)]
pub enum FileEventKind {
    Create,
    Delete,
    Rename,
    Modify,
}

/// One change the engine's file watch reported.
#[derive(Debug, Clone, PartialEq, Eq)]
pub struct FileEvent {
    pub kind: FileEventKind,
    pub path: String,
    /// The old path of a rename.
    pub from: Option<String>,
}

/// One `FilesWatch` batch.
#[derive(Debug, Clone, PartialEq, Eq)]
pub struct FileWatchBatch {
    pub seq: u64,
    pub events: Vec<FileEvent>,
    /// Too much changed to report one by one.
    pub truncated: bool,
}

/// The model as a map and two sets.
pub struct TreeState {
    pub entries: spec_fn(Seq<char>) -> Option<EntryView>,
    pub loaded: spec_fn(Seq<char>) -> bool,
    pub expanded: spec_fn(Seq<char>) -> bool,
}

/// What a created path is taken to be until a re-list says otherwise: a file.
pub open spec fn placeholder(p: Seq<char>) -> EntryView {
    EntryView { path: p, kind: FileKind::File, status: seq!['?'], has_children: false, size: 0 }
}

/// A created path appears, when its directory is loaded and it is new.
pub open spec fn put_placeholder(s: TreeState, p: Seq<char>) -> TreeState {
    if (s.entries)(p) is Some || !(s.loaded)(parent_of(p)) {
        s
    } else {
        TreeState {
            entries: |q: Seq<char>|
                if q == p {
                    Some(placeholder(p))
                } else {
                    (s.entries)(q)
                },
            loaded: s.loaded,
            expanded: s.expanded,
        }
    }
}

/// Keeps `q` when dropping the subtree at `p`.
pub open spec fn outside(q: Seq<char>, p: Seq<char>) -> bool {
    q != p && !is_under(q, p)
}

/// A deleted path goes, with everything under it.
pub open spec fn drop_subtree(s: TreeState, p: Seq<char>) -> TreeState {
    TreeState {
        entries: |q: Seq<char>|
            if outside(q, p) {
                (s.entries)(q)
            } else {
                None
            },
        loaded: |q: Seq<char>| (s.loaded)(q) && outside(q, p),
        expanded: |q: Seq<char>| (s.expanded)(q) && outside(q, p),
    }
}

/// One event, applied in place: a rename is a delete and a create.
pub open spec fn apply_event(s: TreeState, ev: FileEvent) -> TreeState {
    match ev.kind {
        FileEventKind::Create => put_placeholder(s, ev.path@),
        FileEventKind::Delete => drop_subtree(s, ev.path@),
        FileEventKind::Rename => {
            let s1 = match ev.from {
                Some(f) => drop_subtree(s, f@),
                None => s,
            };
            put_placeholder(s1, ev.path@)
        },
        FileEventKind::Modify => s,
    }
}

pub open spec fn apply_events(s: TreeState, evs: Seq<FileEvent>) -> TreeState
    decreases evs.len(),
{
    if evs.len() == 0 {
        s
    } else {
        apply_event(apply_events(s, evs.drop_last()), evs.last())
    }
}

/// Add the directory of `n` to a refresh list, if it was loaded and is new.
pub open spec fn note(r: Seq<Seq<char>>, loaded: spec_fn(Seq<char>) -> bool, n: Seq<char>) -> Seq<Seq<char>> {
    if loaded(parent_of(n)) && !r.contains(parent_of(n)) {
        r.push(parent_of(n))
    } else {
        r
    }
}

/// The directories one event asks to re-list.
pub open spec fn note_event(r: Seq<Seq<char>>, loaded: spec_fn(Seq<char>) -> bool, ev: FileEvent) -> Seq<Seq<char>> {
    match ev.kind {
        FileEventKind::Rename => {
            let r1 = match ev.from {
                Some(f) => note(r, loaded, f@),
                None => r,
            };
            note(r1, loaded, ev.path@)
        },
        _ => note(r, loaded, ev.path@),
    }
}

/// The directories a run of events asks to re-list, in first-asked order.
pub open spec fn refresh_of(loaded: spec_fn(Seq<char>) -> bool, evs: Seq<FileEvent>) -> Seq<Seq<char>>
    decreases evs.len(),
{
    if evs.len() == 0 {
        seq![]
    } else {
        note_event(refresh_of(loaded, evs.drop_last()), loaded, evs.last())
    }
}

/// The model reads as state `s`.
pub open spec fn agrees(es: Seq<FileEntry>, loaded: Seq<String>, expanded: Seq<String>, s: TreeState) -> bool {
    &&& forall|p: Seq<char>| #[trigger] lookup(es, p) == (s.entries)(p)
    &&& forall|p: Seq<char>| #[trigger] has_name(loaded, p) == (s.loaded)(p)
    &&& forall|p: Seq<char>| #[trigger] has_name(expanded, p) == (s.expanded)(p)
}

/// Keep the names `keep` accepts.
fn retain_names(v: &Vec<String>, keep: Ghost<spec_fn(Seq<char>) -> bool>, p: &[char]) -> (r: Vec<String>)
    requires
        forall|q: Seq<char>| #[trigger] keep@(q) == outside(q, p@),
    ensures
        forall|d: Seq<char>| #[trigger] has_name(r@, d) == (has_name(v@, d) && keep@(d)),
{
    let mut r: Vec<String> = Vec::new();
    let mut i: usize = 0;
    while i < v.len()
        invariant
            i <= v@.len(),
            forall|q: Seq<char>| #[trigger] keep@(q) == outside(q, p@),
            forall|d: Seq<char>|
                #[trigger] has_name(r@, d) == (has_name(v@.take(i as int), d) && keep@(d)),
        decreases v@.len() - i,
    {
        let c = chars_of(v[i].as_str());
        let ghost before = r@;
        let keep_it = !chars_eq(c.as_slice(), p) && !is_under_exec(c.as_slice(), p);
        if keep_it {
            r.push(v[i].clone());
        }
        proof {
            assert forall|d: Seq<char>|
                #[trigger] has_name(r@, d) == (has_name(v@.take(i + 1), d) && keep@(d)) by {
                if has_name(v@.take(i + 1), d) {
                    let k = choose|k: int| 0 <= k < i + 1 && (#[trigger] v@.take(i + 1)[k])@ == d;
                    if k < i {
                        assert(v@.take(i as int)[k] == v@.take(i + 1)[k]);
                    }
                }
                if has_name(v@.take(i as int), d) {
                    let k = choose|k: int| 0 <= k < i && (#[trigger] v@.take(i as int)[k])@ == d;
                    assert(v@.take(i as int)[k] == v@.take(i + 1)[k]);
                }
                if has_name(r@, d) {
                    let k = choose|k: int| 0 <= k < r@.len() && (#[trigger] r@[k])@ == d;
                    if k < before.len() {
                        assert(before[k] == r@[k]);
                    }
                }
                if has_name(before, d) {
                    let k = choose|k: int| 0 <= k < before.len() && (#[trigger] before[k])@ == d;
                    assert(before[k] == r@[k]);
                }
                if keep_it && d == v@[i as int]@ {
                    assert(r@[r@.len() - 1]@ == d);
                    assert(v@.take(i + 1)[i as int] == v@[i as int]);
                }
            }
        }
        i += 1;
    }
    assert(v@.take(v@.len() as int) == v@);
    r
}

impl TreeModel {
    /// The model as a map and two sets.
    pub open spec fn state(&self) -> TreeState {
        TreeState {
            entries: |p: Seq<char>| lookup(self.entries(), p),
            loaded: |p: Seq<char>| has_name(self.loaded(), p),
            expanded: |p: Seq<char>| has_name(self.expanded(), p),
        }
    }

    /// Drop `path` and everything under it, from the entries and from the
    /// loaded and open sets.
    fn remove_subtree(&mut self, path: &[char])
        requires
            old(self).wf(),
        ensures
            final(self).wf(),
            agrees(
                final(self).entries(),
                final(self).loaded(),
                final(self).expanded(),
                drop_subtree(old(self).state(), path@),
            ),
            final(self).selection() == old(self).selection(),
            final(self).counts() == old(self).counts(),
    {
        let ghost keep = |q: Seq<char>| outside(q, path@);
        let es = &self.entries;
        let mut flags: Vec<bool> = Vec::new();
        let mut i: usize = 0;
        while i < es.len()
            invariant
                i <= es@.len(),
                flags@.len() == i,
                forall|q: Seq<char>| #[trigger] keep(q) == outside(q, path@),
                forall|k: int| 0 <= k < i ==> #[trigger] flags@[k] == keep(es@[k].path@),
            decreases es@.len() - i,
        {
            let c = chars_of(es[i].path.as_str());
            flags.push(!chars_eq(c.as_slice(), path) && !is_under_exec(c.as_slice(), path));
            i += 1;
        }
        let kept = retain_paths(es, &flags, Ghost(keep));
        let loaded = retain_names(&self.loaded, Ghost(keep), path);
        let expanded = retain_names(&self.expanded, Ghost(keep), path);
        self.entries = kept;
        self.loaded = loaded;
        self.expanded = expanded;
    }

    /// Add a placeholder for a created path, when its directory is listed
    /// and the path is new.
    fn upsert_placeholder(&mut self, path: &[char])
        requires
            old(self).wf(),
        ensures
            final(self).wf(),
            agrees(
                final(self).entries(),
                final(self).loaded(),
                final(self).expanded(),
                put_placeholder(old(self).state(), path@),
            ),
            final(self).selection() == old(self).selection(),
            final(self).counts() == old(self).counts(),
    {
        let paths = paths_of(&self.entries);
        proof {
            lemma_index_of_path(self.entries@, path@);
        }
        if index_of_path_exec(&self.entries, &paths, path).is_some() {
            return;
        }
        let parent = parent_chars(path);
        let ld = chars_of_all(&self.loaded);
        if !name_in(Ghost(self.loaded@), &ld, parent.as_slice()) {
            return;
        }
        let mut status: Vec<char> = Vec::new();
        status.push('?');
        let e = FileEntry {
            path: string_of(path),
            kind: FileKind::File,
            status: string_of(status.as_slice()),
            has_children: false,
            size: 0,
        };
        assert(status@ =~= seq!['?']);
        upsert(&mut self.entries, e);
    }
}

/// The model's parts, as a map and two sets.
pub open spec fn state_of(es: Seq<FileEntry>, loaded: Seq<String>, expanded: Seq<String>) -> TreeState {
    TreeState {
        entries: |p: Seq<char>| lookup(es, p),
        loaded: |p: Seq<char>| has_name(loaded, p),
        expanded: |p: Seq<char>| has_name(expanded, p),
    }
}

proof fn lemma_agrees_state(es: Seq<FileEntry>, loaded: Seq<String>, expanded: Seq<String>, s: TreeState)
    requires
        agrees(es, loaded, expanded, s),
    ensures
        state_of(es, loaded, expanded) == s,
{
    let t = state_of(es, loaded, expanded);
    assert(t.entries =~= s.entries);
    assert(t.loaded =~= s.loaded);
    assert(t.expanded =~= s.expanded);
}

/// Add the directory of `n` to the refresh list, if it was loaded and is new.
fn note_exec(
    refresh: &mut Vec<Vec<char>>,
    loaded: Ghost<Seq<String>>,
    ld: &Vec<Vec<char>>,
    n: &[char],
)
    requires
        names_match(loaded@, ld@),
    ensures
        chars_view(final(refresh)@) == note(
            chars_view(old(refresh)@),
            |p: Seq<char>| has_name(loaded@, p),
            n@,
        ),
{
    let parent = parent_chars(n);
    let ghost before = chars_view(refresh@);
    let present = any_eq(refresh, parent.as_slice());
    proof {
        if before.contains(parent@) {
            let k = choose|k: int| 0 <= k < before.len() && before[k] == parent@;
            assert(refresh@[k]@ == parent@);
        }
        if present {
            let k = choose|k: int| 0 <= k < refresh@.len() && (#[trigger] refresh@[k])@ == parent@;
            assert(before[k] == parent@);
        }
    }
    if name_in(loaded, ld, parent.as_slice()) && !present {
        refresh.push(parent);
        assert(chars_view(refresh@) == before.push(parent@));
    }
}

impl TreeModel {
    /// Fold a watch batch in. Creates and deletes are applied in place; a
    /// rename is a delete plus a create. Returns the directories whose
    /// listing should be refreshed: each once, only ones loaded before the
    /// batch, in the order first asked; a truncated batch asks for every
    /// loaded directory too. A selection whose path went is dropped.
    pub fn apply_watch(&mut self, batch: &FileWatchBatch) -> (r: Vec<String>)
        requires
            old(self).wf(),
            old(self).counts().0 + batch.events@.len() <= usize::MAX,
            old(self).counts().1 + batch.events@.len() <= usize::MAX,
        ensures
            final(self).wf(),
            agrees(
                final(self).entries(),
                final(self).loaded(),
                final(self).expanded(),
                apply_events(old(self).state(), batch.events@),
            ),
            final(self).counts() == (
                (old(self).counts().0 + batch.events@.len()) as usize,
                (old(self).counts().1 + batch.events@.len()) as usize,
            ),
            !batch.truncated ==> strs_view(r@) == refresh_of(
                old(self).state().loaded,
                batch.events@,
            ),
            batch.truncated ==> strs_view(r@).take(
                refresh_of(old(self).state().loaded, batch.events@).len() as int,
            ) == refresh_of(old(self).state().loaded, batch.events@),
            batch.truncated ==> strs_view(r@).no_duplicates(),
            batch.truncated ==> forall|d: Seq<char>|
                #[trigger] strs_view(r@).contains(d) == (refresh_of(
                    old(self).state().loaded,
                    batch.events@,
                ).contains(d) || has_name(final(self).loaded(), d)),
            final(self).selection() == match old(self).selection() {
                Some(sel) => if lookup(final(self).entries(), sel@) is Some {
                    Some(sel)
                } else {
                    None
                },
                None => None,
            },
    {
        let ghost s0 = self.state();
        let ghost l0 = s0.loaded;
        let old_ld = chars_of_all(&self.loaded);
        let ghost old_loaded = self.loaded@;
        let evs = &batch.events;
        let mut refresh: Vec<Vec<char>> = Vec::new();
        let mut i: usize = 0;
        proof {
            assert(evs@.take(0) == Seq::<FileEvent>::empty());
            assert(agrees(self.entries@, self.loaded@, self.expanded@, s0));
        }
        while i < evs.len()
            invariant
                i <= evs@.len(),
                self.wf(),
                names_match(old_loaded, old_ld@),
                l0 == (|p: Seq<char>| has_name(old_loaded, p)),
                agrees(
                    self.entries@,
                    self.loaded@,
                    self.expanded@,
                    apply_events(s0, evs@.take(i as int)),
                ),
                chars_view(refresh@) == refresh_of(l0, evs@.take(i as int)),
                self.events_seen == old(self).events_seen + i,
                self.applied == old(self).applied + i,
                old(self).events_seen + evs@.len() <= usize::MAX,
                old(self).applied + evs@.len() <= usize::MAX,
                self.selected == old(self).selected,
            decreases evs@.len() - i,
        {
            proof {
                lemma_take_last(evs@, i as int);
                lemma_agrees_state(
                    self.entries@,
                    self.loaded@,
                    self.expanded@,
                    apply_events(s0, evs@.take(i as int)),
                );
            }
            let ev = &evs[i];
            self.events_seen += 1;
            let path = chars_of(ev.path.as_str());
            match ev.kind {
                FileEventKind::Create => {
                    self.upsert_placeholder(path.as_slice());
                    note_exec(&mut refresh, Ghost(old_loaded), &old_ld, path.as_slice());
                },
                FileEventKind::Delete => {
                    self.remove_subtree(path.as_slice());
                    note_exec(&mut refresh, Ghost(old_loaded), &old_ld, path.as_slice());
                },
                FileEventKind::Rename => {
                    match &ev.from {
                        Some(from) => {
                            let f = chars_of(from.as_str());
                            self.remove_subtree(f.as_slice());
                            note_exec(&mut refresh, Ghost(old_loaded), &old_ld, f.as_slice());
                            proof {
                                lemma_agrees_state(
                                    self.entries@,
                                    self.loaded@,
                                    self.expanded@,
                                    drop_subtree(apply_events(s0, evs@.take(i as int)), f@),
                                );
                            }
                        },
                        None => {},
                    }
                    self.upsert_placeholder(path.as_slice());
                    note_exec(&mut refresh, Ghost(old_loaded), &old_ld, path.as_slice());
                },
                FileEventKind::Modify => {
                    note_exec(&mut refresh, Ghost(old_loaded), &old_ld, path.as_slice());
                },
            }
            self.applied += 1;
            i += 1;
        }
        proof {
            assert(evs@.take(evs@.len() as int) == evs@);
        }
        let ghost notes = chars_view(refresh@);
        if batch.truncated {
            proof {
                lemma_refresh_distinct(l0, evs@);
            }
            let ld = chars_of_all(&self.loaded);
            let mut k: usize = 0;
            while k < ld.len()
                invariant
                    k <= ld@.len(),
                    names_match(self.loaded@, ld@),
                    refresh@.len() >= notes.len(),
                    chars_view(refresh@).take(notes.len() as int) == notes,
                    chars_view(refresh@).no_duplicates(),
                    forall|d: Seq<char>|
                        #[trigger] chars_view(refresh@).contains(d) == (
                        notes.contains(d) || exists|m: int| 0 <= m < k && ld@[m]@ == d),
                decreases ld@.len() - k,
            {
                let ghost before = chars_view(refresh@);
                let present = any_eq(&refresh, ld[k].as_slice());
                proof {
                    if before.contains(ld@[k as int]@) {
                        let m = choose|m: int| 0 <= m < before.len() && before[m] == ld@[k as int]@;
                        assert(refresh@[m]@ == ld@[k as int]@);
                    }
                    if present {
                        let m = choose|m: int|
                            0 <= m < refresh@.len() && (#[trigger] refresh@[m])@ == ld@[k as int]@;
                        assert(before[m] == ld@[k as int]@);
                    }
                }
                if !present {
                    let copy = slice_of(ld[k].as_slice(), 0, ld[k].len());
                    refresh.push(copy);
                    proof {
                        assert(copy@ =~= ld@[k as int]@);
                        assert(chars_view(refresh@) =~= before.push(ld@[k as int]@));
                        assert(before.take(notes.len() as int) == notes);
                        assert(before.push(ld@[k as int]@).take(notes.len() as int) =~= before.take(
                            notes.len() as int,
                        ));
                    }
                }
                proof {
                    let after = chars_view(refresh@);
                    assert forall|d: Seq<char>| #[trigger]
                        after.contains(d) == (notes.contains(d) || exists|m: int|
                            0 <= m < k + 1 && ld@[m]@ == d) by {
                        if after.contains(d) && !before.contains(d) {
                            let m = choose|m: int| 0 <= m < after.len() && after[m] == d;
                            assert(m == before.len());
                        }
                        if before.contains(d) {
                            let m = choose|m: int| 0 <= m < before.len() && before[m] == d;
                            assert(after[m] == d);
                        }
                        if exists|m: int| 0 <= m < k + 1 && ld@[m]@ == d {
                            let m = choose|m: int| 0 <= m < k + 1 && ld@[m]@ == d;
                            if m == k && !present {
                                assert(after[after.len() - 1] == d);
                            }
                        }
                    }
                }
                k += 1;
            }
            proof {
                assert forall|d: Seq<char>|
                    (exists|m: int| 0 <= m < ld@.len() && ld@[m]@ == d) == has_name(
                        self.loaded@,
                        d,
                    ) by {
                    if has_name(self.loaded@, d) {
                        let m = choose|m: int| 0 <= m < self.loaded@.len() && (#[trigger] self.loaded@[m])@ == d;
                        assert(ld@[m]@ == d);
                    }
                }
            }
        }
        match &self.selected {
            Some(sel) => {
                let paths = paths_of(&self.entries);
                let sc = chars_of(sel.as_str());
                proof {
                    lemma_index_of_path(self.entries@, sc@);
                }
                if index_of_path_exec(&self.entries, &paths, sc.as_slice()).is_none() {
                    self.selected = None;
                }
            },
            None => {},
        }
        let mut out: Vec<String> = Vec::new();
        let mut j: usize = 0;
        while j < refresh.len()
            invariant
                j <= refresh@.len(),
                strs_view(out@) == chars_view(refresh@).take(
                    j as int,
                ),
            decreases refresh@.len() - j,
        {
            let ghost before = strs_view(out@);
            let st = string_of(refresh[j].as_slice());
            out.push(st);
            proof {
                assert(strs_view(out@) =~= before.push(st@));
                assert(chars_view(refresh@).take(j + 1) =~= chars_view(refresh@).take(j as int).push(
                    refresh@[j as int]@,
                ));
            }
            j += 1;
        }
        proof {
            assert(chars_view(refresh@).take(refresh@.len() as int)
                == chars_view(refresh@));
        }
        out
    }
}

proof fn lemma_note_distinct(r: Seq<Seq<char>>, loaded: spec_fn(Seq<char>) -> bool, n: Seq<char>)
    requires
        r.no_duplicates(),
    ensures
        note(r, loaded, n).no_duplicates(),
{
}

/// The refresh list never names a directory twice.
proof fn lemma_refresh_distinct(loaded: spec_fn(Seq<char>) -> bool, evs: Seq<FileEvent>)
    ensures
        refresh_of(loaded, evs).no_duplicates(),
    decreases evs.len(),
{
    if evs.len() > 0 {
        lemma_refresh_distinct(loaded, evs.drop_last());
        let r = refresh_of(loaded, evs.drop_last());
        let ev = evs.last();
        match ev.kind {
            FileEventKind::Rename => {
                let r1 = match ev.from {
                    Some(f) => note(r, loaded, f@),
                    None => r,
                };
                match ev.from {
                    Some(f) => lemma_note_distinct(r, loaded, f@),
                    None => {},
                }
                lemma_note_distinct(r1, loaded, ev.path@);
            },
            _ => lemma_note_distinct(r, loaded, ev.path@),
        }
    }
}

/// Every copy of `d` taken out of a set of names.
fn remove_name(v: &mut Vec<String>, d: &[char])
    ensures
        forall|x: Seq<char>| #[trigger] has_name(final(v)@, x) == (has_name(old(v)@, x) && x != d@),
{
    let mut r: Vec<String> = Vec::new();
    let mut i: usize = 0;
    while i < v.len()
        invariant
            i <= v@.len(),
            forall|x: Seq<char>|
                #[trigger] has_name(r@, x) == (has_name(v@.take(i as int), x) && x != d@),
        decreases v@.len() - i,
    {
        let c = chars_of(v[i].as_str());
        let ghost before = r@;
        let keep_it = !chars_eq(c.as_slice(), d);
        if keep_it {
            r.push(v[i].clone());
        }
        proof {
            assert forall|x: Seq<char>|
                #[trigger] has_name(r@, x) == (has_name(v@.take(i + 1), x) && x != d@) by {
                if has_name(v@.take(i + 1), x) {
                    let k = choose|k: int| 0 <= k < i + 1 && (#[trigger] v@.take(i + 1)[k])@ == x;
                    if k < i {
                        assert(v@.take(i as int)[k] == v@.take(i + 1)[k]);
                    }
                }
                if has_name(v@.take(i as int), x) {
                    let k = choose|k: int| 0 <= k < i && (#[trigger] v@.take(i as int)[k])@ == x;
                    assert(v@.take(i as int)[k] == v@.take(i + 1)[k]);
                }
                if has_name(r@, x) {
                    let k = choose|k: int| 0 <= k < r@.len() && (#[trigger] r@[k])@ == x;
                    if k < before.len() {
                        assert(before[k] == r@[k]);
                    }
                }
                if has_name(before, x) {
                    let k = choose|k: int| 0 <= k < before.len() && (#[trigger] before[k])@ == x;
                    assert(before[k] == r@[k]);
                }
                if keep_it && x == v@[i as int]@ {
                    assert(r@[r@.len() - 1]@ == x);
                    assert(v@.take(i + 1)[i as int] == v@[i as int]);
                }
            }
        }
        i += 1;
    }
    assert(v@.take(v@.len() as int) == v@);
    *v = r;
}

/// The first row at path `p`.
pub open spec fn row_position(rows: Seq<Row>, p: Seq<char>) -> Option<int>
    decreases rows.len(),
{
    if rows.len() == 0 {
        None
    } else {
        match row_position(rows.drop_last(), p) {
            Some(i) => Some(i),
            None => if rows.last().path@ == p {
                Some(rows.len() - 1)
            } else {
                None
            },
        }
    }
}

/// `x` held to `lo..=hi`.
pub open spec fn clamp(x: int, lo: int, hi: int) -> int {
    if x < lo {
        lo
    } else if x > hi {
        hi
    } else {
        x
    }
}

/// The row a selection move lands on: the first or last row when nothing
/// is selected (by direction), otherwise `delta` rows on, held to the list.
pub open spec fn next_row(rows: Seq<Row>, selected: Option<Seq<char>>, delta: int) -> int {
    match (match selected {
        Some(s) => row_position(rows, s),
        None => None,
    }) {
        None => if delta >= 0 {
            0
        } else {
            rows.len() - 1
        },
        Some(i) => clamp(i + delta, 0, rows.len() - 1),
    }
}

pub proof fn lemma_row_position(rows: Seq<Row>, p: Seq<char>)
    ensures
        row_position(rows, p) matches Some(i) ==> 0 <= i < rows.len(),
    decreases rows.len(),
{
    if rows.len() > 0 {
        lemma_row_position(rows.drop_last(), p);
    }
}

impl TreeModel {
    /// The selected path, if any.
    pub fn selected_path(&self) -> (r: Option<&str>)
        ensures
            match r {
                Some(s) => self.selection() matches Some(t) && s@ == t@,
                None => self.selection() is None,
            },
    {
        match &self.selected {
            Some(s) => Some(s.as_str()),
            None => None,
        }
    }

    /// Whether `dir`'s children have been listed.
    pub fn is_loaded(&self, dir: &str) -> (r: bool)
        ensures
            r == has_name(self.loaded(), dir@),
    {
        let ld = chars_of_all(&self.loaded);
        name_in(Ghost(self.loaded@), &ld, chars_of(dir).as_slice())
    }

    /// Whether `dir` is open.
    pub fn is_expanded(&self, dir: &str) -> (r: bool)
        ensures
            r == has_name(self.expanded(), dir@),
    {
        let ex = chars_of_all(&self.expanded);
        name_in(Ghost(self.expanded@), &ex, chars_of(dir).as_slice())
    }

    /// The entry at `path`.
    pub fn entry(&self, path: &str) -> (r: Option<&FileEntry>)
        ensures
            r matches Some(e) ==> lookup(self.entries(), path@) == Some(e@),
            r is None ==> lookup(self.entries(), path@) is None,
    {
        let paths = paths_of(&self.entries);
        let p = chars_of(path);
        proof {
            lemma_index_of_path(self.entries@, p@);
        }
        match index_of_path_exec(&self.entries, &paths, p.as_slice()) {
            Some(i) => Some(&self.entries[i]),
            None => None,
        }
    }

    /// Open a closed directory or close an open one. True when it is now
    /// open and its children still need listing.
    pub fn toggle(&mut self, dir: &str) -> (r: bool)
        ensures
            r == (!has_name(old(self).expanded(), dir@) && !has_name(old(self).loaded(), dir@)),
            forall|x: Seq<char>|
                #[trigger] has_name(final(self).expanded(), x) == if x == dir@ {
                    !has_name(old(self).expanded(), dir@)
                } else {
                    has_name(old(self).expanded(), x)
                },
            final(self).entries() == old(self).entries(),
            final(self).loaded() == old(self).loaded(),
            final(self).selection() == old(self).selection(),
            final(self).counts() == old(self).counts(),
    {
        let d = chars_of(dir);
        if self.is_expanded(dir) {
            remove_name(&mut self.expanded, d.as_slice());
            false
        } else {
            add_name(&mut self.expanded, d.as_slice());
            !self.is_loaded(dir)
        }
    }

    /// Open `dir`. True when it was closed and its children still need
    /// listing.
    pub fn expand(&mut self, dir: &str) -> (r: bool)
        ensures
            r == (!has_name(old(self).expanded(), dir@) && !has_name(old(self).loaded(), dir@)),
            forall|x: Seq<char>|
                #[trigger] has_name(final(self).expanded(), x) == (has_name(
                    old(self).expanded(),
                    x,
                ) || x == dir@),
            final(self).entries() == old(self).entries(),
            final(self).loaded() == old(self).loaded(),
            final(self).selection() == old(self).selection(),
            final(self).counts() == old(self).counts(),
    {
        if self.is_expanded(dir) {
            return false;
        }
        let d = chars_of(dir);
        add_name(&mut self.expanded, d.as_slice());
        !self.is_loaded(dir)
    }

    /// Select `path`, or nothing.
    pub fn select(&mut self, path: Option<String>)
        ensures
            final(self).selection() == path,
            final(self).entries() == old(self).entries(),
            final(self).loaded() == old(self).loaded(),
            final(self).expanded() == old(self).expanded(),
            final(self).counts() == old(self).counts(),
    {
        self.selected = path;
    }

    /// Close `dir`.
    pub fn collapse(&mut self, dir: &str)
        ensures
            forall|x: Seq<char>|
                #[trigger] has_name(final(self).expanded(), x) == (has_name(
                    old(self).expanded(),
                    x,
                ) && x != dir@),
            final(self).entries() == old(self).entries(),
            final(self).loaded() == old(self).loaded(),
            final(self).selection() == old(self).selection(),
            final(self).counts() == old(self).counts(),
    {
        let d = chars_of(dir);
        remove_name(&mut self.expanded, d.as_slice());
    }

    /// Move the selection by `delta` rows; returns the new selection.
    pub fn move_selection(&mut self, rows: &[Row], delta: isize) -> (r: Option<String>)
        ensures
            rows@.len() == 0 ==> r is None,
            rows@.len() > 0 ==> (r matches Some(s) && s@ == rows@[next_row(
                rows@,
                match old(self).selection() {
                    Some(s) => Some(s@),
                    None => None,
                },
                delta as int,
            )].path@),
            final(self).selection() == r,
            final(self).entries() == old(self).entries(),
            final(self).loaded() == old(self).loaded(),
            final(self).expanded() == old(self).expanded(),
            final(self).counts() == old(self).counts(),
    {
        if rows.len() == 0 {
            self.selected = None;
            return None;
        }
        let n = rows.len();
        let current: Option<usize> = match &self.selected {
            Some(sel) => row_position_exec(rows, chars_of(sel.as_str()).as_slice()),
            None => None,
        };
        proof {
            lemma_row_position(rows@, match old(self).selection() {
                Some(s) => s@,
                None => seq![],
            });
        }
        let next: usize = match current {
            None => if delta >= 0 {
                0
            } else {
                n - 1
            },
            Some(i) => {
                let t: i128 = (i as i128) + (delta as i128);
                let last: i128 = (n - 1) as i128;
                if t < 0 {
                    0
                } else if t > last {
                    n - 1
                } else {
                    t as usize
                }
            },
        };
        let ghost sv = match old(self).selection() {
            Some(s) => Some(s@),
            None => None,
        };
        proof {
            match &self.selected {
                Some(sel) => {
                    assert(sv == Some(sel@));
                },
                None => {
                    assert(sv is None);
                },
            }
            match current {
                Some(i) => {
                    assert(row_position(rows@, sv->0) == Some(i as int));
                    assert(i < n);
                },
                None => {
                    assert(sv is None || row_position(rows@, sv->0) is None);
                },
            }
            assert(next as int == next_row(rows@, sv, delta as int));
        }
        let s = rows[next].path.clone();
        self.selected = Some(s.clone());
        Some(s)
    }
}

/// The first row at path `p`.
pub fn row_position_exec(rows: &[Row], p: &[char]) -> (r: Option<usize>)
    ensures
        r matches Some(i) ==> row_position(rows@, p@) == Some(i as int),
        r is None ==> row_position(rows@, p@) is None,
{
    let n = rows.len();
    let mut i: usize = 0;
    while i < n
        invariant
            n == rows@.len(),
            i <= n,
            row_position(rows@.take(i as int), p@) is None,
        decreases n - i,
    {
        proof {
            lemma_take_last(rows@, i as int);
        }
        if chars_eq(chars_of(rows[i].path.as_str()).as_slice(), p) {
            proof {
                lemma_row_position_prefix(rows@, i + 1, p@);
            }
            return Some(i);
        }
        i += 1;
    }
    assert(rows@.take(n as int) == rows@);
    None
}

proof fn lemma_row_position_prefix(rows: Seq<Row>, k: int, p: Seq<char>)
    requires
        0 <= k <= rows.len(),
        row_position(rows.take(k), p) is Some,
    ensures
        row_position(rows, p) == row_position(rows.take(k), p),
    decreases rows.len() - k,
{
    if k < rows.len() {
        assert(rows.drop_last().take(k) == rows.take(k));
        lemma_row_position_prefix(rows.drop_last(), k, p);
    } else {
        assert(rows.take(k) == rows);
    }
}

impl Default for TreeModel {
    fn default() -> (r: TreeModel)
        ensures
            r.wf(),
            r.entries() == Seq::<FileEntry>::empty(),
            r.loaded() == Seq::<String>::empty(),
            r.expanded() == Seq::<String>::empty(),
            r.selection() is None,
            r.counts() == (0usize, 0usize),
    {
        TreeModel::new()
    }
}

/// Moving the selection never leaves the list: whatever was selected and
/// however far it moves, it lands on a row when there is one.
pub proof fn law_selection_stays_on_a_row(rows: Seq<Row>, selected: Option<Seq<char>>, delta: int)
    requires
        rows.len() > 0,
    ensures
        0 <= next_row(rows, selected, delta) < rows.len(),
{
    match selected {
        Some(s) => lemma_row_position(rows, s),
        None => {},
    }
}

/// Toggling a folder twice leaves every folder open or closed as it was.
pub proof fn law_toggle_twice_restores(
    e0: Seq<String>,
    e1: Seq<String>,
    e2: Seq<String>,
    dir: Seq<char>,
)
    requires
        forall|x: Seq<char>|
            #[trigger] has_name(e1, x) == if x == dir {
                !has_name(e0, dir)
            } else {
                has_name(e0, x)
            },
        forall|x: Seq<char>|
            #[trigger] has_name(e2, x) == if x == dir {
                !has_name(e1, dir)
            } else {
                has_name(e1, x)
            },
    ensures
        forall|x: Seq<char>| #[trigger] has_name(e2, x) == has_name(e0, x),
{
    assert forall|x: Seq<char>| #[trigger] has_name(e2, x) == has_name(e0, x) by {
        assert(has_name(e1, dir) == !has_name(e0, dir));
        if x != dir {
            assert(has_name(e1, x) == has_name(e0, x));
        }
    }
}

} // verus!
