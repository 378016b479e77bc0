//! The needs-you list's state and decisions: the reach each row's "Always
//! allow" is set to, the options picked on a multi-select question, the rows
//! whose answer is in flight, and what each row offers to press. Answering
//! hands the engine a command and the next frame drops the row, so the list
//! never guesses what it did.
use vstd::prelude::*;
use crate::inbox::model::{
    inbox_rows, remember_for, row_of_item, scope_label_spec, scope_rule_spec, split_question_id,
    split_question_spec, toggled_spec, AlwaysAllowScope, InboxRow,
};
use crate::proto::{Chat, NeedsYouItem, NeedsYouKind, PermissionDecision, RememberRule, UserInputAnswer};
use crate::text::{append, chars_eq, chars_of, decimal, decimal_chars, owned, string_of, strs_view, trim, trim_chars};

verus! {

/// The value stored last under key `k`.
pub open spec fn lookup_last<V>(v: Seq<(String, V)>, k: Seq<char>) -> Option<V>
    decreases v.len(),
{
    if v.len() == 0 {
        None
    } else if v.last().0@ == k {
        Some(v.last().1)
    } else {
        lookup_last(v.drop_last(), k)
    }
}

proof fn lemma_lookup_found<V>(v: Seq<(String, V)>, i: int)
    requires
        0 <= i < v.len(),
        forall|j: int| i < j < v.len() ==> (#[trigger] v[j]).0@ != v[i].0@,
    ensures
        lookup_last(v, v[i].0@) == Some(v[i].1),
    decreases v.len(),
{
    if i < v.len() - 1 {
        assert(v.last() == v[v.len() - 1]);
        assert forall|j: int| i < j < v.drop_last().len() implies (#[trigger] v.drop_last()[j]).0@
            != v.drop_last()[i].0@ by {
            assert(v.drop_last()[j] == v[j]);
        }
        lemma_lookup_found(v.drop_last(), i);
    }
}

proof fn lemma_lookup_absent<V>(v: Seq<(String, V)>, k: Seq<char>)
    requires
        forall|j: int| 0 <= j < v.len() ==> (#[trigger] v[j]).0@ != k,
    ensures
        lookup_last(v, k) is None,
    decreases v.len(),
{
    if v.len() > 0 {
        assert(v.last() == v[v.len() - 1]);
        assert forall|j: int| 0 <= j < v.drop_last().len() implies (#[trigger] v.drop_last()[j]).0@ != k by {
            assert(v.drop_last()[j] == v[j]);
        }
        lemma_lookup_absent(v.drop_last(), k);
    }
}

proof fn lemma_lookup_update<V>(v: Seq<(String, V)>, i: int, p: (String, V))
    requires
        0 <= i < v.len(),
        p.0@ == v[i].0@,
        forall|j: int| i < j < v.len() ==> (#[trigger] v[j]).0@ != v[i].0@,
    ensures
        forall|k: Seq<char>|
            #[trigger] lookup_last(v.update(i, p), k) == if k == p.0@ {
                Some(p.1)
            } else {
                lookup_last(v, k)
            },
    decreases v.len(),
{
    let w = v.update(i, p);
    assert(w.last() == if i == v.len() - 1 {
        p
    } else {
        v.last()
    });
    if i == v.len() - 1 {
        assert(w.drop_last() =~= v.drop_last());
        assert forall|k: Seq<char>| #[trigger] lookup_last(w, k) == if k == p.0@ {
            Some(p.1)
        } else {
            lookup_last(v, k)
        } by {
            assert(v.last() == v[i]);
        }
    } else {
        assert(w.drop_last() =~= v.drop_last().update(i, p));
        assert forall|j: int| i < j < v.drop_last().len() implies (#[trigger] v.drop_last()[j]).0@
            != v.drop_last()[i].0@ by {
            assert(v.drop_last()[j] == v[j]);
        }
        lemma_lookup_update(v.drop_last(), i, p);
        assert(v.last() == v[v.len() - 1]);
        assert forall|k: Seq<char>| #[trigger] lookup_last(w, k) == if k == p.0@ {
            Some(p.1)
        } else {
            lookup_last(v, k)
        } by {
            assert(lookup_last(w.drop_last(), k) == if k == p.0@ {
                Some(p.1)
            } else {
                lookup_last(v.drop_last(), k)
            });
        }
    }
}

/// Where key `k` was stored last.
fn find_last_key<V>(v: &Vec<(String, V)>, k: &[char]) -> (r: Option<usize>)
    ensures
        r matches Some(i) ==> i < v@.len() && v@[i as int].0@ == k@ && lookup_last(v@, k@) == Some(
            v@[i as int].1,
        ) && forall|j: int| i < j < v@.len() ==> (#[trigger] v@[j]).0@ != k@,
        r is None ==> lookup_last(v@, k@) is None,
{
    let mut i: usize = v.len();
    while i > 0
        invariant
            i <= v@.len(),
            forall|j: int| i <= j < v@.len() ==> (#[trigger] v@[j]).0@ != k@,
        decreases i,
    {
        if chars_eq(chars_of(v[i - 1].0.as_str()).as_slice(), k) {
            proof {
                lemma_lookup_found(v@, i - 1);
            }
            return Some(i - 1);
        }
        i -= 1;
    }
    proof {
        lemma_lookup_absent(v@, k@);
    }
    None
}

/// Store `val` under `k`, in place when `k` is already there.
fn store<V>(v: &mut Vec<(String, V)>, k: &str, val: V)
    ensures
        forall|x: Seq<char>|
            #[trigger] lookup_last(final(v)@, x) == if x == k@ {
                Some(val)
            } else {
                lookup_last(old(v)@, x)
            },
{
    let key = chars_of(k);
    match find_last_key(v, key.as_slice()) {
        Some(i) => {
            let ghost o = v@;
            let p = (owned(k), val);
            v.set(i, p);
            proof {
                assert(v@ == o.update(i as int, p));
                lemma_lookup_update(o, i as int, p);
            }
        },
        None => {
            let ghost o = v@;
            v.push((owned(k), val));
            proof {
                assert forall|x: Seq<char>| #[trigger] lookup_last(v@, x) == if x == k@ {
                    Some(val)
                } else {
                    lookup_last(o, x)
                } by {
                    assert(v@.drop_last() == o);
                }
            }
        },
    }
}

/// The reach a row's "Always allow" is set to: this project unless the
/// toggle was flipped.
pub open spec fn scope_in(scopes: Seq<(String, AlwaysAllowScope)>, id: Seq<char>) -> AlwaysAllowScope {
    match lookup_last(scopes, id) {
        Some(s) => s,
        None => AlwaysAllowScope::ThisWorkspace,
    }
}

/// The options picked so far on a row.
pub open spec fn picked_in(picked: Seq<(String, Vec<String>)>, id: Seq<char>) -> Seq<Seq<char>> {
    match lookup_last(picked, id) {
        Some(v) => strs_view(v@),
        None => seq![],
    }
}

/// `labels` with `label` added at the end, or taken out where it is.
pub open spec fn toggle_label(labels: Seq<Seq<char>>, label: Seq<char>) -> Seq<Seq<char>> {
    if labels.contains(label) {
        let i = choose|i: int| 0 <= i < labels.len() && labels[i] == label && forall|j: int|
            0 <= j < i ==> labels[j] != label;
        labels.remove(i)
    } else {
        labels.push(label)
    }
}

/// A question's answer, ready to send: the chat it goes to, the request it
/// resolves, and the labels picked for its one question.
#[derive(Debug, Clone, PartialEq, Eq)]
pub struct QuestionAnswer {
    pub chat_id: String,
    pub request_id: String,
    pub answers: Vec<UserInputAnswer>,
}

/// A permission answer, ready to send.
#[derive(Debug, Clone, PartialEq, Eq)]
pub struct PermissionReply {
    pub request_id: String,
    pub decision: PermissionDecision,
    pub remember: Option<RememberRule>,
}

/// What the needs-you pane holds besides the engine: the items and chats of
/// the last frames, each row's reach, the picks of multi-select questions,
/// the rows whose answer is in flight, and the last failure to send.
#[derive(Debug)]
pub struct NeedsYouState {
    items: Vec<NeedsYouItem>,
    chats: Vec<Chat>,
    scopes: Vec<(String, AlwaysAllowScope)>,
    answering: Vec<String>,
    picked: Vec<(String, Vec<String>)>,
    failure: Option<String>,
}

/// `id` is in `v`.
pub open spec fn has_id(v: Seq<String>, id: Seq<char>) -> bool {
    exists|j: int| 0 <= j < v.len() && (#[trigger] v[j])@ == id
}

/// An item of `items` carries `id`.
pub open spec fn listed_id(items: Seq<NeedsYouItem>, id: Seq<char>) -> bool {
    exists|j: int| 0 <= j < items.len() && (#[trigger] items[j]).id@ == id
}

fn contains_id(v: &Vec<String>, id: &[char]) -> (r: bool)
    ensures
        r == has_id(v@, id@),
{
    let mut i: usize = 0;
    while i < v.len()
        invariant
            i <= v@.len(),
            forall|j: int| 0 <= j < i ==> (#[trigger] v@[j])@ != id@,
        decreases v@.len() - i,
    {
        if chars_eq(chars_of(v[i].as_str()).as_slice(), id) {
            return true;
        }
        i += 1;
    }
    false
}

fn item_listed(items: &Vec<NeedsYouItem>, id: &[char]) -> (r: bool)
    ensures
        r == listed_id(items@, id@),
{
    let mut i: usize = 0;
    while i < items.len()
        invariant
            i <= items@.len(),
            forall|j: int| 0 <= j < i ==> (#[trigger] items@[j]).id@ != id@,
        decreases items@.len() - i,
    {
        if chars_eq(chars_of(items[i].id.as_str()).as_slice(), id) {
            return true;
        }
        i += 1;
    }
    false
}

/// `v` without `id`.
fn without_id(v: &Vec<String>, id: &[char]) -> (r: Vec<String>)
    ensures
        forall|x: Seq<char>| #[trigger] has_id(r@, x) == (has_id(v@, x) && x != id@),
{
    let mut r: Vec<String> = Vec::new();
    let mut i: usize = 0;
    while i < v.len()
        invariant
            i <= v@.len(),
            forall|x: Seq<char>| #[trigger] has_id(r@, x) == (has_id(v@.take(i as int), x) && x != id@),
        decreases v@.len() - i,
    {
        let ghost before = r@;
        let keep = !chars_eq(chars_of(v[i].as_str()).as_slice(), id);
        if keep {
            r.push(owned(v[i].as_str()));
        }
        proof {
            let t = v@.take(i + 1);
            assert(t == v@.take(i as int).push(v@[i as int]));
            assert forall|x: Seq<char>| #[trigger] has_id(r@, x) == (has_id(t, x) && x != id@) by {
                if has_id(t, x) && x != id@ {
                    let j = choose|j: int| 0 <= j < t.len() && (#[trigger] t[j])@ == x;
                    if j < i {
                        assert(v@.take(i as int)[j] == t[j]);
                        assert(has_id(v@.take(i as int), x));
                        assert(has_id(before, x));
                        let k = choose|k: int| 0 <= k < before.len() && (#[trigger] before[k])@ == x;
                        assert(r@[k] == before[k]);
                    } else {
                        assert(keep);
                        assert(r@[r@.len() - 1]@ == x);
                    }
                }
                if has_id(r@, x) {
                    let k = choose|k: int| 0 <= k < r@.len() && (#[trigger] r@[k])@ == x;
                    if k < before.len() {
                        assert(r@[k] == before[k]);
                        assert(has_id(before, x));
                        let j = choose|j: int| 0 <= j < i && (#[trigger] v@.take(i as int)[j])@ == x;
                        assert(t[j] == v@.take(i as int)[j]);
                    } else {
                        assert(t[i as int] == v@[i as int]);
                    }
                }
            }
        }
        i += 1;
    }
    assert(v@.take(v@.len() as int) == v@);
    r
}

/// `v` keeping only the ids some item of `items` still carries.
fn still_listed(v: &Vec<String>, items: &Vec<NeedsYouItem>) -> (r: Vec<String>)
    ensures
        forall|x: Seq<char>| #[trigger] has_id(r@, x) == (has_id(v@, x) && listed_id(items@, x)),
{
    let mut r: Vec<String> = Vec::new();
    let mut i: usize = 0;
    while i < v.len()
        invariant
            i <= v@.len(),
            forall|x: Seq<char>|
                #[trigger] has_id(r@, x) == (has_id(v@.take(i as int), x) && listed_id(items@, x)),
        decreases v@.len() - i,
    {
        let ghost before = r@;
        let keep = item_listed(items, chars_of(v[i].as_str()).as_slice());
        if keep {
            r.push(owned(v[i].as_str()));
        }
        proof {
            let t = v@.take(i + 1);
            assert(t == v@.take(i as int).push(v@[i as int]));
            assert forall|x: Seq<char>| #[trigger] has_id(r@, x) == (has_id(t, x) && listed_id(items@, x)) by {
                if has_id(t, x) && listed_id(items@, x) {
                    let j = choose|j: int| 0 <= j < t.len() && (#[trigger] t[j])@ == x;
                    if j < i {
                        assert(v@.take(i as int)[j] == t[j]);
                        assert(has_id(v@.take(i as int), x));
                        assert(has_id(before, x));
                        let k = choose|k: int| 0 <= k < before.len() && (#[trigger] before[k])@ == x;
                        assert(r@[k] == before[k]);
                    } else {
                        assert(keep);
                        assert(r@[r@.len() - 1]@ == x);
                    }
                }
                if has_id(r@, x) {
                    let k = choose|k: int| 0 <= k < r@.len() && (#[trigger] r@[k])@ == x;
                    if k < before.len() {
                        assert(r@[k] == before[k]);
                        assert(has_id(before, x));
                        let j = choose|j: int| 0 <= j < i && (#[trigger] v@.take(i as int)[j])@ == x;
                        assert(t[j] == v@.take(i as int)[j]);
                    } else {
                        assert(t[i as int] == v@[i as int]);
                    }
                }
            }
        }
        i += 1;
    }
    assert(v@.take(v@.len() as int) == v@);
    r
}

/// Where `label` first sits in `labels`.
pub open spec fn is_first_label(labels: Seq<Seq<char>>, label: Seq<char>, i: int) -> bool {
    0 <= i < labels.len() && labels[i] == label && forall|j: int| 0 <= j < i ==> labels[j] != label
}

proof fn lemma_first_label_unique(labels: Seq<Seq<char>>, label: Seq<char>, i: int)
    requires
        is_first_label(labels, label, i),
    ensures
        (choose|k: int| is_first_label(labels, label, k)) == i,
{
    let k = choose|k: int| is_first_label(labels, label, k);
    assert(is_first_label(labels, label, k));
    if k < i {
        assert(labels[k] != label);
    }
    if i < k {
        assert(labels[i] != label);
    }
}

fn copy_labels(v: &Vec<String>) -> (r: Vec<String>)
    ensures
        strs_view(r@) == strs_view(v@),
{
    let mut r: Vec<String> = Vec::new();
    let mut i: usize = 0;
    while i < v.len()
        invariant
            i <= v@.len(),
            r@.len() == i,
            forall|j: int| 0 <= j < i ==> (#[trigger] r@[j])@ == v@[j]@,
        decreases v@.len() - i,
    {
        r.push(owned(v[i].as_str()));
        i += 1;
    }
    assert(strs_view(r@) =~= strs_view(v@));
    r
}

/// `labels` with `label` toggled.
fn toggled_labels(labels: Vec<String>, label: &str) -> (r: Vec<String>)
    ensures
        strs_view(r@) == toggle_label(strs_view(labels@), label@),
{
    let ghost lv = strs_view(labels@);
    let target = chars_of(label);
    let mut i: usize = 0;
    while i < labels.len()
        invariant
            i <= labels@.len(),
            lv == strs_view(labels@),
            target@ == label@,
            forall|j: int| 0 <= j < i ==> lv[j] != label@,
        decreases labels@.len() - i,
    {
        if chars_eq(chars_of(labels[i].as_str()).as_slice(), target.as_slice()) {
            let mut out = labels;
            out.remove(i);
            proof {
                assert(is_first_label(lv, label@, i as int));
                lemma_first_label_unique(lv, label@, i as int);
                assert(lv.contains(label@)) by {
                    assert(lv[i as int] == label@);
                }
                assert(strs_view(out@) =~= lv.remove(i as int));
            }
            return out;
        }
        i += 1;
    }
    let mut out = labels;
    out.push(owned(label));
    proof {
        assert(!lv.contains(label@));
        assert(strs_view(out@) =~= lv.push(label@));
    }
    out
}

impl NeedsYouState {
    /// The items of the last frame.
    pub closed spec fn items_view(&self) -> Seq<NeedsYouItem> {
        self.items@
    }

    /// The chats of the last frame.
    pub closed spec fn chats_view(&self) -> Seq<Chat> {
        self.chats@
    }

    /// The reach of a row's "Always allow".
    pub closed spec fn scope_of(&self, id: Seq<char>) -> AlwaysAllowScope {
        scope_in(self.scopes@, id)
    }

    /// The options picked on a row.
    pub closed spec fn picked_of(&self, id: Seq<char>) -> Seq<Seq<char>> {
        picked_in(self.picked@, id)
    }

    /// A row's answer is in flight.
    pub closed spec fn busy(&self, id: Seq<char>) -> bool {
        has_id(self.answering@, id)
    }

    /// The last failure to send, shown inline.
    pub closed spec fn failure_view(&self) -> Option<Seq<char>> {
        match self.failure {
            Some(f) => Some(f@),
            None => None,
        }
    }

    /// A list that draws `items` under `chats`, nothing picked, nothing in
    /// flight.
    pub fn demo(items: Vec<NeedsYouItem>, chats: Vec<Chat>) -> (r: NeedsYouState)
        ensures
            r.items_view() == items@,
            r.chats_view() == chats@,
            forall|x: Seq<char>| #[trigger] r.scope_of(x) == AlwaysAllowScope::ThisWorkspace,
            forall|x: Seq<char>| #[trigger] r.picked_of(x) == Seq::<Seq<char>>::empty(),
            forall|x: Seq<char>| !(#[trigger] r.busy(x)),
            r.failure_view() is None,
    {
        NeedsYouState {
            items,
            chats,
            scopes: Vec::new(),
            answering: Vec::new(),
            picked: Vec::new(),
            failure: None,
        }
    }

    /// An empty list.
    pub fn new() -> (r: NeedsYouState)
        ensures
            r.items_view().len() == 0,
            r.chats_view().len() == 0,
            forall|x: Seq<char>| #[trigger] r.scope_of(x) == AlwaysAllowScope::ThisWorkspace,
            forall|x: Seq<char>| #[trigger] r.picked_of(x) == Seq::<Seq<char>>::empty(),
            forall|x: Seq<char>| !(#[trigger] r.busy(x)),
            r.failure_view() is None,
    {
        NeedsYouState::demo(Vec::new(), Vec::new())
    }

    /// Replace what is drawn.
    pub fn set_items(&mut self, items: Vec<NeedsYouItem>, chats: Vec<Chat>)
        ensures
            final(self).items_view() == items@,
            final(self).chats_view() == chats@,
            forall|x: Seq<char>| #[trigger] final(self).scope_of(x) == old(self).scope_of(x),
            forall|x: Seq<char>| #[trigger] final(self).picked_of(x) == old(self).picked_of(x),
            forall|x: Seq<char>| #[trigger] final(self).busy(x) == old(self).busy(x),
            final(self).failure_view() == old(self).failure_view(),
    {
        self.items = items;
        self.chats = chats;
    }

    /// A needs-you frame arrived. Anything it no longer lists has been
    /// answered, so its row stops being held as in flight.
    pub fn frame(&mut self, items: Vec<NeedsYouItem>)
        ensures
            final(self).items_view() == items@,
            final(self).chats_view() == old(self).chats_view(),
            forall|x: Seq<char>| #[trigger] final(self).busy(x) == (old(self).busy(x) && listed_id(items@, x)),
            forall|x: Seq<char>| #[trigger] final(self).scope_of(x) == old(self).scope_of(x),
            forall|x: Seq<char>| #[trigger] final(self).picked_of(x) == old(self).picked_of(x),
            final(self).failure_view() == old(self).failure_view(),
    {
        self.answering = still_listed(&self.answering, &items);
        self.items = items;
    }

    /// A chats frame arrived.
    pub fn chats_frame(&mut self, chats: Vec<Chat>)
        ensures
            final(self).chats_view() == chats@,
            final(self).items_view() == old(self).items_view(),
            forall|x: Seq<char>| #[trigger] final(self).scope_of(x) == old(self).scope_of(x),
            forall|x: Seq<char>| #[trigger] final(self).picked_of(x) == old(self).picked_of(x),
            forall|x: Seq<char>| #[trigger] final(self).busy(x) == old(self).busy(x),
            final(self).failure_view() == old(self).failure_view(),
    {
        self.chats = chats;
    }

    /// The rows drawn.
    pub fn rows(&self) -> (r: Vec<InboxRow>)
        ensures
            r@.len() == self.items_view().len(),
            forall|i: int|
                0 <= i < r@.len() ==> row_of_item(#[trigger] r@[i], self.items_view()[i], self.chats_view()),
    {
        inbox_rows(self.items.as_slice(), self.chats.as_slice())
    }

    /// How many things are waiting.
    pub fn count(&self) -> (r: usize)
        ensures
            r == self.items_view().len(),
    {
        self.items.len()
    }

    /// The reach a row's "Always allow" is set to.
    pub fn scope_for(&self, row_id: &str) -> (r: AlwaysAllowScope)
        ensures
            r == self.scope_of(row_id@),
    {
        match find_last_key(&self.scopes, chars_of(row_id).as_slice()) {
            Some(i) => self.scopes[i].1,
            None => AlwaysAllowScope::ThisWorkspace,
        }
    }

    /// Flip a row's reach; no other row's changes.
    pub fn toggle_scope(&mut self, row_id: &str)
        ensures
            forall|x: Seq<char>|
                #[trigger] final(self).scope_of(x) == if x == row_id@ {
                    toggled_spec(old(self).scope_of(row_id@))
                } else {
                    old(self).scope_of(x)
                },
            final(self).items_view() == old(self).items_view(),
            final(self).chats_view() == old(self).chats_view(),
            forall|x: Seq<char>| #[trigger] final(self).picked_of(x) == old(self).picked_of(x),
            forall|x: Seq<char>| #[trigger] final(self).busy(x) == old(self).busy(x),
            final(self).failure_view() == old(self).failure_view(),
    {
        let next = self.scope_for(row_id).toggled();
        store(&mut self.scopes, row_id, next);
    }

    /// The options picked on a row so far.
    pub fn picked_labels(&self, row_id: &str) -> (r: Vec<String>)
        ensures
            strs_view(r@) == self.picked_of(row_id@),
    {
        match find_last_key(&self.picked, chars_of(row_id).as_slice()) {
            Some(i) => copy_labels(&self.picked[i].1),
            None => Vec::new(),
        }
    }

    /// Is `label` picked on the row?
    pub fn is_picked(&self, row_id: &str, label: &str) -> (r: bool)
        ensures
            r == self.picked_of(row_id@).contains(label@),
    {
        let picks = self.picked_labels(row_id);
        let target = chars_of(label);
        let ghost pv = strs_view(picks@);
        let mut i: usize = 0;
        while i < picks.len()
            invariant
                i <= picks@.len(),
                pv == strs_view(picks@),
                pv == self.picked_of(row_id@),
                target@ == label@,
                forall|j: int| 0 <= j < i ==> pv[j] != label@,
            decreases picks@.len() - i,
        {
            if chars_eq(chars_of(picks[i].as_str()).as_slice(), target.as_slice()) {
                assert(pv[i as int] == label@);
                assert(pv.contains(label@));
                return true;
            }
            i += 1;
        }
        false
    }

    /// A tap on an option. On a single-select question the tap is the
    /// answer: its label comes back to be sent. On a multi-select one it
    /// picks or unpicks the option, and the user sends when done.
    pub fn pick_option(&mut self, row: &InboxRow, label: &str) -> (r: Option<Vec<String>>)
        ensures
            !row.multi_select ==> (r matches Some(v) && strs_view(v@) == seq![label@]) && forall|
                x: Seq<char>,
            | #[trigger] final(self).picked_of(x) == old(self).picked_of(x),
            row.multi_select ==> r is None && forall|x: Seq<char>|
                #[trigger] final(self).picked_of(x) == if x == row.id@ {
                    toggle_label(old(self).picked_of(row.id@), label@)
                } else {
                    old(self).picked_of(x)
                },
            final(self).items_view() == old(self).items_view(),
            final(self).chats_view() == old(self).chats_view(),
            forall|x: Seq<char>| #[trigger] final(self).scope_of(x) == old(self).scope_of(x),
            forall|x: Seq<char>| #[trigger] final(self).busy(x) == old(self).busy(x),
            final(self).failure_view() == old(self).failure_view(),
    {
        if !row.multi_select {
            let mut v: Vec<String> = Vec::new();
            v.push(owned(label));
            assert(strs_view(v@) =~= seq![label@]);
            return Some(v);
        }
        let current = self.picked_labels(row.id.as_str());
        let next = toggled_labels(current, label);
        let ghost nv = strs_view(next@);
        store(&mut self.picked, row.id.as_str(), next);
        None
    }

    /// Answer a question row with `labels`: what to send, and the row's
    /// picks cleared. A row whose id does not carry both halves of the
    /// answer sends nothing.
    pub fn answer_question(&mut self, row: &InboxRow, labels: Vec<String>) -> (r: Option<QuestionAnswer>)
        ensures
            match split_question_spec(row.id@) {
                None => r is None && forall|x: Seq<char>|
                    #[trigger] final(self).picked_of(x) == old(self).picked_of(x),
                Some((request, question)) => {
                    &&& r matches Some(a) && a.chat_id@ == row.chat_id@ && a.request_id@ == request
                        && a.answers@.len() == 1 && a.answers@[0].question_id@ == question && strs_view(
                        a.answers@[0].labels@,
                    ) == strs_view(labels@)
                    &&& forall|x: Seq<char>|
                        #[trigger] final(self).picked_of(x) == if x == row.id@ {
                            Seq::<Seq<char>>::empty()
                        } else {
                            old(self).picked_of(x)
                        }
                },
            },
            final(self).items_view() == old(self).items_view(),
            final(self).chats_view() == old(self).chats_view(),
            forall|x: Seq<char>| #[trigger] final(self).scope_of(x) == old(self).scope_of(x),
            forall|x: Seq<char>| #[trigger] final(self).busy(x) == old(self).busy(x),
            final(self).failure_view() == old(self).failure_view(),
    {
        let (request_id, question_id) = match split_question_id(row.id.as_str()) {
            Some(pair) => pair,
            None => {
                return None;
            },
        };
        let answer = UserInputAnswer { question_id: owned(question_id), labels };
        let mut answers: Vec<UserInputAnswer> = Vec::new();
        answers.push(answer);
        let out = QuestionAnswer {
            chat_id: owned(row.chat_id.as_str()),
            request_id: owned(request_id),
            answers,
        };
        let empty: Vec<String> = Vec::new();
        assert(strs_view(empty@) =~= Seq::<Seq<char>>::empty());
        store(&mut self.picked, row.id.as_str(), empty);
        Some(out)
    }

    /// Answer a permission row: allow or deny, and with `remember` the rule
    /// at the row's reach.
    pub fn answer_permission(&self, row: &InboxRow, decision: PermissionDecision, remember: bool) -> (r:
        PermissionReply)
        ensures
            r.request_id@ == row.id@,
            r.decision == decision,
            remember ==> (r.remember matches Some(rule) && rule.scope == scope_rule_spec(
                self.scope_of(row.id@),
            ) && rule.pattern@ == Seq::<char>::empty() && rule.name is None),
            !remember ==> r.remember is None,
    {
        let rule = if remember {
            Some(remember_for(row, self.scope_for(row.id.as_str())))
        } else {
            None
        };
        PermissionReply { request_id: owned(row.id.as_str()), decision, remember: rule }
    }

    /// An answer is about to leave for the engine. Without an engine it
    /// cannot, and says so; otherwise the row is held as in flight so a
    /// second tap cannot answer twice.
    pub fn begin_send(&mut self, row_id: &str, connected: bool) -> (r: bool)
        ensures
            r == connected,
            !connected ==> final(self).failure_view() == Some("Not connected to an engine."@)
                && forall|x: Seq<char>| #[trigger] final(self).busy(x) == old(self).busy(x),
            connected ==> final(self).failure_view() is None && forall|x: Seq<char>|
                #[trigger] final(self).busy(x) == (old(self).busy(x) || x == row_id@),
            final(self).items_view() == old(self).items_view(),
            final(self).chats_view() == old(self).chats_view(),
            forall|x: Seq<char>| #[trigger] final(self).scope_of(x) == old(self).scope_of(x),
            forall|x: Seq<char>| #[trigger] final(self).picked_of(x) == old(self).picked_of(x),
    {
        if !connected {
            self.failure = Some(owned("Not connected to an engine."));
            return false;
        }
        let id = chars_of(row_id);
        if !contains_id(&self.answering, id.as_slice()) {
            let ghost o = self.answering@;
            self.answering.push(owned(row_id));
            proof {
                assert forall|x: Seq<char>| #[trigger] has_id(self.answering@, x) == (has_id(o, x) || x == row_id@) by {
                    if has_id(o, x) {
                        let j = choose|j: int| 0 <= j < o.len() && (#[trigger] o[j])@ == x;
                        assert(self.answering@[j] == o[j]);
                    }
                    if x == row_id@ {
                        assert(self.answering@[o.len() as int]@ == x);
                    }
                    if has_id(self.answering@, x) {
                        let j = choose|j: int| 0 <= j < self.answering@.len() && (#[trigger] self.answering@[j])@ == x;
                        if j < o.len() {
                            assert(self.answering@[j] == o[j]);
                        }
                    }
                }
            }
        }
        self.failure = None;
        true
    }

    /// The answer never left the device: the row is released so the user
    /// can try again, and the failure is said.
    pub fn send_failed(&mut self, row_id: &str, error: &str)
        ensures
            final(self).failure_view() == Some("Answer failed: "@ + error@),
            forall|x: Seq<char>| #[trigger] final(self).busy(x) == (old(self).busy(x) && x != row_id@),
            final(self).items_view() == old(self).items_view(),
            final(self).chats_view() == old(self).chats_view(),
            forall|x: Seq<char>| #[trigger] final(self).scope_of(x) == old(self).scope_of(x),
            forall|x: Seq<char>| #[trigger] final(self).picked_of(x) == old(self).picked_of(x),
    {
        self.answering = without_id(&self.answering, chars_of(row_id).as_slice());
        let mut m = chars_of("Answer failed: ");
        append(&mut m, chars_of(error).as_slice());
        self.failure = Some(string_of(m.as_slice()));
    }

    /// Whether a row's answer is in flight.
    pub fn is_busy(&self, row_id: &str) -> (r: bool)
        ensures
            r == self.busy(row_id@),
    {
        contains_id(&self.answering, chars_of(row_id).as_slice())
    }

    /// The last failure to send.
    pub fn failure(&self) -> (r: Option<String>)
        ensures
            match r {
                Some(f) => self.failure_view() == Some(f@),
                None => self.failure_view() is None,
            },
    {
        match &self.failure {
            Some(f) => Some(owned(f.as_str())),
            None => None,
        }
    }
}

/// How a button is drawn.
#[derive(Debug, Clone, Copy, PartialEq, Eq, Structural)]
pub enum ButtonTone {
    Primary,
    Danger,
    Quiet,
}

/// What pressing a row's button does.
#[derive(Debug, Clone, PartialEq, Eq)]
pub enum Press {
    Allow,
    Deny,
    /// Allow and write the rule at the row's reach.
    AlwaysAllow,
    /// Tap an option: the answer on a single-select question, a pick on a
    /// multi-select one.
    Pick(String),
    /// Send the picks of a multi-select question.
    SendPicked,
    /// Open the chat a stopped run belongs to.
    OpenChat(String),
}

/// One thing a row offers beside its text. A button that is not `live`
/// is drawn but does nothing when pressed: an answer already in flight.
#[derive(Debug, Clone, PartialEq, Eq)]
pub enum RowAction {
    Button { label: String, tone: ButtonTone, press: Press, live: bool },
    /// The reach of "Always allow": a setting, not a fourth action.
    ScopeChip(String),
    /// A hint, drawn so it does not read as one more option.
    Hint(String),
}

/// A press, its strings by their characters.
pub enum PressView {
    Allow,
    Deny,
    AlwaysAllow,
    Pick(Seq<char>),
    SendPicked,
    OpenChat(Seq<char>),
}

/// A row action, its strings by their characters.
pub enum ActionView {
    Button(Seq<char>, ButtonTone, PressView, bool),
    ScopeChip(Seq<char>),
    Hint(Seq<char>),
}

pub open spec fn press_view(p: Press) -> PressView {
    match p {
        Press::Allow => PressView::Allow,
        Press::Deny => PressView::Deny,
        Press::AlwaysAllow => PressView::AlwaysAllow,
        Press::Pick(s) => PressView::Pick(s@),
        Press::SendPicked => PressView::SendPicked,
        Press::OpenChat(s) => PressView::OpenChat(s@),
    }
}

pub open spec fn action_view(a: RowAction) -> ActionView {
    match a {
        RowAction::Button { label, tone, press, live } => ActionView::Button(label@, tone, press_view(press), live),
        RowAction::ScopeChip(s) => ActionView::ScopeChip(s@),
        RowAction::Hint(s) => ActionView::Hint(s@),
    }
}

pub open spec fn actions_view(v: Seq<RowAction>) -> Seq<ActionView> {
    v.map_values(|a: RowAction| action_view(a))
}

/// One button per option, in order; a picked option takes the primary
/// plate, since on a multi-select it is chosen but not yet sent. None is
/// live while the row's answer is in flight.
pub open spec fn option_buttons(options: Seq<Seq<char>>, picked: Seq<Seq<char>>, busy: bool) -> Seq<ActionView> {
    options.map_values(
        |o: Seq<char>|
            ActionView::Button(
                o,
                if picked.contains(o) {
                    ButtonTone::Primary
                } else {
                    ButtonTone::Quiet
                },
                PressView::Pick(o),
                !busy,
            ),
    )
}

/// What a row offers: a permission takes Allow, Deny, or Always allow with
/// its reach beside it; a question shows its options, and on a
/// multi-select a hint until something is picked, then a Send with the
/// count; a stopped run offers to open its chat. While the row's answer is
/// in flight (`busy`) the answering buttons do nothing; the reach chip still
/// toggles and the chat still opens.
pub open spec fn actions_spec(row: InboxRow, picked: Seq<Seq<char>>, scope: AlwaysAllowScope, busy: bool) -> Seq<ActionView> {
    match row.kind {
        NeedsYouKind::Permission => seq![
            ActionView::Button("Allow"@, ButtonTone::Primary, PressView::Allow, !busy),
            ActionView::Button("Deny"@, ButtonTone::Danger, PressView::Deny, !busy),
            ActionView::Button("Always allow"@, ButtonTone::Quiet, PressView::AlwaysAllow, !busy),
            ActionView::ScopeChip("scope: "@ + scope_label_spec(scope)),
        ],
        NeedsYouKind::Question => option_buttons(strs_view(row.options@), picked, busy) + if row.multi_select
            && picked.len() == 0 {
            seq![ActionView::Hint("pick one or more"@)]
        } else if row.multi_select {
            seq![ActionView::Button("Send "@ + decimal(picked.len()), ButtonTone::Primary, PressView::SendPicked, !busy)]
        } else {
            Seq::<ActionView>::empty()
        },
        NeedsYouKind::Failed => seq![
            ActionView::Button("Open chat"@, ButtonTone::Quiet, PressView::OpenChat(row.chat_id@), true),
        ],
    }
}

fn push_action(v: &mut Vec<RowAction>, a: RowAction)
    ensures
        actions_view(final(v)@) == actions_view(old(v)@).push(action_view(a)),
{
    let ghost o = v@;
    v.push(a);
    assert(actions_view(v@) =~= actions_view(o).push(action_view(a)));
}

impl NeedsYouState {
    /// What a row offers to press, given its picks, its reach, and whether
    /// its answer is in flight.
    pub fn row_actions(&self, row: &InboxRow) -> (r: Vec<RowAction>)
        ensures
            actions_view(r@) == actions_spec(
                *row,
                self.picked_of(row.id@),
                self.scope_of(row.id@),
                self.busy(row.id@),
            ),
    {
        let live = !self.is_busy(row.id.as_str());
        let mut v: Vec<RowAction> = Vec::new();
        assert(actions_view(v@) =~= Seq::<ActionView>::empty());
        match row.kind {
            NeedsYouKind::Permission => {
                push_action(&mut v, RowAction::Button { label: owned("Allow"), tone: ButtonTone::Primary, press: Press::Allow, live });
                push_action(&mut v, RowAction::Button { label: owned("Deny"), tone: ButtonTone::Danger, press: Press::Deny, live });
                push_action(
                    &mut v,
                    RowAction::Button { label: owned("Always allow"), tone: ButtonTone::Quiet, press: Press::AlwaysAllow, live },
                );
                let mut chip = chars_of("scope: ");
                append(&mut chip, chars_of(self.scope_for(row.id.as_str()).label()).as_slice());
                push_action(&mut v, RowAction::ScopeChip(string_of(chip.as_slice())));
                assert(actions_view(v@) =~= actions_spec(*row, self.picked_of(row.id@), self.scope_of(row.id@), !live));
            },
            NeedsYouKind::Question => {
                let ghost picked = self.picked_of(row.id@);
                let ghost ov = strs_view(row.options@);
                let n_picked = self.picked_labels(row.id.as_str()).len();
                let mut i: usize = 0;
                while i < row.options.len()
                    invariant
                        i <= row.options@.len(),
                        ov == strs_view(row.options@),
                        picked == self.picked_of(row.id@),
                        actions_view(v@) == option_buttons(ov.take(i as int), picked, !live),
                    decreases row.options@.len() - i,
                {
                    let o = &row.options[i];
                    let tone = if self.is_picked(row.id.as_str(), o.as_str()) {
                        ButtonTone::Primary
                    } else {
                        ButtonTone::Quiet
                    };
                    push_action(&mut v, RowAction::Button { label: owned(o.as_str()), tone, press: Press::Pick(owned(o.as_str())), live });
                    proof {
                        assert(ov[i as int] == o@);
                        assert(ov.take(i + 1) == ov.take(i as int).push(o@));
                        assert(option_buttons(ov.take(i + 1), picked, !live) =~= option_buttons(
                            ov.take(i as int),
                            picked,
                            !live,
                        ).push(ActionView::Button(o@, tone, PressView::Pick(o@), live)));
                    }
                    i += 1;
                }
                assert(ov.take(ov.len() as int) == ov);
                if row.multi_select && n_picked == 0 {
                    push_action(&mut v, RowAction::Hint(owned("pick one or more")));
                } else if row.multi_select {
                    let mut label = chars_of("Send ");
                    append(&mut label, decimal_chars(n_picked as u64).as_slice());
                    push_action(
                        &mut v,
                        RowAction::Button { label: string_of(label.as_slice()), tone: ButtonTone::Primary, press: Press::SendPicked, live },
                    );
                }
                assert(actions_view(v@) =~= actions_spec(*row, self.picked_of(row.id@), self.scope_of(row.id@), !live));
            },
            NeedsYouKind::Failed => {
                push_action(
                    &mut v,
                    RowAction::Button {
                        label: owned("Open chat"),
                        tone: ButtonTone::Quiet,
                        press: Press::OpenChat(owned(row.chat_id.as_str())),
                        live: true,
                    },
                );
                assert(actions_view(v@) =~= actions_spec(*row, self.picked_of(row.id@), self.scope_of(row.id@), !live));
            },
        }
        v
    }
}

/// A card shows its prompt unless it is empty or the card is a permission,
/// whose command is shown instead.
pub open spec fn shows_prompt_spec(row: InboxRow) -> bool {
    row.prompt@.len() > 0 && row.kind != NeedsYouKind::Permission
}

pub fn shows_prompt(row: &InboxRow) -> (r: bool)
    ensures
        r == shows_prompt_spec(*row),
{
    chars_of(row.prompt.as_str()).len() > 0 && row.kind != NeedsYouKind::Permission
}

/// The one line a collapsed question keeps: its prompt, or its title when
/// the prompt is blank.
pub fn collapsed_text(row: &InboxRow) -> (r: String)
    ensures
        r@ == if trim(row.prompt@).len() == 0 {
            row.title@
        } else {
            row.prompt@
        },
{
    if trim_chars(chars_of(row.prompt.as_str()).as_slice()).len() == 0 {
        owned(row.title.as_str())
    } else {
        owned(row.prompt.as_str())
    }
}

/// How many things wait, said in words: "1 waiting", "3 waiting".
pub fn waiting_text(n: usize) -> (r: String)
    ensures
        r@ == decimal(n as nat) + " waiting"@,
{
    let mut v = decimal_chars(n as u64);
    append(&mut v, chars_of(" waiting").as_slice());
    string_of(v.as_slice())
}

/// Tapping an option that was not picked and tapping it again leaves the
/// picks as they were; any tap flips whether that option is picked and no
/// other, and picks never repeat.
pub proof fn law_picking_twice_unpicks(s: Seq<Seq<char>>, l: Seq<char>)
    requires
        forall|i: int, j: int| 0 <= i < j < s.len() ==> s[i] != s[j],
    ensures
        !s.contains(l) ==> toggle_label(toggle_label(s, l), l) == s,
        toggle_label(s, l).contains(l) == !s.contains(l),
        forall|x: Seq<char>| x != l ==> (#[trigger] toggle_label(s, l).contains(x)) == s.contains(x),
        forall|i: int, j: int|
            0 <= i < j < toggle_label(s, l).len() ==> toggle_label(s, l)[i] != toggle_label(s, l)[j],
{
    if s.contains(l) {
        let k = choose|i: int| 0 <= i < s.len() && s[i] == l;
        assert(is_first_label(s, l, k)) by {
            assert forall|j: int| 0 <= j < k implies s[j] != l by {
                if s[j] == l {
                    assert(s[j] == s[k]);
                }
            }
        }
        lemma_first_label_unique(s, l, k);
        let t = s.remove(k);
        assert(toggle_label(s, l) == t);
        assert(!t.contains(l)) by {
            assert forall|j: int| 0 <= j < t.len() implies t[j] != l by {
                if j < k {
                    assert(t[j] == s[j]);
                } else {
                    assert(t[j] == s[j + 1]);
                }
            }
        }
        assert forall|x: Seq<char>| x != l implies (#[trigger] t.contains(x)) == s.contains(x) by {
            if s.contains(x) {
                let j = choose|j: int| 0 <= j < s.len() && s[j] == x;
                if j < k {
                    assert(t[j] == x);
                } else {
                    assert(j != k);
                    assert(t[j - 1] == x);
                }
            }
            if t.contains(x) {
                let j = choose|j: int| 0 <= j < t.len() && t[j] == x;
                if j < k {
                    assert(s[j] == x);
                } else {
                    assert(s[j + 1] == x);
                }
            }
        }
        assert forall|i: int, j: int| 0 <= i < j < t.len() implies t[i] != t[j] by {
            let si = if i < k { i } else { i + 1 };
            let sj = if j < k { j } else { j + 1 };
            assert(t[i] == s[si]);
            assert(t[j] == s[sj]);
        }
    } else {
        let t = s.push(l);
        assert(toggle_label(s, l) == t);
        assert(t.contains(l)) by {
            assert(t[s.len() as int] == l);
        }
        assert(is_first_label(t, l, s.len() as int)) by {
            assert forall|j: int| 0 <= j < s.len() implies t[j] != l by {
                assert(t[j] == s[j]);
            }
        }
        lemma_first_label_unique(t, l, s.len() as int);
        assert(t.remove(s.len() as int) =~= s);
        assert forall|x: Seq<char>| x != l implies (#[trigger] t.contains(x)) == s.contains(x) by {
            if t.contains(x) {
                let j = choose|j: int| 0 <= j < t.len() && t[j] == x;
                assert(j < s.len());
                assert(s[j] == x);
            }
            if s.contains(x) {
                let j = choose|j: int| 0 <= j < s.len() && s[j] == x;
                assert(t[j] == x);
            }
        }
        assert forall|i: int, j: int| 0 <= i < j < t.len() implies t[i] != t[j] by {
            if j == s.len() {
                assert(t[i] == s[i]);
            }
        }
    }
}

} // verus!
