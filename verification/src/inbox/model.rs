//! What the inbox views draw, worked out without a window: which rows exist,
//! what each one says, what an "always allow" click remembers, and how
//! children nest under their parent in the agent tree.
use vstd::prelude::*;
use vstd::string::StrSliceExecFns;
use crate::proto::{
    AgentState, AgentStateRow, Chat, NeedsYouItem, NeedsYouKind, RememberRule, RuleScope,
};
use crate::text::{
    chars_eq, chars_of, first_where, lower_all, lower_chars, copy_opt, opt_view, owned, string_of, strs_view,
    take_until, trim, trim_chars,
};

verus! {

/// One row of the needs-you list.
#[derive(Debug, Clone, PartialEq)]
pub struct InboxRow {
    /// The item id: a permission request id, `<request>:<question>`, or
    /// `<agent>:failure`.
    pub id: String,
    pub chat_id: String,
    pub agent_id: String,
    /// The chat's title, or a readable stand-in when it has none yet.
    pub chat_name: String,
    pub kind: NeedsYouKind,
    /// "Permission", "Question" or "Stopped": the badge text.
    pub badge: &'static str,
    pub title: String,
    pub prompt: String,
    pub options: Vec<String>,
    pub multi_select: bool,
    /// Set for a permission: the command the tool would run.
    pub tool_command: Option<String>,
    pub tool_name: Option<String>,
    pub retryable: bool,
}

pub open spec fn badge_spec(kind: NeedsYouKind) -> Seq<char> {
    match kind {
        NeedsYouKind::Permission => "Permission"@,
        NeedsYouKind::Question => "Question"@,
        NeedsYouKind::Failed => "Stopped"@,
    }
}

/// The badge text for each kind. A failure reads "Stopped": that is what
/// the user is told it is called.
pub fn badge_for(kind: NeedsYouKind) -> (r: &'static str)
    ensures
        r@ == badge_spec(kind),
{
    match kind {
        NeedsYouKind::Permission => "Permission",
        NeedsYouKind::Question => "Question",
        NeedsYouKind::Failed => "Stopped",
    }
}

/// A chat with no title yet. Showing the raw id would be worse than saying
/// plainly that it has no name.
pub const UNTITLED_CHAT: &'static str = "Untitled chat";

pub open spec fn untitled() -> Seq<char> {
    "Untitled chat"@
}

/// The title the last chat with id `id` and a non-blank title carries,
/// trimmed: a later chat of the same id wins over an earlier one.
pub open spec fn last_title(chats: Seq<Chat>, id: Seq<char>) -> Option<Seq<char>>
    decreases chats.len(),
{
    if chats.len() == 0 {
        None
    } else {
        let c = chats.last();
        if c.id@ == id && c.title is Some && trim(c.title->0@).len() > 0 {
            Some(trim(c.title->0@))
        } else {
            last_title(chats.drop_last(), id)
        }
    }
}

/// What a row calls the chat `id`.
pub open spec fn chat_name_for(chats: Seq<Chat>, id: Seq<char>) -> Seq<char> {
    match last_title(chats, id) {
        Some(t) => t,
        None => untitled(),
    }
}

/// `row` draws `item`, its chat named from `chats`.
pub open spec fn row_of_item(row: InboxRow, item: NeedsYouItem, chats: Seq<Chat>) -> bool {
    &&& row.id@ == item.id@
    &&& row.chat_id@ == item.chat_id@
    &&& row.agent_id@ == item.agent_id@
    &&& row.chat_name@ == chat_name_for(chats, item.chat_id@)
    &&& row.kind == item.kind
    &&& row.badge@ == badge_spec(item.kind)
    &&& row.title@ == item.title@
    &&& row.prompt@ == item.prompt@
    &&& strs_view(row.options@) == strs_view(item.options@)
    &&& row.multi_select == item.multi_select
    &&& opt_view(row.tool_command) == opt_view(item.tool_command)
    &&& opt_view(row.tool_name) == opt_view(item.tool_name)
    &&& row.retryable == item.retryable
}

fn title_of(chats: &[Chat], id: &[char]) -> (r: Option<Vec<char>>)
    ensures
        match last_title(chats@, id@) {
            Some(t) => r matches Some(v) && v@ == t,
            None => r is None,
        },
{
    let mut i: usize = chats.len();
    assert(chats@.take(i as int) == chats@);
    while i > 0
        invariant
            i <= chats@.len(),
            last_title(chats@, id@) == last_title(chats@.take(i as int), id@),
        decreases i,
    {
        let c = &chats[i - 1];
        assert(chats@.take(i as int).last() == *c);
        assert(chats@.take(i as int).drop_last() == chats@.take(i - 1));
        if chars_eq(chars_of(c.id.as_str()).as_slice(), id) {
            match &c.title {
                Some(t) => {
                    let tt = trim_chars(chars_of(t.as_str()).as_slice());
                    if tt.len() > 0 {
                        return Some(tt);
                    }
                },
                None => {},
            }
        }
        i -= 1;
    }
    None
}

fn chat_name(chats: &[Chat], id: &str) -> (r: String)
    ensures
        r@ == chat_name_for(chats@, id@),
{
    match title_of(chats, chars_of(id).as_slice()) {
        Some(t) => string_of(t.as_slice()),
        None => owned(UNTITLED_CHAT),
    }
}

fn copy_strings(v: &Vec<String>) -> (r: Vec<String>)
    ensures
        strs_view(r@) == strs_view(v@),
{
    let mut r: Vec<String> = Vec::new();
    let mut i: usize = 0;
    while i < v.len()
        invariant
            i <= v@.len(),
            r@.len() == i,
            forall|j: int| 0 <= j < i ==> (#[trigger] r@[j])@ == v@[j]@,
        decreases v@.len() - i,
    {
        r.push(owned(v[i].as_str()));
        i += 1;
    }
    assert(strs_view(r@) =~= strs_view(v@));
    r
}

/// Build the list the needs-you view draws. `items` arrive newest first
/// and that order is kept: the engine already sorted them.
pub fn inbox_rows(items: &[NeedsYouItem], chats: &[Chat]) -> (r: Vec<InboxRow>)
    ensures
        r@.len() == items@.len(),
        forall|i: int| 0 <= i < items@.len() ==> row_of_item(#[trigger] r@[i], items@[i], chats@),
{
    let mut r: Vec<InboxRow> = Vec::new();
    let mut i: usize = 0;
    while i < items.len()
        invariant
            i <= items@.len(),
            r@.len() == i,
            forall|j: int| 0 <= j < i ==> row_of_item(#[trigger] r@[j], items@[j], chats@),
        decreases items@.len() - i,
    {
        let item = &items[i];
        let row = InboxRow {
            id: owned(item.id.as_str()),
            chat_id: owned(item.chat_id.as_str()),
            agent_id: owned(item.agent_id.as_str()),
            chat_name: chat_name(chats, item.chat_id.as_str()),
            kind: item.kind,
            badge: badge_for(item.kind),
            title: owned(item.title.as_str()),
            prompt: owned(item.prompt.as_str()),
            options: copy_strings(&item.options),
            multi_select: item.multi_select,
            tool_command: copy_opt(&item.tool_command),
            tool_name: copy_opt(&item.tool_name),
            retryable: item.retryable,
        };
        r.push(row);
        i += 1;
    }
    r
}

/// Where `row_id` splits at its first `:`, as `str::split_once(':')`
/// splits it.
pub open spec fn split_question_spec(row_id: Seq<char>) -> Option<(Seq<char>, Seq<char>)> {
    let i = first_where(row_id, |x: char| x == ':');
    if i < row_id.len() {
        Some((row_id.take(i), row_id.skip(i + 1)))
    } else {
        None
    }
}

/// A question row's id is `<request id>:<question id>`; both halves are
/// needed to answer: the request id keys the parked resolver, the question
/// id keys the answer inside it.
pub fn split_question_id(row_id: &str) -> (r: Option<(&str, &str)>)
    ensures
        match split_question_spec(row_id@) {
            Some((a, b)) => r matches Some((x, y)) && x@ == a && y@ == b,
            None => r is None,
        },
{
    let v = chars_of(row_id);
    let head = take_until(v.as_slice(), ':');
    let i = head.len();
    let n = row_id.unicode_len();
    if i < n {
        let a = row_id.substring_char(0, i);
        let b = row_id.substring_char(i + 1, n);
        assert(a@ == row_id@.take(i as int));
        assert(b@ == row_id@.skip(i + 1));
        Some((a, b))
    } else {
        None
    }
}

/// The question on the open chat's sheet is the one this row asks.
pub open spec fn answered_spec(row: InboxRow, open_chat: Option<Seq<char>>, open_sheet: Option<Seq<char>>) -> bool {
    &&& row.kind == NeedsYouKind::Question
    &&& open_chat == Some(row.chat_id@)
    &&& row.agent_id@ == row.chat_id@
    &&& match split_question_spec(row.id@) {
        Some((request, _)) => open_sheet == Some(request),
        None => false,
    }
}

pub open spec fn str_opt(o: Option<&str>) -> Option<Seq<char>> {
    match o {
        Some(s) => Some(s@),
        None => None,
    }
}

/// Is this row's own answer surface already on screen? A question for the
/// chat being read is also the question sheet in that chat's transcript;
/// the sheet is where the answer is typed, so the card collapses. Only a
/// top-level question (its agent id is the chat id) whose request id is the
/// sheet on screen qualifies: a subagent's question never reaches the
/// parent's transcript, a chat just opened has no sheet yet, and an
/// answered question's sheet is gone. Permissions and stopped runs have no
/// second surface.
pub fn answered_in_the_open_chat(row: &InboxRow, open_chat: Option<&str>, open_sheet: Option<&str>) -> (r: bool)
    ensures
        r == answered_spec(*row, str_opt(open_chat), str_opt(open_sheet)),
{
    if row.kind != NeedsYouKind::Question {
        return false;
    }
    let chat = chars_of(row.chat_id.as_str());
    let same_chat = match open_chat {
        Some(c) => chars_eq(chars_of(c).as_slice(), chat.as_slice()),
        None => false,
    };
    if !same_chat {
        return false;
    }
    if !chars_eq(chars_of(row.agent_id.as_str()).as_slice(), chat.as_slice()) {
        return false;
    }
    match split_question_id(row.id.as_str()) {
        Some((request, _)) => match open_sheet {
            Some(s) => chars_eq(chars_of(s).as_slice(), chars_of(request).as_slice()),
            None => false,
        },
        None => false,
    }
}

/// The bold title says something the badge above it does not: it is not
/// blank, and it is not the badge again in another case or spacing.
pub open spec fn title_adds_spec(title: Seq<char>, badge: Seq<char>) -> bool {
    trim(title).len() > 0 && lower_all(trim(title)) != lower_all(trim(badge))
}

/// Does the bold title say anything the badge above it does not? A model
/// that writes "Question" as its header would have the card say it twice.
pub fn title_adds_to_badge(row: &InboxRow) -> (r: bool)
    ensures
        r == title_adds_spec(row.title@, row.badge@),
{
    let t = trim_chars(chars_of(row.title.as_str()).as_slice());
    let b = trim_chars(chars_of(row.badge).as_slice());
    t.len() > 0 && !chars_eq(lower_chars(t.as_slice()).as_slice(), lower_chars(b.as_slice()).as_slice())
}

/// How far an "Always allow" click reaches. The toggle has exactly two
/// positions: the project, which is the narrow default, and everywhere,
/// which has to be chosen out loud.
#[derive(Debug, Clone, Copy, PartialEq, Eq, Structural)]
pub enum AlwaysAllowScope {
    ThisWorkspace,
    Everywhere,
}

impl Default for AlwaysAllowScope {
    fn default() -> (r: AlwaysAllowScope)
        ensures
            r == AlwaysAllowScope::ThisWorkspace,
    {
        AlwaysAllowScope::ThisWorkspace
    }
}

pub open spec fn scope_label_spec(s: AlwaysAllowScope) -> Seq<char> {
    match s {
        AlwaysAllowScope::ThisWorkspace => "this project"@,
        AlwaysAllowScope::Everywhere => "everywhere"@,
    }
}

pub open spec fn toggled_spec(s: AlwaysAllowScope) -> AlwaysAllowScope {
    match s {
        AlwaysAllowScope::ThisWorkspace => AlwaysAllowScope::Everywhere,
        AlwaysAllowScope::Everywhere => AlwaysAllowScope::ThisWorkspace,
    }
}

pub open spec fn scope_rule_spec(s: AlwaysAllowScope) -> RuleScope {
    match s {
        AlwaysAllowScope::ThisWorkspace => RuleScope::Workspace,
        AlwaysAllowScope::Everywhere => RuleScope::Global,
    }
}

impl AlwaysAllowScope {
    /// Lower case: it is rendered after "scope: ", not as a title. The
    /// words are the permission card's, so the two surfaces name the same
    /// two reaches alike.
    pub fn label(self) -> (r: &'static str)
        ensures
            r@ == scope_label_spec(self),
    {
        match self {
            AlwaysAllowScope::ThisWorkspace => "this project",
            AlwaysAllowScope::Everywhere => "everywhere",
        }
    }

    pub fn toggled(self) -> (r: Self)
        ensures
            r == toggled_spec(self),
    {
        match self {
            AlwaysAllowScope::ThisWorkspace => AlwaysAllowScope::Everywhere,
            AlwaysAllowScope::Everywhere => AlwaysAllowScope::ThisWorkspace,
        }
    }

    fn rule_scope(self) -> (r: RuleScope)
        ensures
            r == scope_rule_spec(self),
    {
        match self {
            AlwaysAllowScope::ThisWorkspace => RuleScope::Workspace,
            AlwaysAllowScope::Everywhere => RuleScope::Global,
        }
    }
}

/// Toggling twice is where one started, and the two positions differ.
pub proof fn law_toggle_is_an_involution(s: AlwaysAllowScope)
    ensures
        toggled_spec(toggled_spec(s)) == s,
        toggled_spec(s) != s,
        scope_rule_spec(toggled_spec(s)) != scope_rule_spec(s),
{
}

/// The `remember` block an "Always allow" click sends. The pattern is
/// empty on purpose: an empty pattern tells the engine to pin this exact
/// command, while the command sent as a pattern would be stored as a glob.
/// Broadening a rule happens on the approval-policy page, not here.
pub fn remember_for(_row: &InboxRow, scope: AlwaysAllowScope) -> (r: RememberRule)
    ensures
        r.scope == scope_rule_spec(scope),
        r.pattern@ == Seq::<char>::empty(),
        r.name is None,
{
    RememberRule { scope: scope.rule_scope(), pattern: String::new(), name: None }
}

/// The four groups the agent list shows, in the order they are drawn.
#[derive(Debug, Clone, Copy, PartialEq, Eq, Structural)]
pub enum AgentGroup {
    WaitingForYou,
    Running,
    Done,
    Idle,
}

pub open spec fn heading_spec(g: AgentGroup) -> Seq<char> {
    match g {
        AgentGroup::WaitingForYou => "Waiting for you"@,
        AgentGroup::Running => "Running"@,
        AgentGroup::Done => "Done"@,
        AgentGroup::Idle => "Idle"@,
    }
}

/// The group of a rolled-up state: a parent whose child is blocked belongs
/// with the blocked ones, and a stopped run wants a decision too.
pub open spec fn group_of(state: AgentState) -> AgentGroup {
    match state {
        AgentState::NeedsYou { .. } | AgentState::Stopped => AgentGroup::WaitingForYou,
        AgentState::Working => AgentGroup::Running,
        AgentState::Done => AgentGroup::Done,
        AgentState::Idle => AgentGroup::Idle,
    }
}

impl AgentGroup {
    pub fn heading(self) -> (r: &'static str)
        ensures
            r@ == heading_spec(self),
    {
        match self {
            AgentGroup::WaitingForYou => "Waiting for you",
            AgentGroup::Running => "Running",
            AgentGroup::Done => "Done",
            AgentGroup::Idle => "Idle",
        }
    }

    /// Which group a row belongs to, by its rolled-up state.
    pub fn of(state: AgentState) -> (r: Self)
        ensures
            r == group_of(state),
    {
        match state {
            AgentState::NeedsYou { .. } | AgentState::Stopped => AgentGroup::WaitingForYou,
            AgentState::Working => AgentGroup::Running,
            AgentState::Done => AgentGroup::Done,
            AgentState::Idle => AgentGroup::Idle,
        }
    }

    pub const ORDER: [AgentGroup; 4] = [
        AgentGroup::WaitingForYou,
        AgentGroup::Running,
        AgentGroup::Done,
        AgentGroup::Idle,
    ];
}

/// One drawn row of the agent tree: the state row plus how deep it sits.
#[derive(Debug, Clone, PartialEq)]
pub struct AgentRow {
    pub id: String,
    pub chat_id: String,
    /// Chat title for a top-level agent, the spawn's description for a child.
    pub name: String,
    /// Nesting depth. 0 is a top-level agent.
    pub depth: usize,
    pub state: AgentState,
    pub rolled_up: AgentState,
    pub needs_you_children: u32,
    /// True when the row's own state is calm but a descendant is not: the
    /// case the roll-up badge exists for.
    pub rolled_up_only: bool,
}

/// An agent row, its strings by their characters.
pub struct AgentRowView {
    pub id: Seq<char>,
    pub chat_id: Seq<char>,
    pub name: Seq<char>,
    pub depth: nat,
    pub state: AgentState,
    pub rolled_up: AgentState,
    pub needs_you_children: u32,
    pub rolled_up_only: bool,
}

impl View for AgentRow {
    type V = AgentRowView;

    open spec fn view(&self) -> AgentRowView {
        AgentRowView {
            id: self.id@,
            chat_id: self.chat_id@,
            name: self.name@,
            depth: self.depth as nat,
            state: self.state,
            rolled_up: self.rolled_up,
            needs_you_children: self.needs_you_children,
            rolled_up_only: self.rolled_up_only,
        }
    }
}

/// One group heading plus its rows, children already nested under parents.
#[derive(Debug, Clone, PartialEq)]
pub struct AgentSection {
    pub group: AgentGroup,
    pub rows: Vec<AgentRow>,
}

pub open spec fn rows_view(s: Seq<AgentRow>) -> Seq<AgentRowView> {
    s.map_values(|r: AgentRow| r@)
}

pub open spec fn sections_view(s: Seq<AgentSection>) -> Seq<(AgentGroup, Seq<AgentRowView>)> {
    s.map_values(|x: AgentSection| (x.group, rows_view(x.rows@)))
}

/// The deepest a tree is drawn: a malformed frame could cycle, and a cap
/// cannot hang a paint.
pub const MAX_DEPTH: usize = 16;

/// What an agent row is called: its spawn description, else the title of
/// its chat, else the untitled stand-in.
pub open spec fn agent_name(chats: Seq<Chat>, r: AgentStateRow) -> Seq<char> {
    match r.label {
        Some(l) => l@,
        None => chat_name_for(chats, r.id@),
    }
}

pub open spec fn row_view(chats: Seq<Chat>, r: AgentStateRow, depth: nat) -> AgentRowView {
    AgentRowView {
        id: r.id@,
        chat_id: r.chat_id@,
        name: agent_name(chats, r),
        depth,
        state: r.state,
        rolled_up: r.rolled_up,
        needs_you_children: r.needs_you_children,
        rolled_up_only: !r.state.needs_you_spec() && r.rolled_up.needs_you_spec(),
    }
}

/// The rows of `s` whose parent is `id`, in the engine's order.
pub open spec fn children_of(s: Seq<AgentStateRow>, id: Seq<char>) -> Seq<AgentStateRow>
    decreases s.len(),
{
    if s.len() == 0 {
        seq![]
    } else {
        let c = children_of(s.drop_last(), id);
        if s.last().parent_id matches Some(p) && p@ == id {
            c.push(s.last())
        } else {
            c
        }
    }
}

/// `r` at `depth`, then its children's subtrees one level deeper, depth
/// first, down to the cap.
pub open spec fn subtree(rows: Seq<AgentStateRow>, chats: Seq<Chat>, r: AgentStateRow, depth: nat) -> Seq<AgentRowView>
    decreases 17 - depth, 0int, 0int,
{
    seq![row_view(chats, r, depth)] + if depth >= 16 {
        Seq::<AgentRowView>::empty()
    } else {
        forest(rows, chats, children_of(rows, r.id@), depth + 1)
    }
}

/// The subtrees of `kids`, one after another.
pub open spec fn forest(rows: Seq<AgentStateRow>, chats: Seq<Chat>, kids: Seq<AgentStateRow>, depth: nat) -> Seq<AgentRowView>
    decreases 17 - depth, 1int, kids.len(),
{
    if kids.len() == 0 {
        seq![]
    } else {
        forest(rows, chats, kids.drop_last(), depth) + subtree(rows, chats, kids.last(), depth)
    }
}

/// The trees of the top-level rows of `s` that fall in group `g`.
pub open spec fn group_rows(rows: Seq<AgentStateRow>, chats: Seq<Chat>, s: Seq<AgentStateRow>, g: AgentGroup) -> Seq<AgentRowView>
    decreases s.len(),
{
    if s.len() == 0 {
        seq![]
    } else {
        let before = group_rows(rows, chats, s.drop_last(), g);
        if s.last().parent_id is None && group_of(s.last().rolled_up) == g {
            before + subtree(rows, chats, s.last(), 0)
        } else {
            before
        }
    }
}

pub open spec fn section_if_any(rows: Seq<AgentStateRow>, chats: Seq<Chat>, g: AgentGroup) -> Seq<(AgentGroup, Seq<AgentRowView>)> {
    let rs = group_rows(rows, chats, rows, g);
    if rs.len() > 0 {
        seq![(g, rs)]
    } else {
        seq![]
    }
}

/// The groups in their order, each with its trees, empty groups left out.
pub open spec fn sections_spec(rows: Seq<AgentStateRow>, chats: Seq<Chat>) -> Seq<(AgentGroup, Seq<AgentRowView>)> {
    section_if_any(rows, chats, AgentGroup::WaitingForYou) + section_if_any(rows, chats, AgentGroup::Running)
        + section_if_any(rows, chats, AgentGroup::Done) + section_if_any(rows, chats, AgentGroup::Idle)
}

fn agent_row_name(chats: &[Chat], r: &AgentStateRow) -> (n: String)
    ensures
        n@ == agent_name(chats@, *r),
{
    match &r.label {
        Some(l) => owned(l.as_str()),
        None => chat_name(chats, r.id.as_str()),
    }
}

fn is_child_of(r: &AgentStateRow, id: &[char]) -> (b: bool)
    ensures
        b == (r.parent_id matches Some(p) && p@ == id@),
{
    match &r.parent_id {
        Some(p) => chars_eq(chars_of(p.as_str()).as_slice(), id),
        None => false,
    }
}

fn push_subtree(out: &mut Vec<AgentRow>, rows: &[AgentStateRow], chats: &[Chat], row: &AgentStateRow, depth: usize)
    requires
        depth <= MAX_DEPTH,
    ensures
        rows_view(final(out)@) == rows_view(old(out)@) + subtree(rows@, chats@, *row, depth as nat),
    decreases 17 - depth,
{
    let ghost start = rows_view(out@);
    let made = AgentRow {
        id: owned(row.id.as_str()),
        chat_id: owned(row.chat_id.as_str()),
        name: agent_row_name(chats, row),
        depth,
        state: row.state,
        rolled_up: row.rolled_up,
        needs_you_children: row.needs_you_children,
        rolled_up_only: !row.state.needs_you() && row.rolled_up.needs_you(),
    };
    out.push(made);
    assert(rows_view(out@) == start.push(row_view(chats@, *row, depth as nat)));
    if depth >= MAX_DEPTH {
        assert(subtree(rows@, chats@, *row, depth as nat) == seq![row_view(chats@, *row, depth as nat)]);
        return;
    }
    let id = chars_of(row.id.as_str());
    let mut k: usize = 0;
    assert(rows@.take(0) == Seq::<AgentStateRow>::empty());
    while k < rows.len()
        invariant
            k <= rows@.len(),
            depth < MAX_DEPTH,
            id@ == row.id@,
            rows_view(out@) == start.push(row_view(chats@, *row, depth as nat)) + forest(
                rows@,
                chats@,
                children_of(rows@.take(k as int), row.id@),
                (depth + 1) as nat,
            ),
        decreases rows@.len() - k,
    {
        let ghost before = rows_view(out@);
        let ghost kids = children_of(rows@.take(k as int), row.id@);
        assert(rows@.take(k + 1).drop_last() == rows@.take(k as int));
        assert(rows@.take(k + 1).last() == rows@[k as int]);
        if is_child_of(&rows[k], id.as_slice()) {
            push_subtree(out, rows, chats, &rows[k], depth + 1);
            assert(children_of(rows@.take(k + 1), row.id@) == kids.push(rows@[k as int]));
            assert(kids.push(rows@[k as int]).drop_last() == kids);
        }
        k += 1;
    }
    assert(rows@.take(rows@.len() as int) == rows@);
}

proof fn lemma_group_rows_step(rows: Seq<AgentStateRow>, chats: Seq<Chat>, k: int, g: AgentGroup)
    requires
        0 <= k < rows.len(),
    ensures
        group_rows(rows, chats, rows.take(k + 1), g) == if rows[k].parent_id is None && group_of(
            rows[k].rolled_up,
        ) == g {
            group_rows(rows, chats, rows.take(k), g) + subtree(rows, chats, rows[k], 0)
        } else {
            group_rows(rows, chats, rows.take(k), g)
        },
{
    assert(rows.take(k + 1).drop_last() == rows.take(k));
    assert(rows.take(k + 1).last() == rows[k]);
}

fn push_section(out: &mut Vec<AgentSection>, group: AgentGroup, rows: Vec<AgentRow>)
    ensures
        sections_view(final(out)@) == sections_view(old(out)@) + if rows@.len() > 0 {
            seq![(group, rows_view(rows@))]
        } else {
            Seq::<(AgentGroup, Seq<AgentRowView>)>::empty()
        },
{
    let ghost before = sections_view(out@);
    let ghost rv = rows_view(rows@);
    if rows.len() > 0 {
        out.push(AgentSection { group, rows });
        assert(sections_view(out@) == before.push((group, rv)));
    } else {
        assert(before + Seq::<(AgentGroup, Seq<AgentRowView>)>::empty() == before);
    }
}

/// Group the agent rows and flatten each group's trees depth first, so a
/// child always renders directly under its parent. Grouping is by the
/// top-level row's rolled-up state; a child rides in its parent's group
/// whatever its own state, and a child whose parent never arrived is not
/// drawn until a frame carries both.
pub fn agent_sections(rows: &[AgentStateRow], chats: &[Chat]) -> (r: Vec<AgentSection>)
    ensures
        sections_view(r@) == sections_spec(rows@, chats@),
{
    let mut waiting: Vec<AgentRow> = Vec::new();
    let mut running: Vec<AgentRow> = Vec::new();
    let mut done: Vec<AgentRow> = Vec::new();
    let mut idle: Vec<AgentRow> = Vec::new();
    let mut k: usize = 0;
    assert(rows@.take(0) == Seq::<AgentStateRow>::empty());
    assert(rows_view(waiting@) == Seq::<AgentRowView>::empty());
    assert(rows_view(running@) == Seq::<AgentRowView>::empty());
    assert(rows_view(done@) == Seq::<AgentRowView>::empty());
    assert(rows_view(idle@) == Seq::<AgentRowView>::empty());
    while k < rows.len()
        invariant
            k <= rows@.len(),
            rows_view(waiting@) == group_rows(rows@, chats@, rows@.take(k as int), AgentGroup::WaitingForYou),
            rows_view(running@) == group_rows(rows@, chats@, rows@.take(k as int), AgentGroup::Running),
            rows_view(done@) == group_rows(rows@, chats@, rows@.take(k as int), AgentGroup::Done),
            rows_view(idle@) == group_rows(rows@, chats@, rows@.take(k as int), AgentGroup::Idle),
        decreases rows@.len() - k,
    {
        proof {
            lemma_group_rows_step(rows@, chats@, k as int, AgentGroup::WaitingForYou);
            lemma_group_rows_step(rows@, chats@, k as int, AgentGroup::Running);
            lemma_group_rows_step(rows@, chats@, k as int, AgentGroup::Done);
            lemma_group_rows_step(rows@, chats@, k as int, AgentGroup::Idle);
        }
        let row = &rows[k];
        if row.parent_id.is_none() {
            match AgentGroup::of(row.rolled_up) {
                AgentGroup::WaitingForYou => push_subtree(&mut waiting, rows, chats, row, 0),
                AgentGroup::Running => push_subtree(&mut running, rows, chats, row, 0),
                AgentGroup::Done => push_subtree(&mut done, rows, chats, row, 0),
                AgentGroup::Idle => push_subtree(&mut idle, rows, chats, row, 0),
            }
        }
        k += 1;
    }
    assert(rows@.take(rows@.len() as int) == rows@);
    let mut sections: Vec<AgentSection> = Vec::new();
    assert(sections_view(sections@) == Seq::<(AgentGroup, Seq<AgentRowView>)>::empty());
    push_section(&mut sections, AgentGroup::WaitingForYou, waiting);
    push_section(&mut sections, AgentGroup::Running, running);
    push_section(&mut sections, AgentGroup::Done, done);
    push_section(&mut sections, AgentGroup::Idle, idle);
    sections
}

proof fn lemma_tree_depths(rows: Seq<AgentStateRow>, chats: Seq<Chat>, r: AgentStateRow, d: nat)
    requires
        d <= 16,
    ensures
        subtree(rows, chats, r, d).len() >= 1,
        subtree(rows, chats, r, d)[0] == row_view(chats, r, d),
        forall|i: int|
            1 <= i < subtree(rows, chats, r, d).len() ==> d < (#[trigger] subtree(
                rows,
                chats,
                r,
                d,
            )[i]).depth <= 16,
    decreases 17 - d, 0int, 0int,
{
    if d < 16 {
        let kids = children_of(rows, r.id@);
        lemma_forest_depths(rows, chats, kids, (d + 1) as nat);
        let f = forest(rows, chats, kids, (d + 1) as nat);
        let t = subtree(rows, chats, r, d);
        assert(t == seq![row_view(chats, r, d)] + f);
        assert forall|i: int| 1 <= i < t.len() implies d < (#[trigger] t[i]).depth <= 16 by {
            assert(t[i] == f[i - 1]);
        }
    }
}

proof fn lemma_forest_depths(rows: Seq<AgentStateRow>, chats: Seq<Chat>, kids: Seq<AgentStateRow>, d: nat)
    requires
        1 <= d <= 16,
    ensures
        forall|i: int|
            0 <= i < forest(rows, chats, kids, d).len() ==> d <= (#[trigger] forest(
                rows,
                chats,
                kids,
                d,
            )[i]).depth <= 16,
    decreases 17 - d, 1int, kids.len(),
{
    if kids.len() > 0 {
        lemma_forest_depths(rows, chats, kids.drop_last(), d);
        lemma_tree_depths(rows, chats, kids.last(), d);
        let a = forest(rows, chats, kids.drop_last(), d);
        let b = subtree(rows, chats, kids.last(), d);
        let f = forest(rows, chats, kids, d);
        assert(f == a + b);
        assert forall|i: int| 0 <= i < f.len() implies d <= (#[trigger] f[i]).depth <= 16 by {
            if i < a.len() {
                assert(f[i] == a[i]);
            } else {
                assert(f[i] == b[i - a.len()]);
            }
        }
    }
}

/// A child always renders directly under its parent: a tree's rows start
/// with its own row at its depth, everything after it sits deeper, and no
/// row goes past the depth cap.
pub proof fn law_children_sit_under_their_parent(
    rows: Seq<AgentStateRow>,
    chats: Seq<Chat>,
    r: AgentStateRow,
    d: nat,
)
    requires
        d <= 16,
    ensures
        subtree(rows, chats, r, d)[0] == row_view(chats, r, d),
        forall|i: int|
            1 <= i < subtree(rows, chats, r, d).len() ==> d < (#[trigger] subtree(
                rows,
                chats,
                r,
                d,
            )[i]).depth <= 16,
{
    lemma_tree_depths(rows, chats, r, d);
}

proof fn lemma_group_starts_at_a_root(rows: Seq<AgentStateRow>, chats: Seq<Chat>, s: Seq<AgentStateRow>, g: AgentGroup)
    ensures
        group_rows(rows, chats, s, g).len() > 0 ==> group_rows(rows, chats, s, g)[0].depth == 0,
    decreases s.len(),
{
    if s.len() > 0 {
        lemma_group_starts_at_a_root(rows, chats, s.drop_last(), g);
        lemma_tree_depths(rows, chats, s.last(), 0);
        let before = group_rows(rows, chats, s.drop_last(), g);
        if s.last().parent_id is None && group_of(s.last().rolled_up) == g {
            let t = subtree(rows, chats, s.last(), 0);
            if before.len() == 0 {
                assert((before + t)[0] == t[0]);
            } else {
                assert((before + t)[0] == before[0]);
            }
        }
    }
}

pub open spec fn group_rank(g: AgentGroup) -> int {
    match g {
        AgentGroup::WaitingForYou => 0,
        AgentGroup::Running => 1,
        AgentGroup::Done => 2,
        AgentGroup::Idle => 3,
    }
}

/// The agent list draws no empty group, draws the groups in their fixed
/// order, each group once, and starts every group at a top-level row.
pub proof fn law_sections_in_order_and_never_empty(rows: Seq<AgentStateRow>, chats: Seq<Chat>)
    ensures
        forall|i: int|
            0 <= i < sections_spec(rows, chats).len() ==> (#[trigger] sections_spec(rows, chats)[i]).1.len()
                > 0 && sections_spec(rows, chats)[i].1[0].depth == 0,
        forall|i: int, j: int|
            0 <= i < j < sections_spec(rows, chats).len() ==> group_rank(
                sections_spec(rows, chats)[i].0,
            ) < group_rank(sections_spec(rows, chats)[j].0),
{
    let w = section_if_any(rows, chats, AgentGroup::WaitingForYou);
    let r = section_if_any(rows, chats, AgentGroup::Running);
    let d = section_if_any(rows, chats, AgentGroup::Done);
    let i = section_if_any(rows, chats, AgentGroup::Idle);
    lemma_group_starts_at_a_root(rows, chats, rows, AgentGroup::WaitingForYou);
    lemma_group_starts_at_a_root(rows, chats, rows, AgentGroup::Running);
    lemma_group_starts_at_a_root(rows, chats, rows, AgentGroup::Done);
    lemma_group_starts_at_a_root(rows, chats, rows, AgentGroup::Idle);
    let all = sections_spec(rows, chats);
    assert(all == w + r + d + i);
    assert forall|k: int| 0 <= k < all.len() implies all[k].1.len() > 0 && all[k].1[0].depth == 0
        && group_rank(all[k].0) == if k < w.len() {
        0int
    } else if k < w.len() + r.len() {
        1int
    } else if k < w.len() + r.len() + d.len() {
        2int
    } else {
        3int
    } by {
        if k < w.len() {
            assert(all[k] == w[k]);
        } else if k < w.len() + r.len() {
            assert(all[k] == r[k - w.len()]);
        } else if k < w.len() + r.len() + d.len() {
            assert(all[k] == d[k - w.len() - r.len()]);
        } else {
            assert(all[k] == i[k - w.len() - r.len() - d.len()]);
        }
    }
}

} // verus!
