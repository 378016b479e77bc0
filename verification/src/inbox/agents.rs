//! The agent list's state: the agents and chats the engine last sent, the
//! chat that is open, and how many agents want the user.
use vstd::prelude::*;
use crate::inbox::model::{agent_sections, sections_spec, sections_view, AgentSection};
use crate::proto::{AgentStateRow, Chat};
use crate::text::{chars_eq, chars_of, opt_view};

verus! {

/// How many of `rows` want the user; a blocked child counts once, as
/// itself.
pub open spec fn needs_you_total(rows: Seq<AgentStateRow>) -> nat
    decreases rows.len(),
{
    if rows.len() == 0 {
        0
    } else {
        needs_you_total(rows.drop_last()) + if rows.last().state.needs_you_spec() {
            1nat
        } else {
            0nat
        }
    }
}

proof fn lemma_needs_you_total_bound(rows: Seq<AgentStateRow>)
    ensures
        needs_you_total(rows) <= rows.len(),
    decreases rows.len(),
{
    if rows.len() > 0 {
        lemma_needs_you_total_bound(rows.drop_last());
    }
}

/// The rail: every agent grouped by state, and the chat that is open.
pub struct AgentsRail {
    pub rows: Vec<AgentStateRow>,
    pub chats: Vec<Chat>,
    pub selected: Option<String>,
}

impl AgentsRail {
    /// The rail over these fixtures, nothing selected.
    pub fn demo(rows: Vec<AgentStateRow>, chats: Vec<Chat>) -> (r: AgentsRail)
        ensures
            r.rows == rows,
            r.chats == chats,
            r.selected is None,
    {
        AgentsRail { rows, chats, selected: None }
    }

    /// A frame of both streams.
    pub fn set_rows(&mut self, rows: Vec<AgentStateRow>, chats: Vec<Chat>)
        ensures
            final(self).rows == rows,
            final(self).chats == chats,
            final(self).selected == old(self).selected,
    {
        self.rows = rows;
        self.chats = chats;
    }

    /// The groups to draw.
    pub fn sections(&self) -> (r: Vec<AgentSection>)
        ensures
            sections_view(r@) == sections_spec(self.rows@, self.chats@),
    {
        agent_sections(self.rows.as_slice(), self.chats.as_slice())
    }

    /// How many rows want the user, descendants counted once each: the
    /// number a collapsed workspace row shows.
    pub fn needs_you_count(&self) -> (r: usize)
        ensures
            r == needs_you_total(self.rows@),
    {
        let mut n: usize = 0;
        let mut i: usize = 0;
        while i < self.rows.len()
            invariant
                i <= self.rows@.len(),
                n == needs_you_total(self.rows@.take(i as int)),
            decreases self.rows@.len() - i,
        {
            proof {
                assert(self.rows@.take(i + 1).drop_last() == self.rows@.take(i as int));
                assert(self.rows@.take(i + 1).last() == self.rows@[i as int]);
                lemma_needs_you_total_bound(self.rows@.take(i as int));
            }
            if self.rows[i].state.needs_you() {
                n = n + 1;
            }
            i += 1;
        }
        assert(self.rows@.take(self.rows@.len() as int) == self.rows@);
        n
    }

    /// The chat the shell has open, if it is one of this rail's.
    pub fn set_selected(&mut self, chat_id: Option<String>)
        ensures
            final(self).selected == chat_id,
            final(self).rows == old(self).rows,
            final(self).chats == old(self).chats,
    {
        self.selected = chat_id;
    }

    /// Whether a row of chat `chat_id` is drawn as the open one.
    pub fn is_selected(&self, chat_id: &str) -> (r: bool)
        ensures
            r == (opt_view(self.selected) == Some(chat_id@)),
    {
        match &self.selected {
            Some(s) => chars_eq(chars_of(s.as_str()).as_slice(), chars_of(chat_id).as_slice()),
            None => false,
        }
    }
}


/// The count is of the agents that want the user: nothing for no agents,
/// and one more for each agent waiting on an answer of any kind
/// (permission, question, failure) or stopped, none for one that is
/// working, done or idle. It is the number of rows whose state wants the
/// user.
pub proof fn law_every_waiting_agent_counts_once(rows: Seq<AgentStateRow>, row: AgentStateRow)
    ensures
        needs_you_total(Seq::empty()) == 0,
        needs_you_total(rows.push(row)) == needs_you_total(rows) + if row.state is NeedsYou || row.state is Stopped {
            1int
        } else {
            0int
        },
        needs_you_total(rows) == rows.filter(|x: AgentStateRow| x.state.needs_you_spec()).len(),
    decreases rows.len(),
{
    reveal(Seq::filter);
    assert(rows.push(row).drop_last() =~= rows);
    if rows.len() > 0 {
        law_every_waiting_agent_counts_once(rows.drop_last(), rows.last());
    }
}

} // verus!
