//! The engine protocol's plain values that the app's logic reads: which
//! agent CLI, how far a rule reaches, what a permission answer decides,
//! what waits for the user and how each agent is doing.
use vstd::prelude::*;

verus! {

/// The agent CLIs the engine can drive.
#[derive(Debug, Clone, Copy, PartialEq, Eq, Structural, Hash)]
pub enum HarnessId {
    ClaudeCode,
    Codex,
    Cursor,
    Devin,
    Grok,
    Hermes,
    Pi,
    Opencode,
    Mock,
}

/// How far an always-allow rule reaches.
#[derive(Debug, Clone, Copy, PartialEq, Eq, Structural)]
pub enum RuleScope {
    /// This project only.
    Workspace,
    /// Every checkout on this device.
    Global,
}

/// The answer sent to a parked permission request.
#[derive(Debug, Clone, Copy, PartialEq, Eq, Structural)]
pub enum PermissionDecision {
    Allow,
    Deny,
}

/// Why an item waits for the user.
#[derive(Debug, Clone, Copy, PartialEq, Eq, Structural)]
pub enum NeedsYouKind {
    Permission,
    Question,
    Failed,
}

/// Where one agent stands.
#[derive(Debug, Clone, Copy, PartialEq, Eq, Structural)]
pub enum AgentState {
    NeedsYou { kind: NeedsYouKind },
    Working,
    Done,
    Idle,
    Stopped,
}

impl AgentState {
    /// Does this state want something from the user: an answer, or a
    /// decision about a stopped run?
    pub open spec fn needs_you_spec(self) -> bool {
        self is NeedsYou || self is Stopped
    }

    pub fn needs_you(self) -> (r: bool)
        ensures
            r == self.needs_you_spec(),
    {
        match self {
            AgentState::NeedsYou { .. } | AgentState::Stopped => true,
            _ => false,
        }
    }
}

/// One pending item of the needs-you stream. `created_at` is the engine's
/// timestamp in seconds since the epoch.
#[derive(Debug, Clone, PartialEq, Eq)]
pub struct NeedsYouItem {
    pub id: String,
    pub chat_id: String,
    pub agent_id: String,
    pub kind: NeedsYouKind,
    pub title: String,
    pub prompt: String,
    pub options: Vec<String>,
    pub multi_select: bool,
    pub tool_name: Option<String>,
    pub tool_command: Option<String>,
    pub retryable: bool,
    pub created_at: i64,
}

/// A chat, as far as the inbox reads one: its id and its title.
#[derive(Debug, Clone, PartialEq, Eq)]
pub struct Chat {
    pub id: String,
    pub title: Option<String>,
}

/// One agent of the state stream. A top-level agent has no parent and
/// carries its chat id as its id.
#[derive(Debug, Clone, PartialEq, Eq)]
pub struct AgentStateRow {
    pub id: String,
    pub parent_id: Option<String>,
    pub chat_id: String,
    pub state: AgentState,
    /// The worst state in this agent's subtree.
    pub rolled_up: AgentState,
    pub needs_you_children: u32,
    /// The spawn's description, for a child.
    pub label: Option<String>,
}

/// The rule an always-allow answer asks the engine to write.
#[derive(Debug, Clone, PartialEq, Eq)]
pub struct RememberRule {
    pub scope: RuleScope,
    /// Empty pins the exact command.
    pub pattern: String,
    pub name: Option<String>,
}

/// A standing always-allow rule.
#[derive(Debug, Clone, PartialEq, Eq)]
pub struct AllowRule {
    pub id: String,
    pub name: String,
    pub scope: RuleScope,
    pub workspace_path: Option<String>,
    pub tool_name: String,
    pub pattern: String,
    pub exact: bool,
}

/// The labels picked for one question.
#[derive(Debug, Clone, PartialEq, Eq)]
pub struct UserInputAnswer {
    pub question_id: String,
    pub labels: Vec<String>,
}

/// What a file read answered.
#[derive(Debug, Clone, PartialEq, Eq)]
pub enum FileRead {
    Text { text: String, hash: String, size: u64, lines: u64 },
    Binary { size: u64 },
    TooLarge { size: u64, max: u64 },
}

/// What a file write answered: saved with the new content hash, or refused
/// with what is on disk now.
#[derive(Debug, Clone, PartialEq, Eq)]
pub enum FileWrite {
    Saved { hash: String, size: u64 },
    Refused { reason: String, text: Option<String>, hash: Option<String> },
}

/// A change to the project's files.
#[derive(Debug, Clone, PartialEq, Eq)]
pub enum FileMutation {
    Create { path: String },
    Rename { path: String, new_path: String },
    Delete { path: String },
}

/// One hit of a file search.
#[derive(Debug, Clone, PartialEq, Eq)]
pub struct FileSearchMatch {
    pub path: String,
    pub is_dir: bool,
}

} // verus!
