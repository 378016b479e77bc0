//! The lines on a permission card, and what each one commits the user to.
//!
//! Three of them existed before yolo mode: allow this once, write a rule that
//! allows exactly this command forever in this project, deny. The fourth
//! answers this request and switches the chat into yolo mode; the fifth is
//! the always-allow rule with the wider, device-wide reach.
use vstd::prelude::*;
use crate::proto::{PermissionDecision, RuleScope};

verus! {

/// What one line on the card does.
#[derive(Debug, Clone, Copy, PartialEq, Eq, Structural)]
pub enum PermissionAnswer {
    /// This request, this once.
    Allow,
    /// This request, and an always-allow rule for the project, pinned to
    /// this exact command.
    AllowAlways,
    /// The same rule, on every checkout on this device.
    AllowAlwaysEverywhere,
    /// This request, and the chat stops asking: yolo mode on. A mode, not a
    /// rule.
    AllowAndStopAsking,
    /// Not this one.
    Deny,
}

/// The words on each line.
pub open spec fn label_spec(a: PermissionAnswer) -> Seq<char> {
    match a {
        PermissionAnswer::Allow => "Allow"@,
        PermissionAnswer::AllowAlways => "Always allow exactly this in this project"@,
        PermissionAnswer::AllowAlwaysEverywhere => "Always allow exactly this everywhere"@,
        PermissionAnswer::Deny => "Deny"@,
        PermissionAnswer::AllowAndStopAsking => "Allow, and stop asking in this chat"@,
    }
}

/// How far a line's rule reaches, for the lines that write one.
pub open spec fn rule_scope_spec(a: PermissionAnswer) -> Option<RuleScope> {
    match a {
        PermissionAnswer::AllowAlways => Some(RuleScope::Workspace),
        PermissionAnswer::AllowAlwaysEverywhere => Some(RuleScope::Global),
        _ => None,
    }
}

/// The decision a line sends, for the lines that send one.
pub open spec fn decision_spec(a: PermissionAnswer) -> Option<PermissionDecision> {
    match a {
        PermissionAnswer::Allow | PermissionAnswer::AllowAlways
        | PermissionAnswer::AllowAlwaysEverywhere => Some(PermissionDecision::Allow),
        PermissionAnswer::Deny => Some(PermissionDecision::Deny),
        PermissionAnswer::AllowAndStopAsking => None,
    }
}

/// The lines, in the order they are drawn and numbered: the old three keep
/// their digits, and the newer lines are appended.
pub open spec fn rows_spec() -> Seq<PermissionAnswer> {
    seq![
        PermissionAnswer::Allow,
        PermissionAnswer::AllowAlways,
        PermissionAnswer::Deny,
        PermissionAnswer::AllowAndStopAsking,
        PermissionAnswer::AllowAlwaysEverywhere,
    ]
}

impl PermissionAnswer {
    pub fn label(self) -> (r: &'static str)
        ensures
            r@ == label_spec(self),
    {
        match self {
            PermissionAnswer::Allow => "Allow",
            PermissionAnswer::AllowAlways => "Always allow exactly this in this project",
            PermissionAnswer::AllowAlwaysEverywhere => "Always allow exactly this everywhere",
            PermissionAnswer::Deny => "Deny",
            PermissionAnswer::AllowAndStopAsking => "Allow, and stop asking in this chat",
        }
    }

    /// The decision sent to the engine, for the lines that send one.
    /// `AllowAndStopAsking` sends none: switching yolo on is the answer.
    pub fn decision(self) -> (r: Option<PermissionDecision>)
        ensures
            r == decision_spec(self),
    {
        match self {
            PermissionAnswer::Allow
            | PermissionAnswer::AllowAlways
            | PermissionAnswer::AllowAlwaysEverywhere => Some(PermissionDecision::Allow),
            PermissionAnswer::Deny => Some(PermissionDecision::Deny),
            PermissionAnswer::AllowAndStopAsking => None,
        }
    }

    /// Does this line write an always-allow rule?
    pub fn remembers(self) -> (r: bool)
        ensures
            r == rule_scope_spec(self) is Some,
    {
        self.rule_scope().is_some()
    }

    /// How far this line's rule reaches, for the lines that write one.
    pub fn rule_scope(self) -> (r: Option<RuleScope>)
        ensures
            r == rule_scope_spec(self),
    {
        match self {
            PermissionAnswer::AllowAlways => Some(RuleScope::Workspace),
            PermissionAnswer::AllowAlwaysEverywhere => Some(RuleScope::Global),
            _ => None,
        }
    }

    /// Does this line switch the chat into yolo mode?
    pub fn stops_asking(self) -> (r: bool)
        ensures
            r == (self == PermissionAnswer::AllowAndStopAsking),
    {
        match self {
            PermissionAnswer::AllowAndStopAsking => true,
            _ => false,
        }
    }
}

/// The lines, in the order they are drawn and numbered.
pub const ROWS: [PermissionAnswer; 5] = [
    PermissionAnswer::Allow,
    PermissionAnswer::AllowAlways,
    PermissionAnswer::Deny,
    PermissionAnswer::AllowAndStopAsking,
    PermissionAnswer::AllowAlwaysEverywhere,
];

/// The answer a bare digit picks, 1-based as the card numbers them.
pub fn for_digit(digit: usize) -> (r: Option<PermissionAnswer>)
    ensures
        1 <= digit <= 5 ==> r == Some(rows_spec()[digit - 1]),
        !(1 <= digit <= 5) ==> r is None,
{
    if digit == 0 || digit > 5 {
        return None;
    }
    let rows = ROWS;
    assert(rows@ =~= rows_spec());
    Some(rows[digit - 1])
}

/// Every line either sends a decision or switches the chat's mode, so no
/// answer leaves the tool blocked with nothing sent; and a line writes a
/// rule exactly when it is one of the two always-allow lines.
pub proof fn law_every_line_answers(a: PermissionAnswer)
    ensures
        decision_spec(a) is Some || a == PermissionAnswer::AllowAndStopAsking,
        (rule_scope_spec(a) is Some) == (a == PermissionAnswer::AllowAlways || a
            == PermissionAnswer::AllowAlwaysEverywhere),
        a == PermissionAnswer::AllowAndStopAsking ==> decision_spec(a) is None && rule_scope_spec(
            a,
        ) is None,
{
}

} // verus!
