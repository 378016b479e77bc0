//! The approval-policy page's words for where a standing rule reaches.
use vstd::prelude::*;
use crate::inbox::model::{AlwaysAllowScope, scope_label_spec};
use crate::proto::{AllowRule, RuleScope};
use crate::text::{append, chars_eq, chars_of, last_segment, last_segment_chars, string_of};
use crate::settings::servers::add::{trim_end_slashes, trim_end_slashes_chars};

verus! {

/// The folder a workspace rule names: the last segment of its path, a
/// trailing `/` aside; the scope's own words when there is no path or the
/// segment is empty.
pub open spec fn folder_words(workspace_path: Option<Seq<char>>) -> Seq<char> {
    match workspace_path {
        Some(p) => {
            let name = last_segment(trim_end_slashes(p));
            if name.len() > 0 {
                name
            } else {
                scope_label_spec(AlwaysAllowScope::ThisWorkspace)
            }
        },
        None => scope_label_spec(AlwaysAllowScope::ThisWorkspace),
    }
}

pub open spec fn scope_line_spec(rule: AllowRule) -> Seq<char> {
    match rule.scope {
        RuleScope::Global => rule.tool_name@ + ", everywhere"@,
        RuleScope::Workspace => rule.tool_name@ + ", in "@ + folder_words(
            match rule.workspace_path {
                Some(p) => Some(p@),
                None => None,
            },
        ),
    }
}

/// "Bash, in project-jag" / "Bash, everywhere": where a rule reaches, said
/// in words rather than as a path the user has to parse. A workspace rule
/// that lost its path falls back to the same words the permission card and
/// the needs-you chip use for that reach.
pub fn scope_line(rule: &AllowRule) -> (r: String)
    ensures
        r@ == scope_line_spec(*rule),
{
    let mut v = chars_of(rule.tool_name.as_str());
    match rule.scope {
        RuleScope::Global => {
            append(&mut v, chars_of(", everywhere").as_slice());
        },
        RuleScope::Workspace => {
            let fallback = chars_of(AlwaysAllowScope::ThisWorkspace.label());
            let folder = match &rule.workspace_path {
                Some(p) => {
                    let name = last_segment_chars(
                        trim_end_slashes_chars(chars_of(p.as_str()).as_slice()).as_slice(),
                    );
                    if name.len() > 0 {
                        name
                    } else {
                        fallback
                    }
                },
                None => fallback,
            };
            append(&mut v, chars_of(", in ").as_slice());
            append(&mut v, folder.as_slice());
        },
    }
    string_of(v.as_slice())
}

/// The rules left after dropping the one with id `id`, in order.
pub open spec fn without_rule(rules: Seq<AllowRule>, id: Seq<char>) -> Seq<AllowRule>
    decreases rules.len(),
{
    if rules.len() == 0 {
        rules
    } else {
        let rest = without_rule(rules.drop_last(), id);
        if rules.last().id@ == id {
            rest
        } else {
            rest.push(rules.last())
        }
    }
}

/// What the engine answered when asked for the rules.
#[derive(Debug, Clone, PartialEq, Eq)]
pub enum RulesAnswer {
    Listed(Vec<AllowRule>),
    /// The answer came but could not be read as rules.
    Unreadable(String),
    /// The call itself failed.
    CallFailed(String),
}

/// The approval-policy page's state: the rules on this device, and why the
/// last call about them failed.
pub struct RulesPane {
    pub rules: Vec<AllowRule>,
    pub failure: Option<String>,
}

impl RulesPane {
    /// The page with these rules and nothing failed; the demo and the tests
    /// start here, the engine-backed page from no rules.
    pub fn demo(rules: Vec<AllowRule>) -> (r: RulesPane)
        ensures
            r.rules == rules,
            r.failure is None,
    {
        RulesPane { rules, failure: None }
    }

    pub fn set_rules(&mut self, rules: Vec<AllowRule>)
        ensures
            final(self).rules == rules,
            final(self).failure == old(self).failure,
    {
        self.rules = rules;
    }

    pub fn rules(&self) -> (r: &[AllowRule])
        ensures
            r@ == self.rules@,
    {
        self.rules.as_slice()
    }

    /// The list came back: the rules replace the page's, or the page says
    /// why it could not load them and keeps what it showed.
    pub fn reload_answered(&mut self, answer: RulesAnswer)
        ensures
            match answer {
                RulesAnswer::Listed(rules) => final(self).rules == rules && final(self).failure is None,
                RulesAnswer::Unreadable(e) => final(self).rules == old(self).rules && (final(self).failure
                    matches Some(f) && f@ == "Could not read the rules: "@ + e@),
                RulesAnswer::CallFailed(e) => final(self).rules == old(self).rules && (final(self).failure
                    matches Some(f) && f@ == "Could not load rules: "@ + e@),
            },
    {
        match answer {
            RulesAnswer::Listed(rules) => {
                self.rules = rules;
                self.failure = None;
            },
            RulesAnswer::Unreadable(e) => {
                let mut v = chars_of("Could not read the rules: ");
                append(&mut v, chars_of(e.as_str()).as_slice());
                self.failure = Some(string_of(v.as_slice()));
            },
            RulesAnswer::CallFailed(e) => {
                let mut v = chars_of("Could not load rules: ");
                append(&mut v, chars_of(e.as_str()).as_slice());
                self.failure = Some(string_of(v.as_slice()));
            },
        }
    }

    /// Delete: the row goes at once, before the engine answers; a failed
    /// call reloads the truth back over it.
    pub fn delete(&mut self, rule_id: &str)
        ensures
            final(self).rules@ == without_rule(old(self).rules@, rule_id@),
            final(self).failure is None,
    {
        let mut rest: Vec<AllowRule> = Vec::new();
        std::mem::swap(&mut rest, &mut self.rules);
        let ghost all = rest@;
        let id = chars_of(rule_id);
        let mut kept: Vec<AllowRule> = Vec::new();
        while rest.len() > 0
            invariant
                all.len() >= rest@.len(),
                rest@ == all.skip(all.len() - rest@.len()),
                kept@ == without_rule(all.take(all.len() - rest@.len()), rule_id@),
                id@ == rule_id@,
            decreases rest@.len(),
        {
            let ghost k = all.len() - rest@.len();
            let r = rest.remove(0);
            proof {
                assert(all.take(k + 1).drop_last() =~= all.take(k));
                assert(all.take(k + 1).last() == all[k]);
                assert(rest@ =~= all.skip(k + 1));
            }
            if !chars_eq(chars_of(r.id.as_str()).as_slice(), id.as_slice()) {
                kept.push(r);
            }
        }
        assert(all.take(all.len() as int) =~= all);
        self.rules = kept;
        self.failure = None;
    }

    /// The delete call failed: say so. The reload that follows brings the
    /// row back.
    pub fn delete_failed(&mut self, error: &str)
        ensures
            final(self).rules == old(self).rules,
            final(self).failure matches Some(f) && f@ == "Could not delete the rule: "@ + error@,
    {
        let mut v = chars_of("Could not delete the rule: ");
        append(&mut v, chars_of(error).as_slice());
        self.failure = Some(string_of(v.as_slice()));
    }
}

} // verus!
