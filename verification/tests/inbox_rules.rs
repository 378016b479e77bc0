use surya_ui::inbox::model::AlwaysAllowScope;
use surya_ui::inbox::rules::{scope_line, RulesAnswer, RulesPane};
use surya_ui::proto::{AllowRule, RuleScope};

fn rule(scope: RuleScope, workspace: Option<&str>) -> AllowRule {
    AllowRule {
        id: "r-1".into(),
        name: "Bash php artisan migrate* in project-jag".into(),
        scope,
        workspace_path: workspace.map(str::to_string),
        tool_name: "Bash".into(),
        pattern: "php artisan migrate*".into(),
        exact: false,
    }
}

#[test]
fn the_scope_line_names_the_folder_not_the_path() {
    assert_eq!(
        scope_line(&rule(RuleScope::Workspace, Some("/repos/project-jag"))),
        "Bash, in project-jag"
    );
    assert_eq!(
        scope_line(&rule(RuleScope::Workspace, Some("/repos/project-jag/"))),
        "Bash, in project-jag"
    );
    assert_eq!(scope_line(&rule(RuleScope::Global, None)), "Bash, everywhere");
    assert_eq!(
        scope_line(&rule(RuleScope::Workspace, None)),
        "Bash, in this project"
    );
}

#[test]
fn the_pathless_fallback_uses_the_same_words_as_the_card_and_the_chip() {
    let shared = AlwaysAllowScope::ThisWorkspace.label();
    assert_eq!(
        scope_line(&rule(RuleScope::Workspace, None)),
        format!("Bash, in {shared}")
    );
    assert!(
        !scope_line(&rule(RuleScope::Workspace, None)).contains("workspace"),
        "workspace is the engine's word for this scope, never the user's"
    );
}

#[test]
fn a_root_path_falls_back_to_the_shared_words() {
    assert_eq!(scope_line(&rule(RuleScope::Workspace, Some("/"))), "Bash, in this project");
    assert_eq!(scope_line(&rule(RuleScope::Workspace, Some("jag"))), "Bash, in jag");
}

fn named(id: &str) -> AllowRule {
    let mut r = rule(RuleScope::Global, None);
    r.id = id.into();
    r
}

fn ids(pane: &RulesPane) -> Vec<String> {
    pane.rules().iter().map(|r| r.id.clone()).collect()
}

#[test]
fn a_deleted_rule_leaves_at_once_and_the_rest_keep_their_order() {
    let mut pane = RulesPane::demo(vec![named("a"), named("b"), named("c"), named("b")]);
    pane.delete_failed("engine gone");
    assert_eq!(pane.failure.as_deref(), Some("Could not delete the rule: engine gone"));
    pane.delete("b");
    assert_eq!(ids(&pane), vec!["a", "c"]);
    assert_eq!(pane.failure, None);
    pane.delete("zzz");
    assert_eq!(ids(&pane), vec!["a", "c"]);
}

#[test]
fn a_reload_replaces_the_rules_or_says_why_it_could_not() {
    let mut pane = RulesPane::demo(vec![named("a")]);
    pane.reload_answered(RulesAnswer::CallFailed("timed out".into()));
    assert_eq!(pane.failure.as_deref(), Some("Could not load rules: timed out"));
    assert_eq!(ids(&pane), vec!["a"]);
    pane.reload_answered(RulesAnswer::Unreadable("missing field `id`".into()));
    assert_eq!(
        pane.failure.as_deref(),
        Some("Could not read the rules: missing field `id`")
    );
    pane.reload_answered(RulesAnswer::Listed(vec![named("x"), named("y")]));
    assert_eq!(ids(&pane), vec!["x", "y"]);
    assert_eq!(pane.failure, None);
    pane.set_rules(Vec::new());
    assert!(pane.rules().is_empty());
}
