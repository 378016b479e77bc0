use surya_ui::inbox::model::AlwaysAllowScope;
use surya_ui::permission_options::{for_digit, PermissionAnswer, ROWS};
use surya_ui::proto::{PermissionDecision, RuleScope};

#[test]
fn the_old_three_keys_still_mean_what_they_meant() {
    assert_eq!(for_digit(1), Some(PermissionAnswer::Allow));
    assert_eq!(for_digit(2), Some(PermissionAnswer::AllowAlways));
    assert_eq!(for_digit(3), Some(PermissionAnswer::Deny));
    assert_eq!(for_digit(4), Some(PermissionAnswer::AllowAndStopAsking));
    assert_eq!(
        for_digit(5),
        Some(PermissionAnswer::AllowAlwaysEverywhere),
        "the wider reach is appended, so 1-4 keep their meaning"
    );
    assert_eq!(for_digit(6), None);
    assert_eq!(for_digit(0), None);
}

#[test]
fn stop_asking_is_a_mode_not_a_rule_and_sends_no_decision() {
    let a = PermissionAnswer::AllowAndStopAsking;
    assert!(a.stops_asking());
    assert!(!a.remembers(), "yolo writes nothing to the rules table");
    assert_eq!(
        a.decision(),
        None,
        "the flip answers the parked request; a second answer would fail"
    );
}

#[test]
fn always_allow_says_it_covers_only_this_command() {
    let label = PermissionAnswer::AllowAlways.label();
    assert!(
        label.contains("exactly this"),
        "the line that writes a rule must say the rule is one command: {label:?}"
    );
    assert_ne!(
        label, "Always allow in this project",
        "the old label promised a project-wide grant the rule never gave"
    );
}

#[test]
fn the_card_and_the_inbox_name_the_same_two_reaches() {
    let here = PermissionAnswer::AllowAlways.label();
    let anywhere = PermissionAnswer::AllowAlwaysEverywhere.label();

    assert!(here.contains("this project"), "{here:?}");
    assert!(
        !here.contains("workspace"),
        "the user-facing word is project everywhere: {here:?}"
    );
    assert!(anywhere.contains("everywhere"), "{anywhere:?}");

    assert_eq!(AlwaysAllowScope::ThisWorkspace.label(), "this project");
    assert_eq!(AlwaysAllowScope::Everywhere.label(), "everywhere");
    assert!(
        here.contains(AlwaysAllowScope::ThisWorkspace.label()),
        "card {here:?} and inbox {:?} must not drift apart",
        AlwaysAllowScope::ThisWorkspace.label()
    );
    assert!(anywhere.contains(AlwaysAllowScope::Everywhere.label()));
}

#[test]
fn both_remembering_lines_stay_narrow_and_differ_only_in_reach() {
    assert_eq!(
        PermissionAnswer::AllowAlways.rule_scope(),
        Some(RuleScope::Workspace)
    );
    assert_eq!(
        PermissionAnswer::AllowAlwaysEverywhere.rule_scope(),
        Some(RuleScope::Global)
    );
    for line in [
        PermissionAnswer::AllowAlways,
        PermissionAnswer::AllowAlwaysEverywhere,
    ] {
        assert!(line.remembers());
        assert!(
            line.label().contains("exactly this"),
            "widening the reach must not widen what is pinned: {:?}",
            line.label()
        );
    }
}

#[test]
fn only_the_remembering_lines_write_a_rule() {
    for row in ROWS {
        let expected = matches!(
            row,
            PermissionAnswer::AllowAlways | PermissionAnswer::AllowAlwaysEverywhere
        );
        assert_eq!(row.remembers(), expected, "{:?}", row.label());
    }
}

#[test]
fn every_line_either_decides_or_switches_the_mode() {
    for row in ROWS {
        assert!(
            row.decision().is_some() || row.stops_asking(),
            "{row:?} would leave the tool blocked with nothing sent"
        );
    }
}

#[test]
fn each_line_sends_the_decision_its_words_promise() {
    assert_eq!(PermissionAnswer::Allow.decision(), Some(PermissionDecision::Allow));
    assert_eq!(PermissionAnswer::AllowAlways.decision(), Some(PermissionDecision::Allow));
    assert_eq!(PermissionAnswer::Deny.decision(), Some(PermissionDecision::Deny));
    assert_eq!(PermissionAnswer::Deny.label(), "Deny");
    assert_eq!(PermissionAnswer::Allow.rule_scope(), None);
    assert!(!PermissionAnswer::Deny.stops_asking());
}
