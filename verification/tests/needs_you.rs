use surya_ui::inbox::model::{inbox_rows, AlwaysAllowScope};
use surya_ui::inbox::needs_you::{
    collapsed_text, shows_prompt, waiting_text, ButtonTone, NeedsYouState, Press, RowAction,
};
use surya_ui::proto::{NeedsYouItem, NeedsYouKind, PermissionDecision, RuleScope};

fn item(id: &str, chat_id: &str, kind: NeedsYouKind) -> NeedsYouItem {
    NeedsYouItem {
        id: id.into(),
        chat_id: chat_id.into(),
        agent_id: chat_id.into(),
        kind,
        title: "Question".into(),
        prompt: "Which suites should gate the merge?".into(),
        options: vec!["Unit tests".into(), "End-to-end".into()],
        multi_select: true,
        tool_name: None,
        tool_command: None,
        retryable: false,
        created_at: 0,
    }
}

#[test]
fn a_multi_select_accumulates_picks_and_sends_them_with_the_question_id() {
    let items = vec![item("input-2:q-gates", "chat-b", NeedsYouKind::Question)];
    let mut pane = NeedsYouState::demo(items, Vec::new());
    let row = pane.rows().remove(0);
    assert_eq!(pane.pick_option(&row, "Unit tests"), None);
    assert_eq!(pane.pick_option(&row, "End-to-end"), None);
    assert!(pane.is_picked(&row.id, "Unit tests"));
    assert_eq!(pane.picked_labels(&row.id), vec!["Unit tests".to_string(), "End-to-end".to_string()]);
    let actions = pane.row_actions(&row);
    assert_eq!(
        actions.last(),
        Some(&RowAction::Button {
            label: "Send 2".into(),
            tone: ButtonTone::Primary,
            press: Press::SendPicked,
            live: true
        })
    );
    let answer = pane
        .answer_question(&row, pane.picked_labels(&row.id))
        .expect("the id carries both halves");
    assert_eq!(answer.chat_id, "chat-b");
    assert_eq!(answer.request_id, "input-2");
    assert_eq!(answer.answers[0].question_id, "q-gates");
    assert_eq!(answer.answers[0].labels, vec!["Unit tests".to_string(), "End-to-end".to_string()]);
    assert!(pane.picked_labels(&row.id).is_empty(), "sending clears the picks");
}

#[test]
fn tapping_a_pick_again_takes_it_back() {
    let items = vec![item("input-2:q", "c", NeedsYouKind::Question)];
    let mut pane = NeedsYouState::demo(items, Vec::new());
    let row = pane.rows().remove(0);
    pane.pick_option(&row, "Unit tests");
    pane.pick_option(&row, "Unit tests");
    assert!(!pane.is_picked(&row.id, "Unit tests"));
    let actions = pane.row_actions(&row);
    assert_eq!(actions.last(), Some(&RowAction::Hint("pick one or more".into())));
    assert_eq!(
        actions[0],
        RowAction::Button {
            label: "Unit tests".into(),
            tone: ButtonTone::Quiet,
            press: Press::Pick("Unit tests".into()),
            live: true
        }
    );
}

#[test]
fn a_single_select_tap_is_the_answer() {
    let mut raw = item("input-1:q1", "c", NeedsYouKind::Question);
    raw.multi_select = false;
    let mut pane = NeedsYouState::demo(vec![raw], Vec::new());
    let row = pane.rows().remove(0);
    assert_eq!(pane.pick_option(&row, "End-to-end"), Some(vec!["End-to-end".to_string()]));
    assert!(!pane.is_picked(&row.id, "End-to-end"));
    assert_eq!(pane.row_actions(&row).len(), 2, "no hint and no send on a single-select");
}

#[test]
fn the_scope_chip_follows_the_toggle_and_the_rule_takes_its_reach() {
    let mut raw = item("perm-1", "c", NeedsYouKind::Permission);
    raw.options = Vec::new();
    let mut pane = NeedsYouState::demo(vec![raw], Vec::new());
    let row = pane.rows().remove(0);
    assert_eq!(pane.scope_for("perm-1"), AlwaysAllowScope::ThisWorkspace);
    assert_eq!(pane.row_actions(&row)[3], RowAction::ScopeChip("scope: this project".into()));
    pane.toggle_scope("perm-1");
    assert_eq!(pane.row_actions(&row)[3], RowAction::ScopeChip("scope: everywhere".into()));
    let reply = pane.answer_permission(&row, PermissionDecision::Allow, true);
    assert_eq!(reply.request_id, "perm-1");
    assert_eq!(reply.remember.expect("remembers").scope, RuleScope::Global);
    assert!(pane.answer_permission(&row, PermissionDecision::Deny, false).remember.is_none());
    pane.toggle_scope("perm-1");
    assert_eq!(pane.scope_for("perm-1"), AlwaysAllowScope::ThisWorkspace);
    assert_eq!(pane.scope_for("other"), AlwaysAllowScope::ThisWorkspace);
}

#[test]
fn an_answer_in_flight_holds_its_row_until_the_engine_drops_it() {
    let items = vec![
        item("a:1", "c", NeedsYouKind::Question),
        item("b:1", "c", NeedsYouKind::Question),
    ];
    let mut pane = NeedsYouState::demo(items.clone(), Vec::new());
    assert!(!pane.begin_send("a:1", false));
    assert_eq!(pane.failure().as_deref(), Some("Not connected to an engine."));
    assert!(!pane.is_busy("a:1"));
    assert!(pane.begin_send("a:1", true));
    assert!(pane.begin_send("b:1", true));
    assert_eq!(pane.failure(), None);
    assert!(pane.is_busy("a:1"));
    pane.send_failed("b:1", "timeout");
    assert!(!pane.is_busy("b:1"));
    assert_eq!(pane.failure().as_deref(), Some("Answer failed: timeout"));
    pane.frame(vec![items[1].clone()]);
    assert!(!pane.is_busy("a:1"), "answered: the next frame no longer lists it");
    assert_eq!(pane.count(), 1);
}

#[test]
fn a_stopped_run_offers_its_chat() {
    let mut raw = item("c:failure", "chat-9", NeedsYouKind::Failed);
    raw.options = Vec::new();
    let pane = NeedsYouState::demo(vec![raw], Vec::new());
    let row = pane.rows().remove(0);
    assert_eq!(
        pane.row_actions(&row),
        vec![RowAction::Button {
            label: "Open chat".into(),
            tone: ButtonTone::Quiet,
            press: Press::OpenChat("chat-9".into()),
            live: true
        }]
    );
}

#[test]
fn the_card_and_the_collapsed_line_say_the_right_text() {
    let mut raw = item("q:1", "c", NeedsYouKind::Question);
    let rows = inbox_rows(&[raw.clone()], &[]);
    assert!(shows_prompt(&rows[0]));
    assert_eq!(collapsed_text(&rows[0]), "Which suites should gate the merge?");
    raw.prompt = "  ".into();
    raw.kind = NeedsYouKind::Permission;
    let rows = inbox_rows(&[raw], &[]);
    assert!(!shows_prompt(&rows[0]));
    assert_eq!(collapsed_text(&rows[0]), "Question");
    assert_eq!(waiting_text(1), "1 waiting");
    assert_eq!(waiting_text(12), "12 waiting");
}

#[test]
fn an_answer_in_flight_stills_the_buttons_but_not_the_reach() {
    let mut raw = item("perm-2", "c", NeedsYouKind::Permission);
    raw.options = Vec::new();
    let mut pane = NeedsYouState::demo(vec![raw], Vec::new());
    let row = pane.rows().remove(0);
    assert!(pane.begin_send("perm-2", true));
    let actions = pane.row_actions(&row);
    for a in &actions[..3] {
        match a {
            RowAction::Button { live, .. } => assert!(!live, "{:?} should do nothing in flight", a),
            other => panic!("expected a button, got {:?}", other),
        }
    }
    assert_eq!(actions[3], RowAction::ScopeChip("scope: this project".into()));
    pane.toggle_scope("perm-2");
    assert_eq!(pane.row_actions(&row)[3], RowAction::ScopeChip("scope: everywhere".into()));

    let items = vec![item("q:1", "c", NeedsYouKind::Question)];
    let mut pane = NeedsYouState::demo(items, Vec::new());
    let row = pane.rows().remove(0);
    pane.pick_option(&row, "Unit tests");
    assert!(pane.begin_send("q:1", true));
    assert!(pane.row_actions(&row).iter().all(|a| match a {
        RowAction::Button { live, .. } => !live,
        _ => true,
    }));
}
