use surya_ui::inbox::model::{
    agent_sections, answered_in_the_open_chat, badge_for, inbox_rows, remember_for,
    split_question_id, title_adds_to_badge, AgentGroup, AlwaysAllowScope, UNTITLED_CHAT,
};
use surya_ui::proto::{AgentState, AgentStateRow, Chat, NeedsYouItem, NeedsYouKind, RuleScope};

fn chat(id: &str, title: Option<&str>) -> Chat {
    Chat {
        id: id.into(),
        title: title.map(str::to_string),
    }
}

fn item(id: &str, chat_id: &str, kind: NeedsYouKind) -> NeedsYouItem {
    NeedsYouItem {
        id: id.into(),
        chat_id: chat_id.into(),
        agent_id: chat_id.into(),
        kind,
        title: "Allow Bash?".into(),
        prompt: "php artisan migrate".into(),
        options: Vec::new(),
        multi_select: false,
        tool_name: Some("Bash".into()),
        tool_command: Some("php artisan migrate".into()),
        retryable: false,
        created_at: 1_757_000_000,
    }
}

fn state_row(id: &str, parent: Option<&str>, state: AgentState) -> AgentStateRow {
    AgentStateRow {
        id: id.into(),
        parent_id: parent.map(str::to_string),
        chat_id: parent.unwrap_or(id).into(),
        state,
        rolled_up: state,
        needs_you_children: 0,
        label: None,
    }
}

/// A child agent's id: its parent's id and the spawning tool call's.
fn child_agent_id(parent: &str, tool: &str) -> String {
    format!("{parent}:{tool}")
}

const NEEDS_PERMISSION: AgentState = AgentState::NeedsYou {
    kind: NeedsYouKind::Permission,
};
const NEEDS_QUESTION: AgentState = AgentState::NeedsYou {
    kind: NeedsYouKind::Question,
};

#[test]
fn every_pending_item_becomes_a_row_in_the_order_the_engine_sent() {
    let items = [
        item("perm-1", "chat-a", NeedsYouKind::Permission),
        item("input-1:q1", "chat-b", NeedsYouKind::Question),
        item("chat-c:failure", "chat-c", NeedsYouKind::Failed),
    ];
    let chats = [
        chat("chat-a", Some("Migrate the database")),
        chat("chat-b", Some("Rewrite the fold")),
        chat("chat-c", None),
    ];
    let rows = inbox_rows(&items, &chats);
    assert_eq!(rows.len(), 3, "items=3 shown=3");

    assert_eq!(rows[0].chat_name, "Migrate the database");
    assert_eq!(rows[0].badge, "Permission");
    assert_eq!(rows[0].tool_command.as_deref(), Some("php artisan migrate"));
    assert_eq!(rows[1].badge, "Question");
    assert_eq!(rows[2].badge, "Stopped");
    assert_eq!(rows[2].chat_name, UNTITLED_CHAT);
    assert_eq!(
        rows.iter().map(|r| r.id.as_str()).collect::<Vec<_>>(),
        ["perm-1", "input-1:q1", "chat-c:failure"]
    );
}

#[test]
fn a_blank_title_reads_as_untitled_not_as_an_empty_row() {
    let items = [item("perm-1", "chat-a", NeedsYouKind::Permission)];
    let rows = inbox_rows(&items, &[chat("chat-a", Some("   "))]);
    assert_eq!(rows[0].chat_name, UNTITLED_CHAT);
}

#[test]
fn answering_one_item_leaves_the_rest() {
    let items = [
        item("perm-1", "chat-a", NeedsYouKind::Permission),
        item("input-1:q1", "chat-b", NeedsYouKind::Question),
        item("chat-c:failure", "chat-c", NeedsYouKind::Failed),
    ];
    let before = inbox_rows(&items, &[]);
    let after_frame: Vec<NeedsYouItem> = items
        .iter()
        .filter(|i| i.id != "perm-1")
        .cloned()
        .collect();
    let after = inbox_rows(&after_frame, &[]);
    assert_eq!((before.len(), after.len()), (3, 2), "answered=1 remaining=2");
    assert!(after.iter().all(|r| r.id != "perm-1"));
}

#[test]
fn a_child_nests_under_its_parent_and_rides_its_parent_group() {
    let child_id = child_agent_id("chat-1", "tool-9");
    let mut parent = state_row("chat-1", None, AgentState::Working);
    parent.rolled_up = NEEDS_QUESTION;
    parent.needs_you_children = 1;
    let mut child = state_row(&child_id, Some("chat-1"), NEEDS_QUESTION);
    child.label = Some("scan the repo".into());

    let sections = agent_sections(&[parent, child], &[chat("chat-1", Some("Fold rewrite"))]);
    let children = sections
        .iter()
        .flat_map(|s| &s.rows)
        .filter(|r| r.depth > 0)
        .count();
    let nested = sections
        .iter()
        .flat_map(|s| s.rows.windows(2))
        .filter(|w| w[1].depth == w[0].depth + 1)
        .count();
    assert_eq!((children, nested), (1, 1), "children=1 nested=1");

    assert_eq!(sections.len(), 1);
    assert_eq!(sections[0].group, AgentGroup::WaitingForYou);
    assert_eq!(sections[0].group.heading(), "Waiting for you");
    let rows = &sections[0].rows;
    assert_eq!(rows[0].name, "Fold rewrite");
    assert_eq!(rows[0].depth, 0);
    assert!(rows[0].rolled_up_only, "the badge case: calm row, loud child");
    assert_eq!(rows[0].needs_you_children, 1);
    assert_eq!(rows[1].name, "scan the repo");
    assert_eq!(rows[1].depth, 1);
    assert!(!rows[1].rolled_up_only, "the child is loud on its own");
}

#[test]
fn a_grandchild_keeps_going_deeper_and_stays_in_one_group() {
    let child = child_agent_id("chat-1", "t1");
    let grandchild = child_agent_id(&child, "t2");
    let mut parent = state_row("chat-1", None, AgentState::Working);
    parent.rolled_up = NEEDS_QUESTION;
    let mut mid = state_row(&child, Some("chat-1"), AgentState::Working);
    mid.rolled_up = NEEDS_QUESTION;
    let deep = state_row(&grandchild, Some(&child), NEEDS_QUESTION);

    let sections = agent_sections(&[parent, mid, deep], &[]);
    assert_eq!(sections.len(), 1, "one tree, one group");
    let depths: Vec<usize> = sections[0].rows.iter().map(|r| r.depth).collect();
    assert_eq!(depths, vec![0, 1, 2]);
}

#[test]
fn the_four_groups_appear_in_the_decision_15_order() {
    let rows = [
        state_row("idle", None, AgentState::Idle),
        state_row("done", None, AgentState::Done),
        state_row("working", None, AgentState::Working),
        state_row("blocked", None, NEEDS_PERMISSION),
        state_row("stopped", None, AgentState::Stopped),
    ];
    let sections = agent_sections(&rows, &[]);
    let headings: Vec<&str> = sections.iter().map(|s| s.group.heading()).collect();
    assert_eq!(headings, ["Waiting for you", "Running", "Done", "Idle"]);
    assert_eq!(sections[0].rows.len(), 2);
}

#[test]
fn an_empty_group_is_not_drawn() {
    let sections = agent_sections(&[state_row("a", None, AgentState::Working)], &[]);
    assert_eq!(sections.len(), 1);
    assert_eq!(sections[0].group, AgentGroup::Running);
}

#[test]
fn nothing_pending_is_an_empty_list_not_a_panic() {
    assert!(inbox_rows(&[], &[]).is_empty());
    assert!(agent_sections(&[], &[]).is_empty());
}

#[test]
fn an_orphan_child_is_dropped_rather_than_drawn_at_the_root() {
    let orphan = state_row("chat-9:tool-1", Some("chat-9"), NEEDS_QUESTION);
    let sections = agent_sections(&[orphan], &[]);
    assert!(
        sections.is_empty(),
        "no parent means no tree to hang it under; the next frame carries both"
    );
}

#[test]
fn only_the_question_whose_own_sheet_is_open_collapses() {
    let items = [
        item("req-1:q1", "chat-1", NeedsYouKind::Question),
        item("req-2:q1", "chat-2", NeedsYouKind::Question),
        item("req-3:q1", "chat-1", NeedsYouKind::Permission),
        item("req-4:q1", "chat-1", NeedsYouKind::Failed),
    ];
    let rows = inbox_rows(&items, &[]);
    let collapsed: Vec<&str> = rows
        .iter()
        .filter(|row| answered_in_the_open_chat(row, Some("chat-1"), Some("req-1")))
        .map(|row| row.id.as_str())
        .collect();
    assert_eq!(
        collapsed,
        vec!["req-1:q1"],
        "only the question whose sheet is on screen collapses"
    );
    for row in &rows {
        assert!(
            !answered_in_the_open_chat(row, None, None),
            "no chat open means no sheet to defer to: {}",
            row.id
        );
        assert!(
            !answered_in_the_open_chat(row, Some("chat-1"), None),
            "a chat with no sheet up yet still needs its buttons: {}",
            row.id
        );
        assert!(
            !answered_in_the_open_chat(row, Some("chat-1"), Some("req-9")),
            "the sheet on screen is asking something else: {}",
            row.id
        );
    }
}

#[test]
fn a_child_s_question_keeps_its_buttons_in_the_parent_chat() {
    let mut child = item("req-1:q1", "chat-1", NeedsYouKind::Question);
    child.agent_id = child_agent_id("chat-1", "tool-7");
    let rows = inbox_rows(&[child], &[]);
    assert_ne!(rows[0].agent_id, rows[0].chat_id);
    assert!(
        !answered_in_the_open_chat(&rows[0], Some("chat-1"), Some("req-1")),
        "the parent's sheet is not this child's sheet"
    );

    let mut top = item("req-1:q1", "chat-1", NeedsYouKind::Question);
    top.agent_id = "chat-1".into();
    let rows = inbox_rows(&[top], &[]);
    assert!(answered_in_the_open_chat(
        &rows[0],
        Some("chat-1"),
        Some("req-1")
    ));
}

#[test]
fn a_title_that_only_repeats_the_badge_is_not_worth_drawing() {
    let mut items = [item("q-1", "chat-1", NeedsYouKind::Question)];
    items[0].title = "Question".into();
    let rows = inbox_rows(&items, &[]);
    assert!(!title_adds_to_badge(&rows[0]));

    items[0].title = "  question  ".into();
    let rows = inbox_rows(&items, &[]);
    assert!(
        !title_adds_to_badge(&rows[0]),
        "spacing and case are not meaning"
    );

    items[0].title = String::new();
    let rows = inbox_rows(&items, &[]);
    assert!(!title_adds_to_badge(&rows[0]), "an empty title says nothing");

    items[0].title = "Which sync strategy?".into();
    let rows = inbox_rows(&items, &[]);
    assert!(
        title_adds_to_badge(&rows[0]),
        "a real header still gets its line"
    );
}

#[test]
fn the_scope_toggle_has_two_positions_and_says_which() {
    let scope = AlwaysAllowScope::default();
    assert_eq!(scope, AlwaysAllowScope::ThisWorkspace);
    assert_eq!(scope.toggled(), AlwaysAllowScope::Everywhere);
    assert_eq!(scope.toggled().label(), "everywhere");
    assert_eq!(scope.toggled().toggled(), scope);
}

#[test]
fn always_allow_remembers_the_exact_command_with_the_chosen_scope() {
    let rows = inbox_rows(&[item("perm-1", "chat-a", NeedsYouKind::Permission)], &[]);
    let workspace = remember_for(&rows[0], AlwaysAllowScope::ThisWorkspace);
    let everywhere = remember_for(&rows[0], AlwaysAllowScope::Everywhere);
    assert_eq!(workspace.scope, RuleScope::Workspace);
    assert_eq!(everywhere.scope, RuleScope::Global);
    assert_eq!(workspace.pattern, "");
    assert_eq!(everywhere.pattern, "");
    assert_eq!(workspace.name, None);
}

#[test]
fn a_question_id_splits_at_its_first_colon() {
    assert_eq!(split_question_id("input-1:q1"), Some(("input-1", "q1")));
    assert_eq!(split_question_id("a:b:c"), Some(("a", "b:c")));
    assert_eq!(split_question_id(":q"), Some(("", "q")));
    assert!(split_question_id("no-colon").is_none());
}

#[test]
fn the_last_titled_chat_of_an_id_names_its_rows() {
    let chats = [
        chat("c", Some("First")),
        chat("c", Some("  Second  ")),
        chat("c", Some(" ")),
    ];
    let rows = inbox_rows(&[item("p", "c", NeedsYouKind::Permission)], &chats);
    assert_eq!(rows[0].chat_name, "Second");
    assert_eq!(badge_for(NeedsYouKind::Failed), "Stopped");
}

#[test]
fn a_cycle_in_a_frame_stops_at_the_depth_cap() {
    let root = state_row("x", None, AgentState::Working);
    let again = state_row("x", Some("x"), AgentState::Working);
    let sections = agent_sections(&[root, again], &[]);
    let depths: Vec<usize> = sections[0].rows.iter().map(|r| r.depth).collect();
    assert_eq!(depths, (0..=16).collect::<Vec<usize>>());
}

#[test]
fn the_workspace_reach_is_called_this_project() {
    assert_eq!(AlwaysAllowScope::ThisWorkspace.label(), "this project");
    assert_eq!(AlwaysAllowScope::default().label(), "this project");
    assert_eq!(AlwaysAllowScope::Everywhere.label(), "everywhere");
}
