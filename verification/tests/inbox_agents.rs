use surya_ui::inbox::agents::AgentsRail;
use surya_ui::inbox::model::AgentGroup;
use surya_ui::proto::{AgentState, AgentStateRow, Chat, NeedsYouKind};

fn row(id: &str, parent: Option<&str>, chat: &str, state: AgentState) -> AgentStateRow {
    AgentStateRow {
        id: id.into(),
        parent_id: parent.map(str::to_string),
        chat_id: chat.into(),
        state,
        rolled_up: state,
        needs_you_children: 0,
        label: None,
    }
}

fn chat(id: &str) -> Chat {
    Chat {
        id: id.into(),
        title: Some(id.to_uppercase()),
    }
}

#[test]
fn the_rail_counts_every_agent_that_wants_the_user_once() {
    let question = AgentState::NeedsYou {
        kind: NeedsYouKind::Question,
    };
    let mut rail = AgentsRail::demo(
        vec![
            row("a", None, "chat-a", AgentState::Working),
            row("a/1", Some("a"), "chat-a", question),
            row("b", None, "chat-b", AgentState::Stopped),
            row("c", None, "chat-c", AgentState::Done),
        ],
        vec![chat("chat-a"), chat("chat-b"), chat("chat-c")],
    );
    assert_eq!(rail.needs_you_count(), 2);
    rail.set_rows(vec![row("c", None, "chat-c", AgentState::Idle)], vec![chat("chat-c")]);
    assert_eq!(rail.needs_you_count(), 0);
    let sections = rail.sections();
    assert_eq!(sections.len(), 1);
    assert_eq!(sections[0].group, AgentGroup::Idle);
}

#[test]
fn the_open_chat_is_the_selected_row() {
    let mut rail = AgentsRail::demo(Vec::new(), Vec::new());
    assert!(!rail.is_selected("chat-a"));
    rail.set_selected(Some("chat-a".into()));
    assert!(rail.is_selected("chat-a"));
    assert!(!rail.is_selected("chat-b"));
    rail.set_selected(None);
    assert!(!rail.is_selected("chat-a"));
}
