use surya_ui::settings::servers::active::{active_row, ActiveRow};
use surya_ui::settings::servers::page::{RowTail, ServerRow, ServersEvent, ServersState};
use surya_ui::settings::servers::{RemoteEngineTarget, ServerEntry};

fn entry(id: &str, host: &str, port: u16) -> ServerEntry {
    ServerEntry {
        id: id.into(),
        name: format!("name-{id}"),
        host: host.into(),
        port,
        token: None,
    }
}

fn page() -> ServersState {
    ServersState {
        servers: vec![entry("s1", "pc-ajim", 27700), entry("s2", "build-box", 80)],
        active: None,
    }
}

#[test]
fn connecting_chooses_the_entry_and_dials_it() {
    let mut p = page();
    let events = p.connect(Some("s2"));
    assert_eq!(p.active.as_deref(), Some("s2"));
    assert_eq!(events.len(), 2);
    match &events[1] {
        ServersEvent::Connect(Some(t)) => {
            assert_eq!(t.url, "ws://build-box:80");
            assert_eq!(t.name.as_deref(), Some("name-s2"));
        }
        other => panic!("{other:?}"),
    }
    assert!(p.connect(Some("gone")).is_empty(), "an unknown id changes nothing");
    assert_eq!(p.active.as_deref(), Some("s2"));
    let back = p.connect(None);
    assert_eq!(p.active, None);
    assert_eq!(back[1], ServersEvent::Connect(None));
}

#[test]
fn removing_the_chosen_entry_falls_back_to_local() {
    let mut p = page();
    p.connect(Some("s1"));
    let events = p.remove("s1");
    assert_eq!(p.servers.len(), 1);
    assert_eq!(p.active, None);
    assert_eq!(events.len(), 2);
    assert_eq!(events[1], ServersEvent::Connect(None));
    let events = p.remove("nope");
    assert_eq!(events.len(), 1, "only the list is reported");
    assert_eq!(p.servers.len(), 1);
}

#[test]
fn adding_parses_the_fields_or_says_why_not() {
    let mut p = page();
    assert_eq!(
        p.submit_add("", "", "", "").unwrap_err(),
        "Host is required (an IP address or a name your network resolves)."
    );
    assert_eq!(p.servers.len(), 2);
    let events = p.submit_add("Lab", "ws://lab:9000", "", "t").unwrap();
    assert_eq!(events.len(), 1);
    let added = p.servers.last().unwrap();
    assert_eq!((added.name.as_str(), added.host.as_str(), added.port), ("Lab", "lab", 9000));
}

#[test]
fn saving_the_command_line_engine_is_idempotent() {
    let mut p = page();
    let target = RemoteEngineTarget {
        url: "ws://PC-Ajim:27700/".into(),
        token: None,
        name: None,
    };
    p.save_command_line(&target).unwrap();
    assert_eq!(p.active.as_deref(), Some("s1"), "the entry at that address is chosen");
    assert_eq!(p.servers.len(), 2, "and nothing is added");
    let other = RemoteEngineTarget {
        url: "ws://new-box:1234".into(),
        token: Some("tok".into()),
        name: Some("New".into()),
    };
    p.save_command_line(&other).unwrap();
    assert_eq!(p.servers.len(), 3);
    let saved = p.servers.last().unwrap().clone();
    assert_eq!(p.active.as_deref(), Some(saved.id.as_str()));
    assert_eq!(saved.name, "New");
    assert_eq!(
        active_row(Some("ws://new-box:1234"), p.active.as_deref(), &p.servers),
        ActiveRow::Saved(saved.id.clone()),
        "the saved engine is found again by the dialed address"
    );
    p.save_command_line(&other).unwrap();
    assert_eq!(p.servers.len(), 3, "saving twice adds once");
    let with_path = RemoteEngineTarget {
        url: "ws://h:1/rpc".into(),
        token: None,
        name: None,
    };
    assert!(p.save_command_line(&with_path).is_err());
    assert_eq!(p.servers.len(), 3);
}

#[test]
fn the_rows_badge_the_engine_in_use() {
    let p = page();
    let rows = p.rows(&ActiveRow::Saved("s2".into()));
    assert_eq!(rows.len(), 3);
    assert_eq!(rows[0].title, "This computer");
    assert_eq!(rows[0].tail, RowTail::Connect(None));
    assert_eq!(
        rows[1],
        ServerRow {
            title: "name-s1".into(),
            meta: vec!["pc-ajim:27700".into(), "no token".into()],
            remove_id: Some("s1".into()),
            tail: RowTail::Connect(Some("s1".into())),
        }
    );
    assert_eq!(rows[2].tail, RowTail::Active);
    let rows = p.rows(&ActiveRow::CommandLine("ws://x:1".into()));
    assert_eq!(rows.len(), 4);
    assert_eq!(rows[3].title, "Command line");
    assert_eq!(rows[3].meta[0], "ws://x:1");
    assert_eq!(rows[3].tail, RowTail::ActiveUnsaved);
    let rows = p.rows(&ActiveRow::Local);
    assert_eq!(rows[0].tail, RowTail::Active);
}
