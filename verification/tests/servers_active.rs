use surya_ui::settings::servers::active::{active_row, canonical_url, status_text, ActiveRow};
use surya_ui::settings::servers::{ConnectionStatus, ServerEntry};

fn entry(id: &str, host: &str, port: u16) -> ServerEntry {
    ServerEntry {
        id: id.into(),
        name: format!("name-{id}"),
        host: host.into(),
        port,
        token: None,
    }
}

#[test]
fn canonical_url_folds_case_default_port_and_trailing_slash() {
    assert_eq!(canonical_url("ws://PC-Ajim:27700/"), "ws://pc-ajim:27700");
    assert_eq!(canonical_url("WS://pc-ajim:27700"), "ws://pc-ajim:27700");
    assert_eq!(canonical_url("ws://pc-ajim"), "ws://pc-ajim:80");
    assert_eq!(canonical_url("wss://pc-ajim"), "wss://pc-ajim:443");
    assert_eq!(canonical_url("pc-ajim:27700"), "ws://pc-ajim:27700");
    assert_eq!(canonical_url("ws://[::1]:27700"), "ws://[::1]:27700");
    assert_eq!(canonical_url("ws://[::1]"), "ws://[::1]:80");
    assert_eq!(canonical_url("ws://h:1/rpc?x=1"), "ws://h:1/rpc?x=1");
}

#[test]
fn nothing_dialed_is_local_whatever_the_transport_or_saved_id() {
    let servers = vec![entry("s1", "127.0.0.1", 27654)];
    assert_eq!(active_row(None, None, &servers), ActiveRow::Local);
    assert_eq!(active_row(None, Some("s1"), &servers), ActiveRow::Local);
    assert_eq!(active_row(None, Some("gone"), &[]), ActiveRow::Local);
}

#[test]
fn the_chosen_entry_wins_over_an_address_match() {
    let servers = vec![
        entry("first", "pc-ajim", 27700),
        entry("second", "pc-ajim", 27700),
    ];
    assert_eq!(
        active_row(Some("ws://pc-ajim:27700"), Some("second"), &servers),
        ActiveRow::Saved("second".into())
    );
    assert_eq!(
        active_row(Some("ws://pc-ajim:27700"), None, &servers),
        ActiveRow::Saved("first".into())
    );
    let servers = vec![
        entry("first", "pc-ajim", 27700),
        entry("other", "build-box", 1),
    ];
    assert_eq!(
        active_row(Some("ws://pc-ajim:27700"), Some("other"), &servers),
        ActiveRow::Saved("first".into())
    );
}

#[test]
fn addresses_compare_after_normalising() {
    let servers = vec![entry("s1", "PC-Ajim", 27700), entry("s2", "build-box", 80)];
    for dialed in [
        "ws://pc-ajim:27700",
        "ws://pc-ajim:27700/",
        "WS://PC-AJIM:27700",
    ] {
        assert_eq!(
            active_row(Some(dialed), None, &servers),
            ActiveRow::Saved("s1".into()),
            "{dialed}"
        );
    }
    assert_eq!(
        active_row(Some("ws://build-box"), None, &servers),
        ActiveRow::Saved("s2".into())
    );
    assert_eq!(
        active_row(Some("wss://pc-ajim:27700"), None, &servers),
        ActiveRow::CommandLine("wss://pc-ajim:27700".into())
    );
}

#[test]
fn an_unknown_address_is_the_command_line() {
    let servers = vec![entry("s1", "pc-ajim", 27700)];
    assert_eq!(
        active_row(Some("ws://100.83.77.3:27700"), Some("s1"), &servers),
        ActiveRow::CommandLine("ws://100.83.77.3:27700".into())
    );
    assert_eq!(
        active_row(Some("ws://x:1"), None, &[]),
        ActiveRow::CommandLine("ws://x:1".into())
    );
}

#[test]
fn status_text_names_the_engine_in_use() {
    let servers = vec![entry("s1", "pc-ajim", 27700)];
    let ready = ConnectionStatus::Ready;
    assert_eq!(
        status_text(&ConnectionStatus::Connecting, &ActiveRow::Local, &servers),
        ("Connecting\u{2026}".to_string(), false)
    );
    assert_eq!(
        status_text(
            &ConnectionStatus::Failed("boom".into()),
            &ActiveRow::Saved("s1".into()),
            &servers
        ),
        ("Not connected: boom".to_string(), true)
    );
    assert_eq!(
        status_text(&ready, &ActiveRow::Local, &servers),
        ("Using the engine on this computer".to_string(), false)
    );
    assert_eq!(
        status_text(&ready, &ActiveRow::Saved("s1".into()), &servers),
        (
            "Connected to name-s1 (ws://pc-ajim:27700)".to_string(),
            false
        )
    );
    assert_eq!(
        status_text(&ready, &ActiveRow::CommandLine("ws://x:1".into()), &servers),
        ("Connected to ws://x:1 (from --engine)".to_string(), false)
    );
}

#[test]
fn a_saved_row_that_is_gone_reads_as_a_saved_server() {
    assert_eq!(
        status_text(&ConnectionStatus::Ready, &ActiveRow::Saved("gone".into()), &[]),
        ("Connected to a saved server".to_string(), false)
    );
}

#[test]
fn canonical_url_keeps_bare_ipv6_and_trims_space() {
    assert_eq!(canonical_url("  ws://::1  "), "ws://::1:80");
    assert_eq!(canonical_url("ws://[::1]:"), "ws://[::1]:80");
    assert_eq!(canonical_url("ws://h:"), "ws://h::80");
}

#[test]
fn a_canonical_address_is_its_own_canonical_form() {
    for url in [
        "WS://Host:27700/",
        "wss://Example.COM",
        "pc-ajim:27700/engine?x=1",
        "ws://[::1]",
        "ws://[FE80::1]:9000/",
    ] {
        let once = canonical_url(url);
        assert_eq!(canonical_url(&once), once, "{url}");
    }
    // An authority the form cannot read back: a port left empty.
    assert_eq!(canonical_url("ws://h:"), "ws://h::80");
    assert_ne!(canonical_url("ws://h::80"), "ws://h::80");
}

#[test]
fn the_case_of_scheme_and_host_does_not_matter() {
    assert_eq!(canonical_url("WsS://MyBox.LAN:8443/Path"), canonical_url("wss://mybox.lan:8443/Path"));
    assert_ne!(canonical_url("ws://h/Path"), canonical_url("ws://h/path"), "a path keeps its case");
}

#[test]
fn a_spaced_port_settles_unless_only_a_slash_follows() {
    let once = canonical_url("ws://h:80 /p");
    assert_eq!(canonical_url(&once), once);
    let bare = canonical_url("ws://h:80 /");
    assert_eq!(bare, "ws://h:80 ");
    assert_ne!(canonical_url(&bare), bare, "the one input the settling law leaves out");
}
