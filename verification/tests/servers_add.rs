use surya_ui::settings::servers::active::canonical_url;
use surya_ui::settings::servers::add::{entry_for_target, parse_server};
use surya_ui::settings::servers::{RemoteEngineTarget, DEFAULT_PORT};

#[test]
fn a_dialed_url_saves_back_to_the_same_address() {
    for dialed in ["ws://pc-ajim:27700", "ws://100.83.77.3:27700/"] {
        let entry = parse_server("", dialed, "", "tok").unwrap();
        assert_eq!(canonical_url(&entry.url()), canonical_url(dialed), "{dialed}");
        assert_eq!(entry.token.as_deref(), Some("tok"));
    }
}

#[test]
fn host_and_port_parse_from_plain_fields() {
    let entry = parse_server("Build box", "100.64.0.9", "27654", "abc").unwrap();
    assert_eq!(entry.name, "Build box");
    assert_eq!(entry.host, "100.64.0.9");
    assert_eq!(entry.port, 27654);
    assert_eq!(entry.token.as_deref(), Some("abc"));
    assert_eq!(entry.url(), "ws://100.64.0.9:27654");
}

#[test]
fn host_may_carry_scheme_and_port() {
    let entry = parse_server("", "ws://build-box:27700/", "", "").unwrap();
    assert_eq!(entry.name, "build-box");
    assert_eq!(entry.host, "build-box");
    assert_eq!(entry.port, 27700);
    assert_eq!(entry.token, None);
}

#[test]
fn port_field_wins_and_defaults() {
    assert_eq!(parse_server("", "h:1", "2", "").unwrap().port, 2);
    assert_eq!(parse_server("", "h", "", "").unwrap().port, DEFAULT_PORT);
}

#[test]
fn bad_input_is_rejected() {
    assert!(parse_server("", "", "1", "").is_err());
    assert!(parse_server("", "h", "0", "").is_err());
    assert!(parse_server("", "h", "70000", "").is_err());
    assert!(parse_server("", "h", "abc", "").is_err());
}

#[test]
fn the_refusals_say_what_is_wrong() {
    assert_eq!(
        parse_server("", "  ws://  ", "", "").unwrap_err(),
        "Host is required (an IP address or a name your network resolves)."
    );
    assert_eq!(
        parse_server("", "h", "abc", "").unwrap_err(),
        "Port \"abc\" is not a number between 1 and 65535."
    );
    assert_eq!(
        parse_server("", "h", " 0 ", "").unwrap_err(),
        "Port \"0\" is not a number between 1 and 65535."
    );
}

#[test]
fn every_entry_gets_a_fresh_hyphenated_id() {
    let a = parse_server("", "h", "", "").unwrap();
    let b = parse_server("", "h", "", "").unwrap();
    assert_eq!(a.id.len(), 36);
    assert_eq!(a.id.chars().nth(14), Some('4'));
    assert_ne!(a.id, b.id);
}

#[test]
fn a_bare_ipv6_host_keeps_its_colons_and_the_default_port() {
    let e = parse_server("", "fe80::1", "", "").unwrap();
    assert_eq!(e.host, "fe80::1");
    assert_eq!(e.port, DEFAULT_PORT);
    let e = parse_server("", "https://box:+81", "", "").unwrap();
    assert_eq!((e.host.as_str(), e.port), ("box:+81", DEFAULT_PORT));
}

/// Save is only offered an entry that the dialed engine will be found at
/// again; anything else is refused rather than saved wrong.
#[test]
fn a_command_line_target_saves_only_at_its_own_address() {
    let target = |url: &str| RemoteEngineTarget {
        url: url.into(),
        token: Some("tok".into()),
        name: None,
    };
    let entry = entry_for_target(&target("ws://PC-Ajim:27700/")).unwrap();
    assert_eq!(
        (entry.host.as_str(), entry.port, entry.name.as_str()),
        ("PC-Ajim", 27700, "PC-Ajim")
    );
    assert_eq!(entry.token.as_deref(), Some("tok"));
    let portless = entry_for_target(&target("ws://pc-ajim")).unwrap();
    assert_eq!(portless.port, DEFAULT_PORT);
    assert!(entry_for_target(&target("ws://h:1/rpc")).is_err());
    assert!(entry_for_target(&target("wss://h:1")).is_err());
}

#[test]
fn a_refused_target_says_where_it_would_have_gone() {
    let target = |url: &str| RemoteEngineTarget {
        url: url.into(),
        token: None,
        name: None,
    };
    assert_eq!(
        entry_for_target(&target("ws://h:1/rpc")).unwrap_err(),
        "ws://h:1/rpc would be saved as ws://h:1/rpc:27700; add it by hand instead."
    );
    assert_eq!(
        entry_for_target(&target("wss://h")).unwrap_err(),
        "wss://h:443 would be saved as ws://h:27700; add it by hand instead."
    );
    assert!(entry_for_target(&target("http://h:1")).is_err());
    assert_eq!(entry_for_target(&target("pc-ajim:27700")).unwrap().port, 27700);
}
