use surya_ui::browser_agent::{
    attached, backoff, counters, deadline_error, is_refusal, item_step, next_step, pane_token,
    stream_ended, subscribe_failed, AgentState, Ended, ItemStep, Step, WatchItem, RETRY, RETRY_MAX,
};

#[test]
fn a_displaced_pane_stops_instead_of_fighting_back() {
    assert!(matches!(next_step(Ended::Displaced, 0), Step::Stop(why) if why.contains("another app")));
    assert!(matches!(next_step(Ended::Displaced, 7), Step::Stop(_)));
}

#[test]
fn a_lost_connection_is_the_reconnects_job() {
    assert!(matches!(next_step(Ended::Disconnected, 0), Step::Stop(why) if why.contains("reconnect")));
}

#[test]
fn a_failed_subscribe_backs_off_to_a_minute() {
    let waits: Vec<u64> = (0..8)
        .map(|attempt| match next_step(Ended::Unavailable, attempt) {
            Step::RetryAfter(d) => d,
            Step::Stop(why) => panic!("stopped: {why}"),
        })
        .collect();
    assert_eq!(waits, [2, 4, 8, 16, 32, 60, 60, 60]);
    assert_eq!(backoff(u32::MAX), RETRY_MAX, "no overflow at the top");
}

#[test]
fn a_refusal_and_a_silent_end_retry_too() {
    assert_eq!(next_step(Ended::Refused, 0), Step::RetryAfter(RETRY));
    assert_eq!(next_step(Ended::Dropped, 1), Step::RetryAfter(RETRY * 2));
}

#[test]
fn the_dialed_token_beats_this_machines_file() {
    let file = Some("this-machines-token");
    assert_eq!(
        pane_token(Some("dialed-token"), None, file).as_deref(),
        Some("dialed-token")
    );
    assert_eq!(pane_token(None, None, file).as_deref(), Some("this-machines-token"));
    assert_eq!(pane_token(None, None, None), None);
    assert_eq!(pane_token(Some("  "), None, file).as_deref(), Some("this-machines-token"));
}

#[test]
fn the_environment_token_sits_between_dialed_and_file() {
    assert_eq!(pane_token(None, Some(" env-token\n"), Some("file")).as_deref(), Some("env-token"));
    assert_eq!(pane_token(Some("d"), Some("env-token"), Some("file")).as_deref(), Some("d"));
    assert_eq!(pane_token(None, Some(""), Some(" file ")).as_deref(), Some("file"));
}

#[test]
fn counters_count_calls_and_successes() {
    let mut state = AgentState::new();
    assert!(!attached(&state));
    state.set_attached(true);
    assert!(attached(&state));
    state.record(true);
    state.record(false);
    state.record(true);
    assert_eq!(counters(&state), "tools_called=3 ok=2");
}

#[test]
fn a_displaced_notice_and_an_item_without_an_id_run_nothing() {
    let notice = WatchItem { displaced: true, id: Some(4), op: "navigate".into() };
    assert_eq!(item_step(&notice), ItemStep::Displaced);
    let no_id = WatchItem { displaced: false, id: None, op: "navigate".into() };
    assert_eq!(item_step(&no_id), ItemStep::Skip);
    let op = WatchItem { displaced: false, id: Some(7), op: "click".into() };
    assert_eq!(item_step(&op), ItemStep::Run { id: 7, op: "click".into() });
}

#[test]
fn a_finished_op_is_counted_and_answered_with_the_token() {
    let mut state = AgentState::new();
    let ok = state.finish(3, Ok::<u32, String>(1), "tok");
    assert_eq!((ok.id, ok.result, ok.token.as_str()), (3, Ok(1), "tok"));
    let late = deadline_error("navigate");
    assert_eq!(late, "navigate did not finish within 25s");
    let err = state.finish::<u32>(4, Err(late.clone()), "tok");
    assert_eq!(err.result, Err(late));
    assert_eq!(counters(&state), "tools_called=2 ok=1");
}

#[test]
fn why_a_pass_ended_decides_between_drop_refusal_and_absence() {
    assert_eq!(stream_ended(true, true), Ended::Displaced);
    assert_eq!(stream_ended(false, true), Ended::Disconnected);
    assert_eq!(stream_ended(false, false), Ended::Dropped);
    assert_eq!(subscribe_failed("bad pane TOKEN", false), Ended::Refused);
    assert_eq!(subscribe_failed("Unauthorized", false), Ended::Refused);
    assert_eq!(subscribe_failed("method not found", false), Ended::Unavailable);
    assert_eq!(subscribe_failed("Unauthorized", true), Ended::Disconnected);
    assert!(is_refusal("wrong token"));
    assert!(!is_refusal("WRONG TOKEN"), "the text is lowered before it is read");
}
