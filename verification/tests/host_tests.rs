use podcast_backend::commands::{
    parse_method, query_script, query_script_with_tag_json, require_browser_id,
    require_text_param, route_message, strip_host_prefix, trimmed_line, Method, SidecarRoute,
};
use podcast_backend::host::{browser_id_of, HostHandler, HostState};

#[test]
fn browser_ids_skip_zero_when_wrapping() {
    let mut state: HostState<&str> = HostState::new();
    assert_eq!(state.allocate_browser_id(), 1);
    assert_eq!(state.allocate_browser_id(), 2);
    state.next_browser_id = u32::MAX;
    assert_eq!(state.allocate_browser_id(), 1);
}

#[test]
fn created_browsers_answer_pending_opens_in_order() {
    let mut state: HostState<&str> = HostState::new();
    state.queue_open(7);
    state.queue_open(9);
    assert_eq!(state.register_browser("a"), (Some(7), 1));
    assert_eq!(state.register_browser("b"), (Some(9), 2));
    assert_eq!(state.register_browser("popup"), (None, 3));
    assert_eq!(browser_id_of(&state, |b: &&str| *b == "b"), Some(2));
    assert_eq!(browser_id_of(&state, |b: &&str| *b == "zzz"), None);
}

#[test]
fn closing_a_browser_after_shutdown_ends_the_loop() {
    let mut state: HostState<&str> = HostState::new();
    state.register_browser("a");
    state.register_browser("b");
    assert!(!state.unregister_browser(Some(1)));
    let mut ids = state.begin_shutdown();
    ids.sort();
    assert_eq!(ids, vec![2]);
    state.register_browser("c");
    assert!(state.unregister_browser(None));
    assert!(state.unregister_browser(Some(2)));
    assert_eq!(state.browser_ids(), vec![3]);
}

#[test]
fn handler_closes_all_browsers() {
    let mut state: HostState<&str> = HostState::new();
    state.register_browser("a");
    let mut handler = HostHandler::new();
    assert!(!handler.is_closing());
    assert_eq!(handler.close_all_browsers(&state), vec![1]);
    assert!(handler.is_closing());
}

#[test]
fn methods_and_parameters() {
    assert_eq!(parse_method("open"), Ok(Method::Open));
    assert_eq!(parse_method("shutdown"), Ok(Method::Shutdown));
    assert_eq!(parse_method("fly"), Err("unknown method: fly".to_string()));
    assert_eq!(
        require_text_param(None, "url"),
        Err("missing 'url' string param".to_string())
    );
    assert_eq!(require_text_param(Some("x"), "url"), Ok("x".to_string()));
    assert_eq!(require_browser_id(Some((1u64 << 32) + 5)), Ok(5));
    assert_eq!(
        require_browser_id(None),
        Err("missing 'browser_id'".to_string())
    );
}

#[test]
fn query_scripts_report_under_the_tag() {
    let script = query_script_with_tag_json("return 1;", "\"t\"");
    assert_eq!(
        script,
        "(async () => { try { const r = await (async () => { return 1; })(); console.log('CEFHOST::' + JSON.stringify({ tag: \"t\", ok: r === undefined ? null : r })); } catch (e) { console.log('CEFHOST::' + JSON.stringify({ tag: \"t\", err: String(e && e.message || e) })); } })();"
    );
    let quoted = query_script("x", "a\"b");
    assert!(quoted.contains("tag: \"a\\\"b\", ok:"));
    let controls = query_script("x", "\u{1}\t\\é\u{1f}");
    assert!(controls.contains("tag: \"\\u0001\\t\\\\é\\u001f\", ok:"));
}

#[test]
fn console_lines_and_routes() {
    assert_eq!(strip_host_prefix("CEFHOST::{}"), Some("{}".to_string()));
    assert_eq!(strip_host_prefix("other"), None);
    assert_eq!(trimmed_line("  {\"id\":1} \n"), Some("{\"id\":1}".to_string()));
    assert_eq!(trimmed_line(" \t "), None);
    assert_eq!(
        route_message(Some(3), Some("boom"), Some("m")),
        SidecarRoute::Reply { id: 3, error: Some("boom".to_string()) }
    );
    assert_eq!(
        route_message(None, None, Some("load_end")),
        SidecarRoute::Event { name: "cef://load_end".to_string() }
    );
    assert_eq!(route_message(None, None, None), SidecarRoute::Ignore);
}
