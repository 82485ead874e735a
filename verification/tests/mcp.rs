use xauusd_engine::mcp::{join_text, pick_tool, sse_data, tool_override, truncate};

#[test]
fn the_first_candidate_the_server_offers_is_picked() {
    let cands = vec!["browser_navigate".to_string(), "navigate".to_string()];
    let tools = vec!["Navigate".to_string(), "BROWSER_NAVIGATE".to_string()];
    assert_eq!(pick_tool(&cands, &tools).as_deref(), Some("BROWSER_NAVIGATE"));
    let tools = vec!["click".to_string(), "Navigate".to_string()];
    assert_eq!(pick_tool(&cands, &tools).as_deref(), Some("Navigate"));
    assert_eq!(pick_tool(&cands, &vec!["click".to_string()]), None);
    assert_eq!(pick_tool(&vec![], &tools), None);
}

#[test]
fn event_stream_payloads_are_the_data_lines() {
    let body = "event: message\r\ndata: {\"id\":1}\r\n\r\ndata:   \ndata:{\"id\":2}\nid: 3";
    assert_eq!(sse_data(body), vec!["{\"id\":1}".to_string(), "{\"id\":2}".to_string()]);
    assert!(sse_data("").is_empty());
}

#[test]
fn tool_text_blocks_end_in_newlines() {
    assert_eq!(join_text(&vec![]), None);
    assert_eq!(join_text(&vec!["a".into(), "".into(), "b c".into()]).as_deref(), Some("a\n\nb c\n"));
}

#[test]
fn truncation_keeps_whole_characters() {
    assert_eq!(truncate("hello", 3), "hel");
    assert_eq!(truncate("hello", 9), "hello");
    // 'é' is two bytes: cutting inside it keeps the whole text.
    assert_eq!(truncate("héllo", 2), "héllo");
    assert_eq!(truncate("héllo", 3), "hé");
}

#[test]
fn a_configured_tool_name_is_used_trimmed() {
    assert_eq!(tool_override(Some("  browser_navigate \n")).as_deref(), Some("browser_navigate"));
    assert_eq!(tool_override(Some("   ")), None);
    assert_eq!(tool_override(None), None);
}
