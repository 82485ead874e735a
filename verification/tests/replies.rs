use xauusd_engine::execution::{
    chelsea_trade_id, contract_type, demo_account_id, otp_url, proposal_id, AccountError,
};
use xauusd_engine::json::{Json, JsonNum};
use xauusd_engine::mcp::{
    answers, classify_reply, extract_text, server_name, tool_names, tool_outcome, ReplyKind,
    ToolOutcome,
};

fn j(text: &str) -> Json {
    to_json(&serde_json::from_str(text).unwrap())
}

fn to_json(v: &serde_json::Value) -> Json {
    match v {
        serde_json::Value::Null => Json::Null,
        serde_json::Value::Bool(b) => Json::Bool(*b),
        serde_json::Value::Number(n) => Json::Num(JsonNum {
            int: n.as_i64(),
            text: format!("{}", n.as_f64().unwrap_or(0.0)),
        }),
        serde_json::Value::String(s) => Json::Str(s.clone()),
        serde_json::Value::Array(a) => Json::Arr(a.iter().map(to_json).collect()),
        serde_json::Value::Object(o) => {
            Json::Obj(o.iter().map(|(k, x)| (k.clone(), to_json(x))).collect())
        }
    }
}

#[test]
fn the_demo_account_is_typed_demo_or_a_vrtc_id() {
    let body = j(r#"{"data": [
        {"account_id": "CR123", "account_type": "real"},
        {"account_id": "VRTC9", "account_type": "virtual"},
        {"account_id": "DM1", "account_type": "demo"}
    ]}"#);
    assert_eq!(demo_account_id(&body), Ok("VRTC9".to_string()));
    let typed = j(r#"{"data": [{"account_type": "demo", "account_id": "X1"}]}"#);
    assert_eq!(demo_account_id(&typed), Ok("X1".to_string()));
    let none = j(r#"{"data": [{"account_id": "CR1", "account_type": "real"}]}"#);
    assert_eq!(demo_account_id(&none), Err(AccountError::NoDemo));
    assert_eq!(demo_account_id(&j(r#"{"error": "x"}"#)), Err(AccountError::NoAccounts));
    let no_id = j(r#"{"data": [{"account_type": "demo", "account_id": 5}]}"#);
    assert_eq!(demo_account_id(&no_id), Err(AccountError::MissingId));
    assert_eq!(AccountError::NoDemo.message(), "No demo account found for this token");
    assert_eq!(AccountError::NoAccounts.message(), "No accounts in response");
    assert_eq!(AccountError::MissingId.message(), "account_id missing");
}

#[test]
fn broker_replies_are_read_field_by_field() {
    let otp = j(r#"{"data": {"url": "wss://x/otp"}}"#);
    assert_eq!(otp_url(&otp).as_deref(), Some("wss://x/otp"));
    assert_eq!(otp_url(&j(r#"{"data": {}}"#)), None);
    assert_eq!(contract_type("buy"), "CALL");
    assert_eq!(contract_type("sell"), "PUT");
    assert_eq!(contract_type("BUY"), "PUT");
    let prop = j(r#"{"proposal": {"id": "p-1", "ask_price": 10.5}}"#);
    assert_eq!(proposal_id(&prop).as_deref(), Some("p-1"));
    assert_eq!(proposal_id(&j(r#"{"error": {"code": "X"}, "proposal": {"id": "p"}}"#)), None);
    let ack = j(r#"{"result": {"content": [{"type": "text", "text": "T-77"}]}}"#);
    assert_eq!(chelsea_trade_id(&ack).as_deref(), Some("T-77"));
    assert_eq!(chelsea_trade_id(&j(r#"{"result": {}}"#)).as_deref(), Some("unknown"));
    assert_eq!(chelsea_trade_id(&j(r#"{"error": "denied"}"#)), None);
}

#[test]
fn tool_results_join_their_text_blocks() {
    let res = j(r#"{"content": [
        {"type": "text", "text": "| a |"},
        {"type": "image", "data": "..."},
        {"type": "text", "text": "| b |"},
        {"type": "text"}
    ]}"#);
    assert_eq!(extract_text(&res).as_deref(), Some("| a |\n| b |\n"));
    assert_eq!(extract_text(&j(r#"{"content": []}"#)), None);
    assert_eq!(extract_text(&j(r#"{"content": "x"}"#)), None);
    assert_eq!(extract_text(&j(r#"{}"#)), None);
}

#[test]
fn tool_calls_report_errors_before_text() {
    let err = j(r#"{"error": {"code": -1}, "result": {"content": []}}"#);
    assert!(matches!(tool_outcome(&err), ToolOutcome::RpcError));
    assert!(matches!(tool_outcome(&j(r#"{"id": 1}"#)), ToolOutcome::NoResult));
    let failed = j(r#"{"result": {"isError": true, "content": [{"type": "text", "text": "boom"}]}}"#);
    match tool_outcome(&failed) {
        ToolOutcome::ToolError(m) => assert_eq!(m, "boom\n"),
        _ => panic!("a tool error"),
    }
    match tool_outcome(&j(r#"{"result": {"isError": true}}"#)) {
        ToolOutcome::ToolError(m) => assert_eq!(m, "unknown"),
        _ => panic!("a tool error"),
    }
    match tool_outcome(&j(r#"{"result": {"content": [{"type": "text", "text": "ok"}]}}"#)) {
        ToolOutcome::Text(t) => assert_eq!(t, "ok\n"),
        _ => panic!("text"),
    }
    assert!(matches!(tool_outcome(&j(r#"{"result": {"isError": "yes"}}"#)), ToolOutcome::NoText));
}

#[test]
fn tools_list_names_and_server_info() {
    let resp = j(r#"{"result": {"tools": [{"name": "browser_navigate"}, {"title": "x"}, {"name": "browser_snapshot"}]}}"#);
    assert_eq!(tool_names(&resp), vec!["browser_navigate".to_string(), "browser_snapshot".to_string()]);
    assert!(tool_names(&j(r#"{"result": {}}"#)).is_empty());
    assert_eq!(server_name(&j(r#"{"serverInfo": {"name": "Playwright"}}"#)), "Playwright");
    assert_eq!(server_name(&Json::Null), "unknown");
}

#[test]
fn replies_match_by_integer_id_and_are_read_by_content_type() {
    assert!(answers(&j(r#"{"id": 7, "result": {}}"#), 7));
    assert!(!answers(&j(r#"{"id": "7"}"#), 7));
    assert!(!answers(&j(r#"{"id": 7.5}"#), 7));
    assert!(!answers(&j(r#"{}"#), 7));
    assert!(matches!(classify_reply(false, "application/json", "{}"), ReplyKind::Failed));
    assert!(matches!(classify_reply(true, "application/json", "  \n"), ReplyKind::Empty));
    assert!(matches!(classify_reply(true, "application/json; charset=utf-8", "{}"), ReplyKind::Plain));
    match classify_reply(true, "text/event-stream; charset=utf-8", "data: {\"id\":1}\n\n") {
        ReplyKind::Stream(d) => assert_eq!(d, vec!["{\"id\":1}".to_string()]),
        _ => panic!("a stream"),
    }
}
