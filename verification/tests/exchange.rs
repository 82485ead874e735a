use xauusd_engine::exchange::{
    alltick_trades, bitget_error, bitget_trades, bybit_trades, gate_trades, itick_step,
    kraken_error, kraken_trades, okx_trades, sifting_frame, ItickStep, SiftingFrame,
};
use xauusd_engine::json::{Json, JsonNum};
use xauusd_engine::types::AggTrade;

fn j(text: &str) -> Json {
    to_json(&serde_json::from_str(text).unwrap())
}

fn to_json(v: &serde_json::Value) -> Json {
    match v {
        serde_json::Value::Null => Json::Null,
        serde_json::Value::Bool(b) => Json::Bool(*b),
        serde_json::Value::Number(n) => Json::Num(JsonNum {
            int: n.as_i64(),
            text: format!("{}", n.as_f64().unwrap_or(0.0)),
        }),
        serde_json::Value::String(s) => Json::Str(s.clone()),
        serde_json::Value::Array(a) => Json::Arr(a.iter().map(to_json).collect()),
        serde_json::Value::Object(o) => {
            Json::Obj(o.iter().map(|(k, x)| (k.clone(), to_json(x))).collect())
        }
    }
}

fn brief(t: &AggTrade) -> (String, String, String, String, i64, bool, bool) {
    (
        t.exchange.clone(),
        t.symbol.clone(),
        t.price.clone(),
        t.quantity.clone(),
        t.trade_time,
        !t.is_buyer_maker,
        t.has_flow_side,
    )
}

fn b(ex: &str, sym: &str, p: &str, q: &str, ts: i64, buy: bool, side: bool) -> (String, String, String, String, i64, bool, bool) {
    (ex.into(), sym.into(), p.into(), q.into(), ts, buy, side)
}

#[test]
fn bybit_rows_on_the_trade_topic_become_trades() {
    let v = j(r#"{
        "topic": "publicTrade.XAUUSDT",
        "data": [
            {"S": "Buy", "p": "3300.5", "v": "0.2", "T": 1700000000000},
            {"S": "Sell", "p": "3300.4", "v": "1"},
            {}
        ]
    }"#);
    let out: Vec<_> = bybit_trades(&v).iter().map(brief).collect();
    assert_eq!(
        out,
        vec![
            b("bybit", "XAUUSDT", "3300.5", "0.2", 1_700_000_000_000, true, true),
            b("bybit", "XAUUSDT", "3300.4", "1", 0, false, true),
            b("bybit", "XAUUSDT", "0", "0", 0, true, true),
        ]
    );
    assert!(out.iter().all(|t| t.6));
    let other = j(r#"{"topic": "orderbook.50.XAUUSDT", "data": [{"S": "Buy"}]}"#);
    assert!(bybit_trades(&other).is_empty());
    assert!(bybit_trades(&j(r#"{"topic": "publicTrade.XAUUSDT", "data": {}}"#)).is_empty());
}

#[test]
fn okx_timestamps_are_decimal_text() {
    let v = j(r#"{
        "arg": {"channel": "trades", "instId": "XAU-USDT-SWAP"},
        "data": [
            {"side": "sell", "px": "3301", "sz": "3", "ts": "1700000000123"},
            {"side": "buy", "px": "3302", "sz": "1", "ts": "soon"},
            {"px": "3303", "sz": "2", "ts": 1700000000999}
        ]
    }"#);
    let out: Vec<_> = okx_trades(&v).iter().map(brief).collect();
    assert_eq!(
        out,
        vec![
            b("okx", "XAUUSDT", "3301", "3", 1_700_000_000_123, false, true),
            b("okx", "XAUUSDT", "3302", "1", 0, true, true),
            b("okx", "XAUUSDT", "3303", "2", 0, true, true),
        ]
    );
    assert!(okx_trades(&j(r#"{"event": "subscribe", "arg": {"channel": "trades"}}"#)).is_empty());
    assert!(okx_trades(&j(r#"{"arg": {"channel": "books"}, "data": [{}]}"#)).is_empty());
}

#[test]
fn bitget_reads_array_and_object_rows() {
    let v = j(r#"{
        "arg": {"instType": "USDT-FUTURES", "channel": "publicTrade", "instId": "XAUTUSDT"},
        "data": [
            ["3300.1", "0.5", "buy", "1700000000001", "9"],
            [3300.25, 2, "sell", 1700000000002],
            {"price": "3300.3", "size": "0.1", "side": "buy", "ts": "1700000000003"},
            {"price": 3300.4, "size": "0.1", "side": "buy"},
            ["3300.5", "0.7", "buy"]
        ]
    }"#);
    let out: Vec<_> = bitget_trades(&v, "XAUTUSDT", 42).iter().map(brief).collect();
    assert_eq!(
        out,
        vec![
            b("bitget", "XAUTUSDT", "3300.1", "0.5", 1_700_000_000_001, true, true),
            b("bitget", "XAUTUSDT", "3300.25", "2", 1_700_000_000_002, false, true),
            b("bitget", "XAUTUSDT", "3300.3", "0.1", 1_700_000_000_003, true, true),
            b("bitget", "XAUTUSDT", "3300.5", "0.7", 42, true, true),
        ]
    );
    // Another instrument, and acknowledgement / error frames carry no trades.
    let other = j(r#"{"arg": {"instId": "BTCUSDT"}, "data": [["1", "1", "buy", "1"]]}"#);
    assert!(bitget_trades(&other, "XAUTUSDT", 0).is_empty());
    let err = j(r#"{"code": "30001", "msg": "instType error", "data": [["1", "1"]]}"#);
    assert!(bitget_trades(&err, "XAUTUSDT", 0).is_empty());
    assert_eq!(bitget_error(&err).as_deref(), Some("instType error"));
    assert_eq!(bitget_error(&j(r#"{"code": "0"}"#)), None);
    assert_eq!(bitget_error(&j(r#"{"code": "1"}"#)).as_deref(), Some("?"));
    // Without an instId the frame is taken as ours.
    let bare = j(r#"{"data": [["2", "3", "sell", "5"]]}"#);
    assert_eq!(bitget_trades(&bare, "XAUTUSDT", 0).len(), 1);
}

#[test]
fn gate_sizes_are_signed_by_the_taker() {
    let v = j(r#"{
        "channel": "futures.trades",
        "event": "update",
        "result": [
            {"contract": "XAUT_USDT", "price": "3300.5", "size": -12, "time": 1700000000},
            {"contract": "XAUT_USDT", "price": 3301.5, "size": 7, "time": 1700000001},
            {"contract": "BTC_USDT", "price": "1", "size": 1},
            {"contract": "XAUT_USDT", "size": 1},
            {"contract": "XAUT_USDT", "price": "3302", "size": -9223372036854775808}
        ]
    }"#);
    let out: Vec<_> = gate_trades(&v, "XAUT_USDT").iter().map(brief).collect();
    assert_eq!(
        out,
        vec![
            b("gate", "XAUT_USDT", "3300.5", "12", 1_700_000_000, false, true),
            b("gate", "XAUT_USDT", "3301.5", "7", 1_700_000_001, true, true),
            b("gate", "XAUT_USDT", "3302", "9223372036854775808", 0, false, true),
        ]
    );
    let sub = j(r#"{"channel": "futures.trades", "event": "subscribe", "result": {"status": "success"}}"#);
    assert!(gate_trades(&sub, "XAUT_USDT").is_empty());
}

#[test]
fn kraken_trade_frames_carry_one_trade() {
    let v = j(r#"{
        "feed": "trade", "product_id": "PF_XAUTUSD", "side": "sell",
        "qty": 0.5, "price": 3300.5, "time": 1700000000000
    }"#);
    let out: Vec<_> = kraken_trades(&v, "PF_XAUTUSD").iter().map(brief).collect();
    assert_eq!(out, vec![b("kraken", "PF_XAUTUSD", "3300.5", "0.5", 1_700_000_000_000, false, true)]);
    assert!(kraken_trades(&j(r#"{"feed": "trade_snapshot", "trades": []}"#), "PF_XAUTUSD").is_empty());
    let ev = j(r#"{"event": "error", "message": "Invalid product id", "feed": "trade"}"#);
    assert!(kraken_trades(&ev, "PF_XAUTUSD").is_empty());
    assert_eq!(kraken_error(&ev).as_deref(), Some("Invalid product id"));
    assert_eq!(kraken_error(&j(r#"{"event": "subscribed"}"#)), None);
    // A trade frame without price or size still makes a (blank) trade.
    let bare: Vec<_> = kraken_trades(&j(r#"{"feed": "trade"}"#), "P").iter().map(brief).collect();
    assert_eq!(bare, vec![b("kraken", "P", "", "", 0, false, true)]);
}

#[test]
fn alltick_pushes_with_and_without_direction() {
    let v = j(r#"{
        "cmd_id": 22003,
        "data": [
            {"code": "XAUUSD", "price": "3300.1", "volume": "2", "tick_time": 5, "trade_direction": 1},
            {"code": "XAUUSD", "price": "3300.2", "volume": "3", "tick_time": 6, "trade_direction": 2},
            {"code": "XAUUSD", "price": 3300.3, "tick_time": 7, "trade_direction": 0},
            {"code": "XAGUSD", "price": "30"},
            {"volume": "1"}
        ]
    }"#);
    let out: Vec<_> = alltick_trades(&v, "XAUUSD").iter().map(brief).collect();
    assert_eq!(
        out,
        vec![
            b("alltick", "XAUUSD", "3300.1", "2", 5, true, true),
            b("alltick", "XAUUSD", "3300.2", "3", 6, false, true),
            b("alltick", "XAUUSD", "3300.3", "0", 7, true, false),
        ]
    );
    let one = j(r#"{"cmd_id": 22001, "data": {"code": "XAUUSD", "price": "1"}}"#);
    assert_eq!(alltick_trades(&one, "XAUUSD").len(), 1);
    let hb = j(r#"{"cmd_id": 22000, "data": {"code": "XAUUSD", "price": "1"}}"#);
    assert!(alltick_trades(&hb, "XAUUSD").is_empty());
}

#[test]
fn itick_subscribes_once_after_auth_then_reads_ticks() {
    let auth = j(r#"{"resAc": "auth", "code": 1}"#);
    assert!(matches!(itick_step(&auth, "XAUUSD", false), ItickStep::Subscribe));
    assert!(matches!(itick_step(&auth, "XAUUSD", true), ItickStep::Ack));
    let bad = j(r#"{"resAc": "auth", "code": 401}"#);
    assert!(matches!(itick_step(&bad, "XAUUSD", false), ItickStep::AckError));
    let tick = j(r#"{"data": {"s": "XAUUSD", "ld": 3300.5, "v": 2, "t": 9, "d": 2, "type": "tick"}}"#);
    match itick_step(&tick, "XAUUSD", true) {
        ItickStep::Tick(Some(t)) => {
            assert_eq!(brief(&t), b("itick", "XAUUSD", "3300.5", "2", 9, true, true))
        }
        _ => panic!("a tick push"),
    }
    let sell = j(r#"{"s": "XAUUSD", "ld": "3300", "d": 1}"#);
    match itick_step(&sell, "XAUUSD", true) {
        ItickStep::Tick(Some(t)) => assert_eq!(brief(&t), b("itick", "XAUUSD", "3300", "0", 0, false, true)),
        _ => panic!("a tick push"),
    }
    let undirected = j(r#"{"s": "XAUUSD", "ld": "3300"}"#);
    match itick_step(&undirected, "XAUUSD", true) {
        ItickStep::Tick(Some(t)) => assert!(!t.has_flow_side && !t.is_buyer_maker),
        _ => panic!("a tick push"),
    }
    for other in [
        r#"{"data": {"s": "XAGUSD", "ld": 30}}"#,
        r#"{"data": {"type": "quote", "ld": 30}}"#,
        r#"{"s": "XAUUSD"}"#,
    ] {
        assert!(matches!(itick_step(&j(other), "XAUUSD", true), ItickStep::Tick(None)));
    }
}

#[test]
fn sifting_frames_are_ticks_errors_or_other() {
    let tick = j(r#"{"f": "tick", "class": "com", "s": "XAUUSD", "p": 100.0, "t": 1}"#);
    assert!(matches!(sifting_frame(&tick, "XAUUSD"), SiftingFrame::Tick));
    assert!(matches!(sifting_frame(&tick, "XAGUSD"), SiftingFrame::Other));
    assert!(matches!(sifting_frame(&j(r#"{"f": "pong"}"#), "XAUUSD"), SiftingFrame::Other));
    match sifting_frame(&j(r#"{"f": "error", "code": "E1"}"#), "XAUUSD") {
        SiftingFrame::ServerError(c, m) => assert_eq!((c.as_str(), m.as_str()), ("E1", "?")),
        _ => panic!("an error frame"),
    }
}
