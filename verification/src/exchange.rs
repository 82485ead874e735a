//! The trade frames of the order-flow exchanges, decoded into normalized
//! trades. Each decoder reads one frame as the feed delivered it and gives
//! the trades it carries, in order; frames of other channels, symbols or
//! kinds give none.
use vstd::prelude::*;
use crate::json::{Json, jarr, jat, jfield, jget, jint, jnum_text, jstr, opt_str, opt_string};
use crate::text::{chars_of, decimal_digits, parse_i64, same_chars, spec_parse_i64, u64_to_decimal, string_of};
use crate::types::AggTrade;

verus! {

/// What a normalized trade is made from.
pub struct TradeFields {
    pub exchange: Seq<char>,
    pub symbol: Seq<char>,
    pub price: Seq<char>,
    pub qty: Seq<char>,
    pub ts: i64,
    pub taker_buy: bool,
    pub has_side: bool,
}

/// `t` is the trade `AggTrade::new` makes from `f`.
pub open spec fn is_trade(t: AggTrade, f: TradeFields) -> bool {
    &&& t.event_type@ == "trade"@
    &&& t.event_time == f.ts
    &&& t.symbol@ == f.symbol
    &&& t.agg_id == 0
    &&& t.price@ == f.price
    &&& t.quantity@ == f.qty
    &&& t.first_trade_id == 0
    &&& t.last_trade_id == 0
    &&& t.trade_time == f.ts
    &&& t.is_buyer_maker == !f.taker_buy
    &&& t.symbol_type is None
    &&& t.exchange@ == f.exchange
    &&& t.has_flow_side == f.has_side
}

/// `out` are the trades made from `fs`, one for one.
pub open spec fn trades_are(out: Seq<AggTrade>, fs: Seq<TradeFields>) -> bool {
    &&& out.len() == fs.len()
    &&& forall|i: int| 0 <= i < out.len() ==> is_trade(#[trigger] out[i], fs[i])
}

/// The trades of the rows that `f` accepts, in row order.
pub open spec fn rows_to(rows: Seq<Json>, f: spec_fn(Json) -> Option<TradeFields>) -> Seq<TradeFields>
    decreases rows.len(),
{
    if rows.len() == 0 {
        Seq::empty()
    } else {
        let prev = rows_to(rows.drop_last(), f);
        match f(rows.last()) {
            Some(x) => prev.push(x),
            None => prev,
        }
    }
}

pub open spec fn or_text(o: Option<Seq<char>>, d: Seq<char>) -> Seq<char> {
    match o {
        Some(s) => s,
        None => d,
    }
}

pub open spec fn or_int(o: Option<i64>, d: i64) -> i64 {
    match o {
        Some(n) => n,
        None => d,
    }
}

fn eq_str(a: &str, b: &str) -> (r: bool)
    ensures
        r == (a@ == b@),
{
    same_chars(&chars_of(a), &chars_of(b))
}

fn trade(
    exchange: &str,
    symbol: &str,
    price: &str,
    qty: &str,
    ts: i64,
    taker_buy: bool,
    has_side: bool,
) -> (t: AggTrade)
    ensures
        is_trade(
            t,
            TradeFields {
                exchange: exchange@,
                symbol: symbol@,
                price: price@,
                qty: qty@,
                ts,
                taker_buy,
                has_side,
            },
        ),
{
    AggTrade::new(exchange, symbol, price, qty, ts, taker_buy, has_side)
}

proof fn lemma_rows_step(rows: Seq<Json>, i: int, f: spec_fn(Json) -> Option<TradeFields>)
    requires
        0 <= i < rows.len(),
    ensures
        rows_to(rows.take(i + 1), f) == match f(rows[i]) {
            Some(x) => rows_to(rows.take(i), f).push(x),
            None => rows_to(rows.take(i), f),
        },
{
    assert(rows.take(i + 1).drop_last() =~= rows.take(i));
    assert(rows.take(i + 1).last() == rows[i]);
}

// ---------------------------------------------------------------------
// Bybit: XAUUSDT linear perpetual, `publicTrade`
// ---------------------------------------------------------------------

/// One Bybit trade row: `S` "Buy" means the taker bought.
pub open spec fn bybit_row(t: Json) -> Option<TradeFields> {
    Some(
        TradeFields {
            exchange: "bybit"@,
            symbol: "XAUUSDT"@,
            price: or_text(jstr(jfield(t, "p"@)), "0"@),
            qty: or_text(jstr(jfield(t, "v"@)), "0"@),
            ts: or_int(jint(jfield(t, "T"@)), 0),
            taker_buy: or_text(jstr(jfield(t, "S"@)), "Buy"@) == "Buy"@,
            has_side: true,
        },
    )
}

/// The trades of a Bybit frame: the rows of `data` on the XAUUSDT trade
/// topic.
pub open spec fn spec_bybit(v: Json) -> Seq<TradeFields> {
    if jstr(jfield(v, "topic"@)) == Some("publicTrade.XAUUSDT"@) {
        match jarr(jfield(v, "data"@)) {
            Some(rows) => rows_to(rows, |t: Json| bybit_row(t)),
            None => Seq::empty(),
        }
    } else {
        Seq::empty()
    }
}

fn bybit_row_exec(t: &Json) -> (r: AggTrade)
    ensures
        is_trade(r, bybit_row(*t)->0),
{
    let side = match t.field_str("S") {
        Some(s) => s,
        None => "Buy",
    };
    let price = match t.field_str("p") {
        Some(s) => s,
        None => "0",
    };
    let qty = match t.field_str("v") {
        Some(s) => s,
        None => "0",
    };
    let ts = match t.field_i64("T") {
        Some(n) => n,
        None => 0,
    };
    trade("bybit", "XAUUSDT", price, qty, ts, eq_str(side, "Buy"), true)
}

/// Decode a Bybit frame.
pub fn bybit_trades(v: &Json) -> (out: Vec<AggTrade>)
    ensures
        trades_are(out@, spec_bybit(*v)),
{
    let mut out: Vec<AggTrade> = Vec::new();
    let topic_ok = match v.field_str("topic") {
        Some(t) => eq_str(t, "publicTrade.XAUUSDT"),
        None => false,
    };
    if !topic_ok {
        return out;
    }
    let rows = match v.field_array("data") {
        Some(a) => a,
        None => return out,
    };
    let ghost f = |t: Json| bybit_row(t);
    for i in 0..rows.len()
        invariant
            f == (|t: Json| bybit_row(t)),
            trades_are(out@, rows_to(rows@.take(i as int), f)),
    {
        proof {
            lemma_rows_step(rows@, i as int, f);
        }
        out.push(bybit_row_exec(&rows[i]));
    }
    assert(rows@.take(rows.len() as int) =~= rows@);
    out
}


// ---------------------------------------------------------------------
// OKX: XAU-USDT-SWAP `trades`
// ---------------------------------------------------------------------

/// A timestamp written as decimal text, or 0.
pub open spec fn text_ts(o: Option<Seq<char>>) -> i64 {
    match o {
        Some(s) => match spec_parse_i64(s) {
            Some(n) => n as i64,
            None => 0,
        },
        None => 0,
    }
}

/// One OKX trade row: `side` "buy" means the taker bought.
pub open spec fn okx_row(t: Json) -> Option<TradeFields> {
    Some(
        TradeFields {
            exchange: "okx"@,
            symbol: "XAUUSDT"@,
            price: or_text(jstr(jfield(t, "px"@)), "0"@),
            qty: or_text(jstr(jfield(t, "sz"@)), "0"@),
            ts: text_ts(jstr(jfield(t, "ts"@))),
            taker_buy: or_text(jstr(jfield(t, "side"@)), "buy"@) == "buy"@,
            has_side: true,
        },
    )
}

/// The trades of an OKX frame: the rows of `data` on the `trades` channel.
pub open spec fn spec_okx(v: Json) -> Seq<TradeFields> {
    if jstr(jfield(jfield(v, "arg"@), "channel"@)) == Some("trades"@) {
        match jarr(jfield(v, "data"@)) {
            Some(rows) => rows_to(rows, |t: Json| okx_row(t)),
            None => Seq::empty(),
        }
    } else {
        Seq::empty()
    }
}

fn parse_ts_text(o: Option<&str>) -> (r: i64)
    ensures
        r == text_ts(opt_str(o)),
{
    match o {
        Some(s) => match parse_i64(s) {
            Some(n) => n,
            None => 0,
        },
        None => 0,
    }
}

fn okx_row_exec(t: &Json) -> (r: AggTrade)
    ensures
        is_trade(r, okx_row(*t)->0),
{
    let side = match t.field_str("side") {
        Some(s) => s,
        None => "buy",
    };
    let px = match t.field_str("px") {
        Some(s) => s,
        None => "0",
    };
    let sz = match t.field_str("sz") {
        Some(s) => s,
        None => "0",
    };
    let ts = parse_ts_text(t.field_str("ts"));
    trade("okx", "XAUUSDT", px, sz, ts, eq_str(side, "buy"), true)
}

/// `v[a][b].as_str()`.
fn path_str<'a>(v: &'a Json, a: &str, b: &str) -> (r: Option<&'a str>)
    ensures
        opt_str(r) == jstr(jfield(jfield(*v, a@), b@)),
{
    match v.get(a) {
        Some(x) => x.field_str(b),
        None => None,
    }
}

/// Decode an OKX frame.
pub fn okx_trades(v: &Json) -> (out: Vec<AggTrade>)
    ensures
        trades_are(out@, spec_okx(*v)),
{
    let mut out: Vec<AggTrade> = Vec::new();
    let channel_ok = match path_str(v, "arg", "channel") {
        Some(c) => eq_str(c, "trades"),
        None => false,
    };
    if !channel_ok {
        return out;
    }
    let rows = match v.field_array("data") {
        Some(a) => a,
        None => return out,
    };
    let ghost f = |t: Json| okx_row(t);
    for i in 0..rows.len()
        invariant
            f == (|t: Json| okx_row(t)),
            trades_are(out@, rows_to(rows@.take(i as int), f)),
    {
        proof {
            lemma_rows_step(rows@, i as int, f);
        }
        out.push(okx_row_exec(&rows[i]));
    }
    assert(rows@.take(rows.len() as int) =~= rows@);
    out
}

// ---------------------------------------------------------------------
// Bitget: USDT-FUTURES `publicTrade`; rows are arrays
// `[price, size, side, ts, seq]` or objects `{price, size, side, ts}`
// ---------------------------------------------------------------------

/// A Bitget timestamp: decimal text, or else an integer.
pub open spec fn bitget_ts(x: Option<Json>) -> Option<i64> {
    match x {
        Some(j) => match jstr(j) {
            Some(s) => match spec_parse_i64(s) {
                Some(n) => Some(n as i64),
                None => jint(j),
            },
            None => jint(j),
        },
        None => None,
    }
}

pub open spec fn opt_num_text(x: Option<Json>) -> Option<Seq<char>> {
    match x {
        Some(j) => jnum_text(j),
        None => None,
    }
}

/// One Bitget row; it makes a trade when it has a price and a size, at
/// `now` when it has no usable time.
pub open spec fn bitget_row(t: Json, symbol: Seq<char>, now: i64) -> Option<TradeFields> {
    let (price, qty, ts, taker_buy) = if jarr(t) is Some {
        (
            opt_num_text(jat(t, 0)),
            opt_num_text(jat(t, 1)),
            bitget_ts(jat(t, 3)),
            match jat(t, 2) {
                Some(x) => jstr(x) == Some("buy"@),
                None => false,
            },
        )
    } else {
        (
            jstr(jfield(t, "price"@)),
            jstr(jfield(t, "size"@)),
            bitget_ts(Some(jfield(t, "ts"@))),
            jstr(jfield(t, "side"@)) == Some("buy"@),
        )
    };
    match (price, qty) {
        (Some(p), Some(q)) => Some(
            TradeFields {
                exchange: "bitget"@,
                symbol,
                price: p,
                qty: q,
                ts: or_int(ts, now),
                taker_buy,
                has_side: true,
            },
        ),
        _ => None,
    }
}

/// The trades of a Bitget frame for `symbol`: none for a frame with a
/// string `code` (an acknowledgement or an error) or for another
/// instrument; else the rows of `data` that make trades.
pub open spec fn spec_bitget(v: Json, symbol: Seq<char>, now: i64) -> Seq<TradeFields> {
    if jstr(jfield(v, "code"@)) is Some {
        Seq::empty()
    } else if or_text(jstr(jfield(jfield(v, "arg"@), "instId"@)), symbol) != symbol {
        Seq::empty()
    } else {
        match jarr(jfield(v, "data"@)) {
            Some(rows) => rows_to(rows, |t: Json| bitget_row(t, symbol, now)),
            None => Seq::empty(),
        }
    }
}

fn bitget_ts_exec(x: Option<&Json>) -> (r: Option<i64>)
    ensures
        r == bitget_ts(match x {
            Some(j) => Some(*j),
            None => None,
        }),
{
    match x {
        Some(j) => match j.as_str() {
            Some(s) => match parse_i64(s) {
                Some(n) => Some(n),
                None => j.as_i64(),
            },
            None => j.as_i64(),
        },
        None => None,
    }
}

fn opt_num_text_exec(x: Option<&Json>) -> (r: Option<String>)
    ensures
        opt_string(r) == opt_num_text(match x {
            Some(j) => Some(*j),
            None => None,
        }),
{
    match x {
        Some(j) => j.num_text(),
        None => None,
    }
}

fn owned(o: Option<&str>) -> (r: Option<String>)
    ensures
        opt_string(r) == opt_str(o),
{
    match o {
        Some(s) => Some(s.to_owned()),
        None => None,
    }
}

fn bitget_row_exec(t: &Json, symbol: &str, now_ms: i64) -> (r: Option<AggTrade>)
    ensures
        match (r, bitget_row(*t, symbol@, now_ms)) {
            (Some(a), Some(f)) => is_trade(a, f),
            (None, None) => true,
            _ => false,
        },
{
    let (price, qty, ts, taker_buy) = if t.as_array().is_some() {
        (
            opt_num_text_exec(t.at(0)),
            opt_num_text_exec(t.at(1)),
            bitget_ts_exec(t.at(3)),
            match t.at(2) {
                Some(x) => match x.as_str() {
                    Some(s) => eq_str(s, "buy"),
                    None => false,
                },
                None => false,
            },
        )
    } else {
        (
            owned(t.field_str("price")),
            owned(t.field_str("size")),
            bitget_ts_exec(t.get("ts")),
            match t.field_str("side") {
                Some(s) => eq_str(s, "buy"),
                None => false,
            },
        )
    };
    match (price, qty) {
        (Some(p), Some(q)) => {
            let ts = match ts {
                Some(n) => n,
                None => now_ms,
            };
            Some(trade("bitget", symbol, p.as_str(), q.as_str(), ts, taker_buy, true))
        },
        _ => None,
    }
}

/// Decode a Bitget frame for `symbol`; `now_ms` stands in for a missing
/// trade time.
pub fn bitget_trades(v: &Json, symbol: &str, now_ms: i64) -> (out: Vec<AggTrade>)
    ensures
        trades_are(out@, spec_bitget(*v, symbol@, now_ms)),
{
    let mut out: Vec<AggTrade> = Vec::new();
    if v.field_str("code").is_some() {
        return out;
    }
    let inst = match path_str(v, "arg", "instId") {
        Some(s) => s,
        None => symbol,
    };
    if !eq_str(inst, symbol) {
        return out;
    }
    let rows = match v.field_array("data") {
        Some(a) => a,
        None => return out,
    };
    let ghost f = |t: Json| bitget_row(t, symbol@, now_ms);
    for i in 0..rows.len()
        invariant
            f == (|t: Json| bitget_row(t, symbol@, now_ms)),
            trades_are(out@, rows_to(rows@.take(i as int), f)),
    {
        proof {
            lemma_rows_step(rows@, i as int, f);
        }
        match bitget_row_exec(&rows[i], symbol, now_ms) {
            Some(t) => out.push(t),
            None => {},
        }
    }
    assert(rows@.take(rows.len() as int) =~= rows@);
    out
}

/// The text of a Bitget error frame (a string `code` other than "0"):
/// its `msg`, or "?".
pub fn bitget_error(v: &Json) -> (r: Option<String>)
    ensures
        match jstr(jfield(*v, "code"@)) {
            Some(c) => if c != "0"@ {
                opt_string(r) == Some(or_text(jstr(jfield(*v, "msg"@)), "?"@))
            } else {
                r is None
            },
            None => r is None,
        },
{
    match v.field_str("code") {
        Some(c) => if !eq_str(c, "0") {
            match v.field_str("msg") {
                Some(m) => Some(m.to_owned()),
                None => Some("?".to_owned()),
            }
        } else {
            None
        },
        None => None,
    }
}

// ---------------------------------------------------------------------
// Gate.io: `futures.trades`; `size` is signed, > 0 when the buyer took
// ---------------------------------------------------------------------

pub open spec fn abs_nat(n: i64) -> nat {
    if n < 0 {
        (-n) as nat
    } else {
        n as nat
    }
}

/// One Gate.io row: a trade of `symbol` with a price; the quantity is the
/// size's magnitude.
pub open spec fn gate_row(t: Json, symbol: Seq<char>) -> Option<TradeFields> {
    if jstr(jfield(t, "contract"@)) != Some(symbol) {
        None
    } else {
        match jnum_text(jfield(t, "price"@)) {
            Some(p) => {
                let size = or_int(jint(jfield(t, "size"@)), 0);
                Some(
                    TradeFields {
                        exchange: "gate"@,
                        symbol,
                        price: p,
                        qty: decimal_digits(abs_nat(size)),
                        ts: or_int(jint(jfield(t, "time"@)), 0),
                        taker_buy: size > 0,
                        has_side: true,
                    },
                )
            },
            None => None,
        }
    }
}

/// The trades of a Gate.io frame: the rows of `result` of a
/// `futures.trades` update.
pub open spec fn spec_gate(v: Json, symbol: Seq<char>) -> Seq<TradeFields> {
    if jstr(jfield(v, "channel"@)) == Some("futures.trades"@) && jstr(jfield(v, "event"@)) == Some(
        "update"@,
    ) {
        match jarr(jfield(v, "result"@)) {
            Some(rows) => rows_to(rows, |t: Json| gate_row(t, symbol)),
            None => Seq::empty(),
        }
    } else {
        Seq::empty()
    }
}

fn magnitude(n: i64) -> (r: u64)
    ensures
        r == abs_nat(n),
{
    if n == i64::MIN {
        9223372036854775808u64
    } else if n < 0 {
        (-n) as u64
    } else {
        n as u64
    }
}

fn gate_row_exec(t: &Json, symbol: &str) -> (r: Option<AggTrade>)
    ensures
        match (r, gate_row(*t, symbol@)) {
            (Some(a), Some(f)) => is_trade(a, f),
            (None, None) => true,
            _ => false,
        },
{
    let contract_ok = match t.field_str("contract") {
        Some(c) => eq_str(c, symbol),
        None => false,
    };
    if !contract_ok {
        return None;
    }
    let price = match t.field_num_text("price") {
        Some(p) => p,
        None => return None,
    };
    let size = match t.field_i64("size") {
        Some(n) => n,
        None => 0,
    };
    let qty = string_of(&u64_to_decimal(magnitude(size)));
    let ts = match t.field_i64("time") {
        Some(n) => n,
        None => 0,
    };
    Some(trade("gate", symbol, price.as_str(), qty.as_str(), ts, size > 0, true))
}

/// Decode a Gate.io frame for the contract `symbol`.
pub fn gate_trades(v: &Json, symbol: &str) -> (out: Vec<AggTrade>)
    ensures
        trades_are(out@, spec_gate(*v, symbol@)),
{
    let mut out: Vec<AggTrade> = Vec::new();
    let channel_ok = match v.field_str("channel") {
        Some(c) => eq_str(c, "futures.trades"),
        None => false,
    };
    let event_ok = match v.field_str("event") {
        Some(e) => eq_str(e, "update"),
        None => false,
    };
    if !(channel_ok && event_ok) {
        return out;
    }
    let rows = match v.field_array("result") {
        Some(a) => a,
        None => return out,
    };
    let ghost f = |t: Json| gate_row(t, symbol@);
    for i in 0..rows.len()
        invariant
            f == (|t: Json| gate_row(t, symbol@)),
            trades_are(out@, rows_to(rows@.take(i as int), f)),
    {
        proof {
            lemma_rows_step(rows@, i as int, f);
        }
        match gate_row_exec(&rows[i], symbol) {
            Some(t) => out.push(t),
            None => {},
        }
    }
    assert(rows@.take(rows.len() as int) =~= rows@);
    out
}


// ---------------------------------------------------------------------
// Kraken Futures: `trade` feed, one trade per frame
// ---------------------------------------------------------------------

/// The trades of a Kraken frame for `product`: none for an event frame
/// (subscription acknowledgements and errors) or a feed other than
/// `trade` (the `trade_snapshot` history replay among them); one for a
/// `trade` frame.
pub open spec fn spec_kraken(v: Json, product: Seq<char>) -> Seq<TradeFields> {
    if jget(v, "event"@) is Some {
        Seq::empty()
    } else if jstr(jfield(v, "feed"@)) == Some("trade"@) {
        seq![
            TradeFields {
                exchange: "kraken"@,
                symbol: product,
                price: or_text(jnum_text(jfield(v, "price"@)), Seq::empty()),
                qty: or_text(jnum_text(jfield(v, "qty"@)), Seq::empty()),
                ts: or_int(jint(jfield(v, "time"@)), 0),
                taker_buy: jstr(jfield(v, "side"@)) == Some("buy"@),
                has_side: true,
            },
        ]
    } else {
        Seq::empty()
    }
}

fn or_empty(o: Option<String>) -> (r: String)
    ensures
        r@ == or_text(opt_string(o), Seq::empty()),
{
    match o {
        Some(s) => s,
        None => String::new(),
    }
}

/// Decode a Kraken Futures frame for `product`.
pub fn kraken_trades(v: &Json, product: &str) -> (out: Vec<AggTrade>)
    ensures
        trades_are(out@, spec_kraken(*v, product@)),
{
    let mut out: Vec<AggTrade> = Vec::new();
    if v.get("event").is_some() {
        return out;
    }
    let is_trade_feed = match v.field_str("feed") {
        Some(f) => eq_str(f, "trade"),
        None => false,
    };
    if !is_trade_feed {
        return out;
    }
    let price = or_empty(v.field_num_text("price"));
    let qty = or_empty(v.field_num_text("qty"));
    let ts = match v.field_i64("time") {
        Some(n) => n,
        None => 0,
    };
    let taker_buy = match v.field_str("side") {
        Some(s) => eq_str(s, "buy"),
        None => false,
    };
    out.push(trade("kraken", product, price.as_str(), qty.as_str(), ts, taker_buy, true));
    out
}

/// The text of a Kraken error event: its `message`, or "?".
pub fn kraken_error(v: &Json) -> (r: Option<String>)
    ensures
        if jstr(jfield(*v, "event"@)) == Some("error"@) {
            opt_string(r) == Some(or_text(jstr(jfield(*v, "message"@)), "?"@))
        } else {
            r is None
        },
{
    let is_error = match v.field_str("event") {
        Some(e) => eq_str(e, "error"),
        None => false,
    };
    if !is_error {
        return None;
    }
    match v.field_str("message") {
        Some(m) => Some(m.to_owned()),
        None => Some("?".to_owned()),
    }
}

// ---------------------------------------------------------------------
// AllTick: spot pushes `cmd_id` 22001 (quote), 22002 (price) and 22003
// (trade); `trade_direction` 1 is an aggressive buy, 2 a sell
// ---------------------------------------------------------------------

/// One AllTick row for `code`: rows naming another code, or without a
/// price, make no trade; a row without a direction counts as volume only.
pub open spec fn alltick_row(d: Json, code: Seq<char>) -> Option<TradeFields> {
    if jstr(jfield(d, "code"@)) matches Some(c) && c != code {
        None
    } else {
        match jnum_text(jfield(d, "price"@)) {
            Some(p) => {
                let dir = jint(jfield(d, "trade_direction"@));
                Some(
                    TradeFields {
                        exchange: "alltick"@,
                        symbol: code,
                        price: p,
                        qty: or_text(jnum_text(jfield(d, "volume"@)), "0"@),
                        ts: or_int(jint(jfield(d, "tick_time"@)), 0),
                        taker_buy: dir != Some(2i64),
                        has_side: dir == Some(1i64) || dir == Some(2i64),
                    },
                )
            },
            None => None,
        }
    }
}

/// The trades of an AllTick push for `code`: its `data` rows (an array,
/// or a single object) when `cmd_id` is 22001 to 22003.
pub open spec fn spec_alltick(v: Json, code: Seq<char>) -> Seq<TradeFields> {
    let cmd = or_int(jint(jfield(v, "cmd_id"@)), 0);
    if !(22001 <= cmd <= 22003) {
        Seq::empty()
    } else {
        match jfield(v, "data"@) {
            Json::Arr(rows) => rows_to(rows@, |d: Json| alltick_row(d, code)),
            Json::Obj(_) => rows_to(seq![jfield(v, "data"@)], |d: Json| alltick_row(d, code)),
            _ => Seq::empty(),
        }
    }
}

fn alltick_row_exec(d: &Json, code: &str) -> (r: Option<AggTrade>)
    ensures
        match (r, alltick_row(*d, code@)) {
            (Some(a), Some(f)) => is_trade(a, f),
            (None, None) => true,
            _ => false,
        },
{
    match d.field_str("code") {
        Some(c) => if !eq_str(c, code) {
            return None;
        },
        None => {},
    }
    let price = match d.field_num_text("price") {
        Some(p) => p,
        None => return None,
    };
    let vol = match d.field_num_text("volume") {
        Some(v) => v,
        None => "0".to_owned(),
    };
    let ts = match d.field_i64("tick_time") {
        Some(n) => n,
        None => 0,
    };
    let dir = d.field_i64("trade_direction");
    let directed = dir == Some(1i64) || dir == Some(2i64);
    Some(trade("alltick", code, price.as_str(), vol.as_str(), ts, dir != Some(2i64), directed))
}

/// Decode an AllTick push for the symbol `code`.
pub fn alltick_trades(v: &Json, code: &str) -> (out: Vec<AggTrade>)
    ensures
        trades_are(out@, spec_alltick(*v, code@)),
{
    let mut out: Vec<AggTrade> = Vec::new();
    let cmd = match v.field_i64("cmd_id") {
        Some(n) => n,
        None => 0,
    };
    if !(22001 <= cmd && cmd <= 22003) {
        return out;
    }
    let data = match v.get("data") {
        Some(d) => d,
        None => return out,
    };
    let ghost f = |d: Json| alltick_row(d, code@);
    match data {
        Json::Arr(rows) => {
            for i in 0..rows.len()
                invariant
                    f == (|d: Json| alltick_row(d, code@)),
                    trades_are(out@, rows_to(rows@.take(i as int), f)),
            {
                proof {
                    lemma_rows_step(rows@, i as int, f);
                }
                match alltick_row_exec(&rows[i], code) {
                    Some(t) => out.push(t),
                    None => {},
                }
            }
            assert(rows@.take(rows.len() as int) =~= rows@);
        },
        Json::Obj(_) => {
            proof {
                lemma_rows_step(seq![*data], 0, f);
                assert(seq![*data].take(1) =~= seq![*data]);
                assert(seq![*data].take(0) =~= Seq::<Json>::empty());
            }
            match alltick_row_exec(data, code) {
                Some(t) => out.push(t),
                None => {},
            }
        },
        _ => {},
    }
    out
}

// ---------------------------------------------------------------------
// iTick: after the `auth` acknowledgement the adapter subscribes; pushes
// carry `{s, ld, v, t, d}` at top level or under `data`, where `d` 2 is
// an aggressive buy and 1 a sell
// ---------------------------------------------------------------------

/// What an iTick frame calls for.
pub enum ItickStep {
    /// The server authenticated us: send the subscription.
    Subscribe,
    /// An acknowledgement with an error code.
    AckError,
    /// Any other acknowledgement.
    Ack,
    /// A push: the trade it carries, if any.
    Tick(Option<AggTrade>),
}

/// The acknowledgement code is good: 0 (or absent) or 1.
pub open spec fn itick_ok(v: Json) -> bool {
    or_int(jint(jfield(v, "code"@)), 0) == 0 || jint(jfield(v, "code"@)) == Some(1i64)
}

/// The part of a push that holds the tick: `data` when it is an object,
/// else the frame itself.
pub open spec fn itick_body(v: Json) -> Json {
    match jget(v, "data"@) {
        Some(x) => if x is Obj {
            x
        } else {
            v
        },
        None => v,
    }
}

/// The trade an iTick push carries for `symbol`: none when it is typed as
/// something other than a tick, names another symbol, or has no price; a
/// push without a direction counts as volume only.
pub open spec fn itick_tick(v: Json, symbol: Seq<char>) -> Option<TradeFields> {
    let d = itick_body(v);
    if jstr(jfield(d, "type"@)) matches Some(t) && t != "tick"@ {
        None
    } else if jstr(jfield(d, "s"@)) matches Some(s) && s != symbol {
        None
    } else {
        match jnum_text(jfield(d, "ld"@)) {
            Some(p) => {
                let dir = jint(jfield(d, "d"@));
                Some(
                    TradeFields {
                        exchange: "itick"@,
                        symbol,
                        price: p,
                        qty: or_text(jnum_text(jfield(d, "v"@)), "0"@),
                        ts: or_int(jint(jfield(d, "t"@)), 0),
                        taker_buy: dir != Some(1i64),
                        has_side: dir == Some(1i64) || dir == Some(2i64),
                    },
                )
            },
            None => None,
        }
    }
}

/// Decide on one iTick frame; `subscribed` says whether the subscription
/// was already sent on this connection.
pub fn itick_step(v: &Json, symbol: &str, subscribed: bool) -> (r: ItickStep)
    ensures
        jget(*v, "resAc"@) is Some ==> {
            let auth = jstr(jfield(*v, "resAc"@)) == Some("auth"@);
            if auth && itick_ok(*v) && !subscribed {
                r is Subscribe
            } else if !itick_ok(*v) {
                r is AckError
            } else {
                r is Ack
            }
        },
        jget(*v, "resAc"@) is None ==> match r {
            ItickStep::Tick(t) => match (t, itick_tick(*v, symbol@)) {
                (Some(a), Some(f)) => is_trade(a, f),
                (None, None) => true,
                _ => false,
            },
            _ => false,
        },
{
    if v.get("resAc").is_some() {
        let auth = match v.field_str("resAc") {
            Some(a) => eq_str(a, "auth"),
            None => false,
        };
        let code = v.field_i64("code");
        let ok = (match code {
            Some(c) => c,
            None => 0,
        }) == 0 || code == Some(1i64);
        if auth && ok && !subscribed {
            return ItickStep::Subscribe;
        } else if !ok {
            return ItickStep::AckError;
        } else {
            return ItickStep::Ack;
        }
    }
    let d = match v.get("data") {
        Some(x) => match x {
            Json::Obj(_) => x,
            _ => v,
        },
        None => v,
    };
    match d.field_str("type") {
        Some(t) => if !eq_str(t, "tick") {
            return ItickStep::Tick(None);
        },
        None => {},
    }
    match d.field_str("s") {
        Some(s) => if !eq_str(s, symbol) {
            return ItickStep::Tick(None);
        },
        None => {},
    }
    let price = match d.field_num_text("ld") {
        Some(p) => p,
        None => return ItickStep::Tick(None),
    };
    let vol = match d.field_num_text("v") {
        Some(x) => x,
        None => "0".to_owned(),
    };
    let ts = match d.field_i64("t") {
        Some(n) => n,
        None => 0,
    };
    let dir = d.field_i64("d");
    let directed = dir == Some(1i64) || dir == Some(2i64);
    ItickStep::Tick(Some(trade("itick", symbol, price.as_str(), vol.as_str(), ts, dir != Some(1i64), directed)))
}

// ---------------------------------------------------------------------
// SiftingIO spot stream frames
// ---------------------------------------------------------------------

/// What a SiftingIO frame is.
pub enum SiftingFrame {
    /// A tick for the subscribed symbol.
    Tick,
    /// A server error: its code and message ("?" where absent).
    ServerError(String, String),
    /// Acknowledgements, pongs, other symbols and anything unknown.
    Other,
}

/// Classify a SiftingIO frame for `symbol`.
pub fn sifting_frame(v: &Json, symbol: &str) -> (r: SiftingFrame)
    ensures
        jstr(jfield(*v, "f"@)) == Some("tick"@) && jstr(jfield(*v, "s"@)) == Some(symbol@) ==> r is Tick,
        jstr(jfield(*v, "f"@)) == Some("error"@) ==> (r matches SiftingFrame::ServerError(c, m) && c@
            == or_text(jstr(jfield(*v, "code"@)), "?"@) && m@ == or_text(jstr(jfield(*v, "message"@)), "?"@)),
        !(jstr(jfield(*v, "f"@)) == Some("tick"@) && jstr(jfield(*v, "s"@)) == Some(symbol@))
            && jstr(jfield(*v, "f"@)) != Some("error"@) ==> r is Other,
{
    proof {
        reveal_strlit("tick");
        reveal_strlit("error");
        assert("tick"@.len() != "error"@.len());
    }
    match v.field_str("f") {
        Some(f) => {
            if eq_str(f, "tick") {
                match v.field_str("s") {
                    Some(s) => if eq_str(s, symbol) {
                        SiftingFrame::Tick
                    } else {
                        SiftingFrame::Other
                    },
                    None => SiftingFrame::Other,
                }
            } else if eq_str(f, "error") {
                let code = match v.field_str("code") {
                    Some(c) => c.to_owned(),
                    None => "?".to_owned(),
                };
                let message = match v.field_str("message") {
                    Some(m) => m.to_owned(),
                    None => "?".to_owned(),
                };
                SiftingFrame::ServerError(code, message)
            } else {
                SiftingFrame::Other
            }
        },
        None => SiftingFrame::Other,
    }
}

} // verus!
