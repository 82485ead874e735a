//! Market-data records shared by the feed adapters.
use vstd::prelude::*;

verus! {

fn own(s: &str) -> (r: String)
    ensures
        r@ == s@,
{
    s.to_owned()
}

/// Normalized trade tick (all order-flow sources funnel into this).
/// Prices and quantities are kept as the decimal text the exchange sent.
#[derive(Debug, Clone)]
pub struct AggTrade {
    pub event_type: String,
    pub event_time: i64,
    pub symbol: String,
    pub agg_id: u64,
    pub price: String,
    pub quantity: String,
    pub first_trade_id: u64,
    pub last_trade_id: u64,
    pub trade_time: i64,
    pub is_buyer_maker: bool,
    pub symbol_type: Option<i32>,
    pub exchange: String,
    /// False for feeds that publish no taker side (quote ticks).
    /// Those count toward volume but never toward delta, so a
    /// direction-less feed cannot fabricate directional flow.
    pub has_flow_side: bool,
}

/// The exchange a trade is attributed to when its record names none.
pub fn default_exchange() -> (r: String)
    ensures
        r@ == "binance"@,
{
    own("binance")
}

/// A trade record without the field has a taker side.
pub fn default_true() -> (r: bool)
    ensures
        r,
{
    true
}

impl AggTrade {
    /// Constructor used by the exchange adapters.
    /// `taker_buy` = the aggressive side was the buyer.
    pub fn new(
        exchange: &str,
        symbol: &str,
        price: &str,
        qty: &str,
        ts: i64,
        taker_buy: bool,
        has_flow_side: bool,
    ) -> (t: Self)
        ensures
            t.event_type@ == "trade"@,
            t.event_time == ts,
            t.symbol@ == symbol@,
            t.agg_id == 0,
            t.price@ == price@,
            t.quantity@ == qty@,
            t.first_trade_id == 0,
            t.last_trade_id == 0,
            t.trade_time == ts,
            t.is_buyer_maker == !taker_buy,
            t.symbol_type is None,
            t.exchange@ == exchange@,
            t.has_flow_side == has_flow_side,
    {
        AggTrade {
            event_type: own("trade"),
            event_time: ts,
            symbol: own(symbol),
            agg_id: 0,
            price: own(price),
            quantity: own(qty),
            first_trade_id: 0,
            last_trade_id: 0,
            trade_time: ts,
            is_buyer_maker: !taker_buy,
            symbol_type: None,
            exchange: own(exchange),
            has_flow_side,
        }
    }
}

/// Binance kline stream event.
#[derive(Debug, Clone)]
pub struct KlineEvent {
    pub event_type: String,
    pub event_time: i64,
    pub symbol: String,
    pub kline: Kline,
}

/// One Binance kline, prices as decimal text.
#[derive(Debug, Clone)]
pub struct Kline {
    pub start_time: i64,
    pub close_time: i64,
    pub symbol: String,
    pub interval: String,
    pub open: String,
    pub close: String,
    pub high: String,
    pub low: String,
    pub volume: String,
    pub is_closed: bool,
}

/// Live tick-volume bar of one 15-minute bucket.
///
/// Prices are positive and finite, and are held as their IEEE-754 bit
/// patterns (`to_bits`): for positive finite numbers the bit patterns
/// order exactly as the numbers do. `window_ticks` is how many ticks the
/// last ten seconds saw; ticks per second is a tenth of it.
pub struct TickVolumeBar {
    pub time: i64,
    pub ticks: u64,
    pub up_ticks: u64,
    pub down_ticks: u64,
    pub flat_ticks: u64,
    pub close_bits: u64,
    pub last_tick: i64,
    pub window_ticks: u64,
    pub closed: bool,
    pub source: String,
}

impl Clone for TickVolumeBar {
    fn clone(&self) -> (r: Self)
        ensures
            r == *self,
    {
        TickVolumeBar {
            time: self.time,
            ticks: self.ticks,
            up_ticks: self.up_ticks,
            down_ticks: self.down_ticks,
            flat_ticks: self.flat_ticks,
            close_bits: self.close_bits,
            last_tick: self.last_tick,
            window_ticks: self.window_ticks,
            closed: self.closed,
            source: self.source.clone(),
        }
    }
}

} // verus!
