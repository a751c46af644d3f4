//! Binance-style adapter core.
//!
//! Subscriptions are expressed as path segments combined into one stream
//! URL, so subscribing always means reconnecting with a new URL. Frame
//! parsing dispatches on the top-level `"e"` event-type field. The
//! WebSocket transport itself lives outside the library: the adapter holds
//! the connection bookkeeping, builds the URLs, parses the frames, and
//! decides what each received transport frame means.

use crate::decimal::Decimal;
use crate::events::AggTrade;
use crate::events::BookTicker;
use crate::events::DataType;
use crate::events::DepthUpdate;
use crate::events::ExchangeType;
use crate::events::Kline;
use crate::events::MarketEvent;
use crate::events::Subscription;
use crate::events::interval_token;
use crate::events::spec_interval_token;
use crate::json::JsonValue;
use crate::json::bool_field;
use crate::json::dec_field;
use crate::json::i64_field;
use crate::json::json_parse;
use crate::json::spec_bool_field;
use crate::json::spec_dec_field;
use crate::json::spec_get;
use crate::json::spec_i64_field;
use crate::json::spec_json_parse;
use crate::json::spec_str_field;
use crate::json::spec_u64_field;
use crate::json::str_field;
use crate::json::u64_field;
use crate::strutil::spec_lower;
use crate::strutil::spec_track_symbols;
use crate::strutil::str_eq;
use crate::strutil::to_lower;
use crate::strutil::track_symbols;
use vstd::prelude::*;
use vstd::string::StrSliceExecFns;
use vstd::string::StringExecFns;

verus! {

/// Binance production WebSocket endpoint.
pub const BINANCE_FUTURES_WS: &'static str = "wss://fstream.binance.com/ws";

/// Binance testnet WebSocket endpoint.
pub const BINANCE_FUTURES_TESTNET_WS: &'static str = "wss://stream.binancefuture.com/ws";

/// Binance-style adapter state: endpoint, tracked symbols, and connection
/// bookkeeping. The transport connection itself lives with the caller.
pub struct BinanceClient {
    pub exchange_type: ExchangeType,
    pub ws_url: String,
    pub symbols: Vec<String>,
    pub connected: bool,
}

/// The Binance stream token of one subscription:
/// `symbol_lowercase@suffix`.
pub open spec fn spec_stream_token(sub: Subscription) -> Seq<char> {
    spec_lower(sub.symbol@) + match sub.data_type {
        DataType::AggTrade => "@aggTrade"@,
        DataType::Kline => "@kline_"@ + spec_interval_token(sub.interval),
        DataType::Depth => "@depth@100ms"@,
        DataType::BookTicker => "@bookTicker"@,
    }
}

/// The combined stream path: tokens joined with `/`.
pub open spec fn spec_stream_path(subs: Seq<Subscription>) -> Seq<char>
    decreases subs.len(),
{
    if subs.len() == 0 {
        Seq::empty()
    } else if subs.len() == 1 {
        spec_stream_token(subs[0])
    } else {
        spec_stream_path(subs.drop_last()) + "/"@ + spec_stream_token(subs.last())
    }
}

/// The Binance stream token of one subscription.
pub fn stream_token(sub: &Subscription) -> (r: String)
    ensures
        r@ == spec_stream_token(*sub),
{
    let mut out = to_lower(sub.symbol.as_str());
    match sub.data_type {
        DataType::AggTrade => {
            out.append("@aggTrade");
        },
        DataType::Kline => {
            out.append("@kline_");
            out.append(interval_token(&sub.interval));
        },
        DataType::Depth => {
            out.append("@depth@100ms");
        },
        DataType::BookTicker => {
            out.append("@bookTicker");
        },
    }
    out
}

impl BinanceClient {
    /// A fresh, disconnected client aimed at the production endpoint, or
    /// at the testnet endpoint when `testnet` is set.
    pub fn new(testnet: bool) -> (r: Self)
        ensures
            r.exchange_type == ExchangeType::Binance,
            !r.connected,
            r.symbols@.len() == 0,
            r.ws_url@ == (if testnet {
                "wss://stream.binancefuture.com/ws"@
            } else {
                "wss://fstream.binance.com/ws"@
            }),
    {
        let ws_url = if testnet {
            String::from_str(BINANCE_FUTURES_TESTNET_WS)
        } else {
            String::from_str(BINANCE_FUTURES_WS)
        };
        BinanceClient {
            exchange_type: ExchangeType::Binance,
            ws_url,
            symbols: Vec::new(),
            connected: false,
        }
    }

    /// The exchange this adapter serves.
    pub fn exchange_type(&self) -> (r: ExchangeType)
        ensures
            r == self.exchange_type,
    {
        self.exchange_type
    }

    /// Liveness as tracked by the adapter's own bookkeeping; this does
    /// not probe the socket.
    pub fn is_connected(&self) -> (r: bool)
        ensures
            r == self.connected,
    {
        self.connected
    }

    /// The resolved endpoint URL in use, for diagnostics.
    pub fn ws_endpoint(&self) -> (r: &str)
        ensures
            r@ == self.ws_url@,
    {
        self.ws_url.as_str()
    }

    /// Record the outcome of a transport connect attempt.
    pub fn apply_connect(&mut self, ok: bool)
        ensures
            final(self).connected == ok,
            final(self).ws_url == old(self).ws_url,
            final(self).symbols == old(self).symbols,
            final(self).exchange_type == old(self).exchange_type,
    {
        self.connected = ok;
    }

    /// Record a graceful disconnect or a hard transport fault: either
    /// clears the connected flag.
    pub fn on_disconnected(&mut self)
        ensures
            !final(self).connected,
            final(self).ws_url == old(self).ws_url,
            final(self).symbols == old(self).symbols,
            final(self).exchange_type == old(self).exchange_type,
    {
        self.connected = false;
    }

    /// The combined stream URL for the given subscriptions:
    /// `<endpoint>/<token1>/<token2>/...`. Because the stream set is baked
    /// into the URL, subscribing always reconnects with this URL.
    pub fn build_stream_url(&self, subs: &Vec<Subscription>) -> (r: String)
        ensures
            r@ == self.ws_url@ + "/"@ + spec_stream_path(subs@),
    {
        let mut out = self.ws_url.clone();
        out.append("/");
        let n = subs.len();
        let mut i: usize = 0;
        while i < n
            invariant
                0 <= i <= n,
                n == subs@.len(),
                out@ == self.ws_url@ + "/"@ + spec_stream_path(subs@.take(i as int)),
            decreases n - i,
        {
            if i > 0 {
                out.append("/");
            }
            let tok = stream_token(&subs[i]);
            out.append(tok.as_str());
            proof {
                let pre = subs@.take(i as int);
                let post = subs@.take(i + 1);
                assert(post.drop_last() =~= pre);
                assert(post.last() == subs@[i as int]);
                if i == 0 {
                    assert(post =~= seq![subs@[0]]);
                    assert(spec_stream_path(post) == spec_stream_token(subs@[0]));
                }
            }
            i = i + 1;
        }
        proof {
            assert(subs@.take(n as int) =~= subs@);
        }
        out
    }

    /// Register subscriptions after the stream connection was opened:
    /// the adapter is connected, and every new symbol is tracked once, in
    /// order of first appearance.
    pub fn on_subscribed(&mut self, subs: &Vec<Subscription>)
        ensures
            final(self).connected,
            final(self).symbols@ == spec_track_symbols(old(self).symbols@, subs@),
            final(self).ws_url == old(self).ws_url,
            final(self).exchange_type == old(self).exchange_type,
    {
        self.connected = true;
        track_symbols(&mut self.symbols, subs);
    }
}

/// A well-formed Binance `aggTrade` frame: required fields present and
/// well-typed, with the trade time under `T` or, failing that, `E`.
pub open spec fn agg_trade_frame_ok(v: JsonValue) -> bool {
    &&& spec_dec_field(v, "p"@) is Some
    &&& spec_dec_field(v, "q"@) is Some
    &&& spec_str_field(v, "s"@) is Some
    &&& spec_bool_field(v, "m"@) is Some
    &&& spec_u64_field(v, "a"@) is Some
    &&& (spec_i64_field(v, "T"@) is Some || spec_i64_field(v, "E"@) is Some)
}

/// The trade time of an `aggTrade` frame: `T`, or `E` where `T` is absent.
pub open spec fn spec_agg_timestamp(v: JsonValue) -> i64 {
    if spec_i64_field(v, "T"@) is Some {
        spec_i64_field(v, "T"@)->0
    } else {
        spec_i64_field(v, "E"@)->0
    }
}

/// `t` is exactly the trade the frame `v` describes, tagged `exch`.
pub open spec fn is_agg_trade_of(v: JsonValue, exch: ExchangeType, t: AggTrade) -> bool {
    &&& t.exchange == exch
    &&& Some(t.symbol@) == spec_str_field(v, "s"@)
    &&& Some(t.price) == spec_dec_field(v, "p"@)
    &&& Some(t.quantity) == spec_dec_field(v, "q"@)
    &&& Some(t.is_buyer_maker) == spec_bool_field(v, "m"@)
    &&& Some(t.trade_id) == spec_u64_field(v, "a"@)
    &&& t.timestamp == spec_agg_timestamp(v)
}

/// A well-formed Binance `kline` frame: symbol at top level, candle
/// payload under `k` with its required fields.
pub open spec fn kline_frame_ok(v: JsonValue) -> bool {
    &&& spec_str_field(v, "s"@) is Some
    &&& spec_get(v, "k"@) is Some
    &&& {
        let k = spec_get(v, "k"@)->0;
        &&& spec_str_field(k, "i"@) is Some
        &&& spec_i64_field(k, "t"@) is Some
        &&& spec_i64_field(k, "T"@) is Some
        &&& spec_dec_field(k, "o"@) is Some
        &&& spec_dec_field(k, "h"@) is Some
        &&& spec_dec_field(k, "l"@) is Some
        &&& spec_dec_field(k, "c"@) is Some
        &&& spec_dec_field(k, "v"@) is Some
        &&& spec_bool_field(k, "x"@) is Some
    }
}

/// `kl` is exactly the candle the frame `v` describes, tagged `exch`.
pub open spec fn is_kline_of(v: JsonValue, exch: ExchangeType, kl: Kline) -> bool {
    let k = spec_get(v, "k"@)->0;
    &&& kl.exchange == exch
    &&& Some(kl.symbol@) == spec_str_field(v, "s"@)
    &&& Some(kl.interval@) == spec_str_field(k, "i"@)
    &&& Some(kl.open_time) == spec_i64_field(k, "t"@)
    &&& Some(kl.close_time) == spec_i64_field(k, "T"@)
    &&& Some(kl.open) == spec_dec_field(k, "o"@)
    &&& Some(kl.high) == spec_dec_field(k, "h"@)
    &&& Some(kl.low) == spec_dec_field(k, "l"@)
    &&& Some(kl.close) == spec_dec_field(k, "c"@)
    &&& Some(kl.volume) == spec_dec_field(k, "v"@)
    &&& Some(kl.is_closed) == spec_bool_field(k, "x"@)
}

/// One price level `[price, qty]`: both entries decimal strings.
pub open spec fn spec_level(e: JsonValue) -> Option<(Decimal, Decimal)> {
    match e {
        JsonValue::Arr(a) => if a@.len() >= 2 {
            match (a@[0], a@[1]) {
                (JsonValue::Str(p), JsonValue::Str(q)) => match (
                    crate::decimal::spec_parse_decimal(p@),
                    crate::decimal::spec_parse_decimal(q@),
                ) {
                    (Some(dp), Some(dq)) => Some((dp, dq)),
                    _ => None,
                },
                _ => None,
            }
        } else {
            None
        },
        _ => None,
    }
}

/// The price levels readable from an array of `[price, qty]` entries, in
/// order; entries that cannot be read are dropped.
pub open spec fn spec_levels(s: Seq<JsonValue>) -> Seq<(Decimal, Decimal)>
    decreases s.len(),
{
    if s.len() == 0 {
        Seq::empty()
    } else {
        spec_levels(s.drop_last()) + match spec_level(s.last()) {
            Some(pq) => seq![pq],
            None => Seq::empty(),
        }
    }
}

/// The price levels under `key` in frame `v`; empty where the member is
/// missing or not an array.
pub open spec fn spec_depth_levels(v: JsonValue, key: Seq<char>) -> Seq<(Decimal, Decimal)> {
    match spec_get(v, key) {
        Some(JsonValue::Arr(a)) => spec_levels(a@),
        _ => Seq::empty(),
    }
}

/// A well-formed Binance `depthUpdate` frame: symbol and event time
/// present. Unreadable levels are dropped, not errors.
pub open spec fn depth_frame_ok(v: JsonValue) -> bool {
    &&& spec_str_field(v, "s"@) is Some
    &&& spec_i64_field(v, "E"@) is Some
}

/// `d` is exactly the depth delta the frame `v` describes, tagged `exch`.
pub open spec fn is_depth_of(v: JsonValue, exch: ExchangeType, d: DepthUpdate) -> bool {
    &&& d.exchange == exch
    &&& Some(d.symbol@) == spec_str_field(v, "s"@)
    &&& d.bids@ == spec_depth_levels(v, "b"@)
    &&& d.asks@ == spec_depth_levels(v, "a"@)
    &&& Some(d.timestamp) == spec_i64_field(v, "E"@)
}

/// A well-formed Binance `bookTicker` frame; the event time `E` is
/// optional.
pub open spec fn book_ticker_frame_ok(v: JsonValue) -> bool {
    &&& spec_str_field(v, "s"@) is Some
    &&& spec_dec_field(v, "b"@) is Some
    &&& spec_dec_field(v, "B"@) is Some
    &&& spec_dec_field(v, "a"@) is Some
    &&& spec_dec_field(v, "A"@) is Some
}

/// `b` is exactly the ticker the frame `v` describes, tagged `exch`;
/// `now_ms` stands in for the event time where the frame has none.
pub open spec fn is_book_ticker_of(v: JsonValue, exch: ExchangeType, now_ms: i64, b: BookTicker) -> bool {
    &&& b.exchange == exch
    &&& Some(b.symbol@) == spec_str_field(v, "s"@)
    &&& Some(b.bid_price) == spec_dec_field(v, "b"@)
    &&& Some(b.bid_qty) == spec_dec_field(v, "B"@)
    &&& Some(b.ask_price) == spec_dec_field(v, "a"@)
    &&& Some(b.ask_qty) == spec_dec_field(v, "A"@)
    &&& b.timestamp == (if spec_i64_field(v, "E"@) is Some {
        spec_i64_field(v, "E"@)->0
    } else {
        now_ms
    })
}

/// What parsing a Binance frame `v` yields: dispatch on the `"e"` field,
/// `None` for any unknown or missing event type, and for any frame whose
/// required fields are absent or ill-typed.
pub open spec fn binance_frame_parse_ok(
    v: JsonValue,
    exch: ExchangeType,
    now_ms: i64,
    r: Option<MarketEvent>,
) -> bool {
    match spec_str_field(v, "e"@) {
        None => r is None,
        Some(et) => if et == "aggTrade"@ {
            &&& (r is Some <==> agg_trade_frame_ok(v))
            &&& match r {
                Some(MarketEvent::AggTrade(t)) => is_agg_trade_of(v, exch, t),
                Some(_) => false,
                None => true,
            }
        } else if et == "kline"@ {
            &&& (r is Some <==> kline_frame_ok(v))
            &&& match r {
                Some(MarketEvent::Kline(kl)) => is_kline_of(v, exch, kl),
                Some(_) => false,
                None => true,
            }
        } else if et == "depthUpdate"@ {
            &&& (r is Some <==> depth_frame_ok(v))
            &&& match r {
                Some(MarketEvent::DepthUpdate(d)) => is_depth_of(v, exch, d),
                Some(_) => false,
                None => true,
            }
        } else if et == "bookTicker"@ {
            &&& (r is Some <==> book_ticker_frame_ok(v))
            &&& match r {
                Some(MarketEvent::BookTicker(b)) => is_book_ticker_of(v, exch, now_ms, b),
                Some(_) => false,
                None => true,
            }
        } else {
            r is None
        },
    }
}

/// For any well-formed `aggTrade` frame, parsing yields an aggregated
/// trade whose `is_buyer_maker` equals the frame's `m` field and whose
/// `trade_id` equals its `a` field.
pub proof fn lemma_agg_trade_fields(
    v: JsonValue,
    exch: ExchangeType,
    now_ms: i64,
    r: Option<MarketEvent>,
)
    requires
        binance_frame_parse_ok(v, exch, now_ms, r),
        spec_str_field(v, "e"@) == Some("aggTrade"@),
        agg_trade_frame_ok(v),
    ensures
        match r {
            Some(MarketEvent::AggTrade(t)) => t.is_buyer_maker == spec_bool_field(v, "m"@)->0
                && t.trade_id == spec_u64_field(v, "a"@)->0,
            _ => false,
        },
{
}

/// For any well-formed `bookTicker` frame, the parsed bid and ask prices
/// are exactly the decimals the frame's `b` and `a` strings denote.
pub proof fn lemma_book_ticker_prices(
    v: JsonValue,
    exch: ExchangeType,
    now_ms: i64,
    r: Option<MarketEvent>,
)
    requires
        binance_frame_parse_ok(v, exch, now_ms, r),
        spec_str_field(v, "e"@) == Some("bookTicker"@),
        book_ticker_frame_ok(v),
    ensures
        match r {
            Some(MarketEvent::BookTicker(b)) => Some(b.bid_price) == spec_dec_field(v, "b"@)
                && Some(b.ask_price) == spec_dec_field(v, "a"@),
            _ => false,
        },
{
    reveal_strlit("aggTrade");
    reveal_strlit("kline");
    reveal_strlit("depthUpdate");
    reveal_strlit("bookTicker");
    assert("bookTicker"@.len() != "aggTrade"@.len());
    assert("bookTicker"@.len() != "kline"@.len());
    assert("bookTicker"@.len() != "depthUpdate"@.len());
}

/// Read one `[price, qty]` level.
fn level_of(e: &JsonValue) -> (r: Option<(Decimal, Decimal)>)
    ensures
        r == spec_level(*e),
{
    match e {
        JsonValue::Arr(a) => {
            if a.len() >= 2 {
                let p = match &a[0] {
                    JsonValue::Str(s) => crate::decimal::parse_decimal(s.as_str()),
                    _ => None,
                };
                let q = match &a[1] {
                    JsonValue::Str(s) => crate::decimal::parse_decimal(s.as_str()),
                    _ => None,
                };
                match (p, q) {
                    (Some(dp), Some(dq)) => Some((dp, dq)),
                    _ => None,
                }
            } else {
                None
            }
        },
        _ => None,
    }
}

/// Read the levels of an array of `[price, qty]` entries, dropping
/// unreadable entries.
fn parse_levels(arr: &Vec<JsonValue>) -> (r: Vec<(Decimal, Decimal)>)
    ensures
        r@ == spec_levels(arr@),
{
    let mut out: Vec<(Decimal, Decimal)> = Vec::new();
    let n = arr.len();
    proof {
        assert(out@ =~= spec_levels(arr@.take(0)));
    }
    let mut i: usize = 0;
    while i < n
        invariant
            0 <= i <= n,
            n == arr@.len(),
            out@ == spec_levels(arr@.take(i as int)),
        decreases n - i,
    {
        proof {
            let post = arr@.take(i + 1);
            assert(post.drop_last() =~= arr@.take(i as int));
            assert(post.last() == arr@[i as int]);
        }
        match level_of(&arr[i]) {
            Some(pq) => {
                out.push(pq);
                proof {
                    assert(out@ =~= spec_levels(arr@.take(i as int)) + seq![pq]);
                }
            },
            None => {
                proof {
                    assert(spec_levels(arr@.take(i + 1)) =~= spec_levels(arr@.take(i as int))
                        + Seq::<(Decimal, Decimal)>::empty());
                    assert(spec_levels(arr@.take(i as int)) + Seq::<(Decimal, Decimal)>::empty()
                        =~= spec_levels(arr@.take(i as int)));
                }
            },
        }
        i = i + 1;
    }
    proof {
        assert(arr@.take(n as int) =~= arr@);
    }
    out
}

/// The levels under `key` of frame `v`; empty where absent.
fn depth_levels(v: &JsonValue, key: &str) -> (r: Vec<(Decimal, Decimal)>)
    ensures
        r@ == spec_depth_levels(*v, key@),
{
    match crate::json::arr_field(v, key) {
        Some(a) => parse_levels(a),
        None => Vec::new(),
    }
}

impl BinanceClient {
    /// Parse an `aggTrade` frame.
    pub fn parse_agg_trade(&self, v: &JsonValue) -> (r: Option<MarketEvent>)
        ensures
            r is Some <==> agg_trade_frame_ok(*v),
            match r {
                Some(MarketEvent::AggTrade(t)) => is_agg_trade_of(*v, self.exchange_type, t),
                Some(_) => false,
                None => true,
            },
    {
        let price = match dec_field(v, "p") {
            Some(d) => d,
            None => {
                return None;
            },
        };
        let quantity = match dec_field(v, "q") {
            Some(d) => d,
            None => {
                return None;
            },
        };
        let symbol = match str_field(v, "s") {
            Some(s) => s.clone(),
            None => {
                return None;
            },
        };
        let is_buyer_maker = match bool_field(v, "m") {
            Some(b) => b,
            None => {
                return None;
            },
        };
        let trade_id = match u64_field(v, "a") {
            Some(u) => u,
            None => {
                return None;
            },
        };
        let timestamp = match i64_field(v, "T") {
            Some(t) => t,
            None => match i64_field(v, "E") {
                Some(t) => t,
                None => {
                    return None;
                },
            },
        };
        Some(
            MarketEvent::AggTrade(
                AggTrade {
                    exchange: self.exchange_type,
                    symbol,
                    price,
                    quantity,
                    timestamp,
                    is_buyer_maker,
                    trade_id,
                },
            ),
        )
    }

    /// Parse a `kline` frame.
    pub fn parse_kline(&self, v: &JsonValue) -> (r: Option<MarketEvent>)
        ensures
            r is Some <==> kline_frame_ok(*v),
            match r {
                Some(MarketEvent::Kline(kl)) => is_kline_of(*v, self.exchange_type, kl),
                Some(_) => false,
                None => true,
            },
    {
        let symbol = match str_field(v, "s") {
            Some(s) => s.clone(),
            None => {
                return None;
            },
        };
        let k = match v.get("k") {
            Some(k) => k,
            None => {
                return None;
            },
        };
        let interval = match str_field(k, "i") {
            Some(s) => s.clone(),
            None => {
                return None;
            },
        };
        let open_time = match i64_field(k, "t") {
            Some(t) => t,
            None => {
                return None;
            },
        };
        let close_time = match i64_field(k, "T") {
            Some(t) => t,
            None => {
                return None;
            },
        };
        let open = match dec_field(k, "o") {
            Some(d) => d,
            None => {
                return None;
            },
        };
        let high = match dec_field(k, "h") {
            Some(d) => d,
            None => {
                return None;
            },
        };
        let low = match dec_field(k, "l") {
            Some(d) => d,
            None => {
                return None;
            },
        };
        let close = match dec_field(k, "c") {
            Some(d) => d,
            None => {
                return None;
            },
        };
        let volume = match dec_field(k, "v") {
            Some(d) => d,
            None => {
                return None;
            },
        };
        let is_closed = match bool_field(k, "x") {
            Some(b) => b,
            None => {
                return None;
            },
        };
        Some(
            MarketEvent::Kline(
                Kline {
                    exchange: self.exchange_type,
                    symbol,
                    interval,
                    open_time,
                    close_time,
                    open,
                    high,
                    low,
                    close,
                    volume,
                    is_closed,
                },
            ),
        )
    }

    /// Parse a `depthUpdate` frame: a delta as received, not a maintained
    /// book; unreadable levels are dropped silently.
    pub fn parse_depth_update(&self, v: &JsonValue) -> (r: Option<MarketEvent>)
        ensures
            r is Some <==> depth_frame_ok(*v),
            match r {
                Some(MarketEvent::DepthUpdate(d)) => is_depth_of(*v, self.exchange_type, d),
                Some(_) => false,
                None => true,
            },
    {
        let symbol = match str_field(v, "s") {
            Some(s) => s.clone(),
            None => {
                return None;
            },
        };
        let timestamp = match i64_field(v, "E") {
            Some(t) => t,
            None => {
                return None;
            },
        };
        let bids = depth_levels(v, "b");
        let asks = depth_levels(v, "a");
        Some(
            MarketEvent::DepthUpdate(
                DepthUpdate { exchange: self.exchange_type, symbol, bids, asks, timestamp },
            ),
        )
    }

    /// Parse a `bookTicker` frame; `now_ms` stands in for the event time
    /// where the frame carries none.
    pub fn parse_book_ticker(&self, v: &JsonValue, now_ms: i64) -> (r: Option<MarketEvent>)
        ensures
            r is Some <==> book_ticker_frame_ok(*v),
            match r {
                Some(MarketEvent::BookTicker(b)) => is_book_ticker_of(
                    *v,
                    self.exchange_type,
                    now_ms,
                    b,
                ),
                Some(_) => false,
                None => true,
            },
    {
        let symbol = match str_field(v, "s") {
            Some(s) => s.clone(),
            None => {
                return None;
            },
        };
        let bid_price = match dec_field(v, "b") {
            Some(d) => d,
            None => {
                return None;
            },
        };
        let bid_qty = match dec_field(v, "B") {
            Some(d) => d,
            None => {
                return None;
            },
        };
        let ask_price = match dec_field(v, "a") {
            Some(d) => d,
            None => {
                return None;
            },
        };
        let ask_qty = match dec_field(v, "A") {
            Some(d) => d,
            None => {
                return None;
            },
        };
        let timestamp = match i64_field(v, "E") {
            Some(t) => t,
            None => now_ms,
        };
        Some(
            MarketEvent::BookTicker(
                BookTicker {
                    exchange: self.exchange_type,
                    symbol,
                    bid_price,
                    bid_qty,
                    ask_price,
                    ask_qty,
                    timestamp,
                },
            ),
        )
    }

    /// Parse one already-decoded frame: dispatch on the top-level `"e"`
    /// event-type field; any other or missing event type is an unknown
    /// event, a soft failure.
    pub fn parse_frame(&self, v: &JsonValue, now_ms: i64) -> (r: Option<MarketEvent>)
        ensures
            binance_frame_parse_ok(*v, self.exchange_type, now_ms, r),
    {
        let et = match str_field(v, "e") {
            Some(s) => s,
            None => {
                return None;
            },
        };
        if str_eq(et.as_str(), "aggTrade") {
            self.parse_agg_trade(v)
        } else if str_eq(et.as_str(), "kline") {
            self.parse_kline(v)
        } else if str_eq(et.as_str(), "depthUpdate") {
            self.parse_depth_update(v)
        } else if str_eq(et.as_str(), "bookTicker") {
            self.parse_book_ticker(v, now_ms)
        } else {
            None
        }
    }

    /// Parse one raw frame text: decode it as JSON, then dispatch. A text
    /// that is no JSON document is a soft failure.
    pub fn parse_message(&self, msg: &str, now_ms: i64) -> (r: Option<MarketEvent>)
        ensures
            match spec_json_parse(msg@) {
                None => r is None,
                Some(v) => binance_frame_parse_ok(v, self.exchange_type, now_ms, r),
            },
    {
        match json_parse(msg) {
            Some(v) => self.parse_frame(&v, now_ms),
            None => None,
        }
    }
}

} // verus!
