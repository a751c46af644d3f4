//! Pure decision logic of the supervising gateway loop.
//!
//! The loop itself multiplexes transport I/O and timers and lives with
//! the caller; what the library owns is what the loop decides: the full
//! subscription set computed from the configured symbols, the reconnect
//! policy (every disconnected adapter is reconnected, then resubscribed
//! with the full set), and the liveness guarantee behind it.

use crate::binance::BinanceClient;
use crate::events::DataType;
use crate::events::KlineInterval;
use crate::events::Subscription;
use crate::okx::OkxClient;
use crate::strutil::seq_contains_str;
use crate::strutil::spec_track_symbols;
use vstd::prelude::*;

verus! {

/// The ten subscriptions of one symbol: its aggregated trades, its
/// klines for every interval of the closed enumeration, its book
/// ticker, and its depth.
pub open spec fn spec_subs_for_symbol(sym: String) -> Seq<Subscription> {
    seq![
        Subscription { symbol: sym, data_type: DataType::AggTrade, interval: None },
        Subscription {
            symbol: sym,
            data_type: DataType::Kline,
            interval: Some(KlineInterval::OneMinute),
        },
        Subscription {
            symbol: sym,
            data_type: DataType::Kline,
            interval: Some(KlineInterval::FiveMinutes),
        },
        Subscription {
            symbol: sym,
            data_type: DataType::Kline,
            interval: Some(KlineInterval::FifteenMinutes),
        },
        Subscription {
            symbol: sym,
            data_type: DataType::Kline,
            interval: Some(KlineInterval::ThirtyMinutes),
        },
        Subscription {
            symbol: sym,
            data_type: DataType::Kline,
            interval: Some(KlineInterval::OneHour),
        },
        Subscription {
            symbol: sym,
            data_type: DataType::Kline,
            interval: Some(KlineInterval::FourHours),
        },
        Subscription {
            symbol: sym,
            data_type: DataType::Kline,
            interval: Some(KlineInterval::OneDay),
        },
        Subscription { symbol: sym, data_type: DataType::BookTicker, interval: None },
        Subscription { symbol: sym, data_type: DataType::Depth, interval: None },
    ]
}

/// The full subscription set of a symbol list, symbol by symbol.
pub open spec fn spec_create_subscriptions(symbols: Seq<String>) -> Seq<Subscription>
    decreases symbols.len(),
{
    if symbols.len() == 0 {
        Seq::empty()
    } else {
        spec_create_subscriptions(symbols.drop_last()) + spec_subs_for_symbol(symbols.last())
    }
}

/// Create the full subscription set for the given symbols: for each, its
/// trades, its klines for every interval of the closed enumeration, its
/// ticker and its depth.
pub fn create_subscriptions(symbols: &Vec<String>) -> (r: Vec<Subscription>)
    ensures
        r@ == spec_create_subscriptions(symbols@),
{
    let mut out: Vec<Subscription> = Vec::new();
    let n = symbols.len();
    proof {
        assert(out@ =~= spec_create_subscriptions(symbols@.take(0)));
    }
    let mut i: usize = 0;
    while i < n
        invariant
            0 <= i <= n,
            n == symbols@.len(),
            out@ == spec_create_subscriptions(symbols@.take(i as int)),
        decreases n - i,
    {
        let ghost pre = out@;
        let sym = &symbols[i];
        out.push(Subscription { symbol: sym.clone(), data_type: DataType::AggTrade, interval: None });
        out.push(
            Subscription {
                symbol: sym.clone(),
                data_type: DataType::Kline,
                interval: Some(KlineInterval::OneMinute),
            },
        );
        out.push(
            Subscription {
                symbol: sym.clone(),
                data_type: DataType::Kline,
                interval: Some(KlineInterval::FiveMinutes),
            },
        );
        out.push(
            Subscription {
                symbol: sym.clone(),
                data_type: DataType::Kline,
                interval: Some(KlineInterval::FifteenMinutes),
            },
        );
        out.push(
            Subscription {
                symbol: sym.clone(),
                data_type: DataType::Kline,
                interval: Some(KlineInterval::ThirtyMinutes),
            },
        );
        out.push(
            Subscription {
                symbol: sym.clone(),
                data_type: DataType::Kline,
                interval: Some(KlineInterval::OneHour),
            },
        );
        out.push(
            Subscription {
                symbol: sym.clone(),
                data_type: DataType::Kline,
                interval: Some(KlineInterval::FourHours),
            },
        );
        out.push(
            Subscription {
                symbol: sym.clone(),
                data_type: DataType::Kline,
                interval: Some(KlineInterval::OneDay),
            },
        );
        out.push(
            Subscription { symbol: sym.clone(), data_type: DataType::BookTicker, interval: None },
        );
        out.push(Subscription { symbol: sym.clone(), data_type: DataType::Depth, interval: None });
        proof {
            let post = symbols@.take(i + 1);
            assert(post.drop_last() =~= symbols@.take(i as int));
            assert(post.last() == symbols@[i as int]);
            assert(out@ =~= pre + spec_subs_for_symbol(symbols@[i as int]));
        }
        i = i + 1;
    }
    proof {
        assert(symbols@.take(n as int) =~= symbols@);
    }
    out
}

/// The reconnect tick's decision for one adapter: exactly the adapters
/// not connected are reconnected.
pub open spec fn spec_should_reconnect(connected: bool) -> bool {
    !connected
}

/// Whether the reconnect tick must attempt a connect for an adapter in
/// the given state.
pub fn should_reconnect(connected: bool) -> (r: bool)
    ensures
        r == spec_should_reconnect(connected),
{
    !connected
}

/// Everything once tracked stays tracked, and every subscribed symbol is
/// tracked after registration.
proof fn lemma_track_symbols_contains(seen: Seq<String>, subs: Seq<Subscription>)
    ensures
        forall|j: int|
            0 <= j < subs.len() ==> seq_contains_str(
                spec_track_symbols(seen, subs),
                #[trigger] subs[j].symbol@,
            ),
        forall|s: Seq<char>|
            seq_contains_str(seen, s) ==> seq_contains_str(
                spec_track_symbols(seen, subs),
                s,
            ),
    decreases subs.len(),
{
    if subs.len() > 0 {
        let prev = spec_track_symbols(seen, subs.drop_last());
        lemma_track_symbols_contains(seen, subs.drop_last());
        let result = spec_track_symbols(seen, subs);
        assert forall|s: Seq<char>| seq_contains_str(prev, s) implies seq_contains_str(
            result,
            s,
        ) by {
            let k = choose|k: int| 0 <= k < prev.len() && #[trigger] prev[k]@ == s;
            assert(result[k]@ == s);
        }
        if !seq_contains_str(prev, subs.last().symbol@) {
            assert(result[prev.len() as int]@ == subs.last().symbol@);
            assert(seq_contains_str(result, subs.last().symbol@));
        }
        assert(forall|j: int|
            0 <= j < subs.len() - 1 ==> #[trigger] subs[j] == subs.drop_last()[j]);
    }
}

/// Reconnect liveness: a disconnected adapter is picked up by the
/// reconnect tick; once the transport connect succeeds and the full
/// subscription set is registered again, the adapter reports connected
/// and tracks every subscribed symbol.
pub proof fn lemma_reconnect_liveness(
    pre: BinanceClient,
    mid: BinanceClient,
    post: BinanceClient,
    subs: Seq<Subscription>,
)
    requires
        !pre.connected,
        // the outcome `apply_connect(true)` guarantees
        mid.connected,
        mid.symbols == pre.symbols,
        // the outcome `on_subscribed` guarantees for the full set
        post.connected,
        post.symbols@ == spec_track_symbols(mid.symbols@, subs),
    ensures
        spec_should_reconnect(pre.connected),
        post.connected,
        forall|j: int|
            0 <= j < subs.len() ==> seq_contains_str(post.symbols@, #[trigger] subs[j].symbol@),
{
    lemma_track_symbols_contains(mid.symbols@, subs);
}

/// Reconnect liveness for the OKX adapter, under the same tick policy:
/// subscribing there sends a control message over the connection the
/// tick just reopened, so the connected flag carries over from the
/// connect outcome.
pub proof fn lemma_reconnect_liveness_okx(
    pre: OkxClient,
    mid: OkxClient,
    post: OkxClient,
    subs: Seq<Subscription>,
)
    requires
        !pre.connected,
        // the outcome `apply_connect(true)` guarantees
        mid.connected,
        mid.symbols == pre.symbols,
        // the outcome `on_subscribed` guarantees for the full set
        post.connected == mid.connected,
        post.symbols@ == spec_track_symbols(mid.symbols@, subs),
    ensures
        spec_should_reconnect(pre.connected),
        post.connected,
        forall|j: int|
            0 <= j < subs.len() ==> seq_contains_str(post.symbols@, #[trigger] subs[j].symbol@),
{
    lemma_track_symbols_contains(mid.symbols@, subs);
}

} // verus!
