//! OKX-style adapter core.
//!
//! The connection is opened once; subscriptions are added by sending one
//! JSON control message over the open socket. Channel names encode data
//! kind and symbol, with the symbol in the exchange's hyphenated spelling.
//! The WebSocket transport itself lives outside the library: the adapter
//! holds the connection bookkeeping, builds the control messages, parses
//! the frames, and decides what each received transport frame means.

use crate::decimal::Decimal;
use crate::decimal::all_digits;
use crate::decimal::digits_val;
use crate::decimal::is_digit;
use crate::decimal::lemma_digits_val_extend;
use crate::decimal::spec_parse_decimal;
use crate::decimal::spec_parse_i64;
use crate::events::AggTrade;
use crate::events::BookTicker;
use crate::events::DataType;
use crate::events::DepthUpdate;
use crate::events::ExchangeType;
use crate::events::Kline;
use crate::events::KlineInterval;
use crate::events::MarketEvent;
use crate::events::Subscription;
use crate::events::interval_token;
use crate::events::spec_interval_token;
use crate::json::JsonValue;
use crate::json::bool_field;
use crate::json::dec_field;
use crate::json::i64_field;
use crate::json::json_parse;
use crate::json::spec_bool_field;
use crate::json::spec_dec_field;
use crate::json::spec_get;
use crate::json::spec_i64_field;
use crate::json::spec_json_parse;
use crate::json::spec_str_field;
use crate::json::str_field;
use crate::strutil::str_eq;
use crate::strutil::push_char;
use crate::strutil::spec_contains;
use crate::strutil::spec_starts_with;
use crate::strutil::spec_track_symbols;
use crate::strutil::track_symbols;
use vstd::prelude::*;
use vstd::string::StrSliceExecFns;
use vstd::string::StringExecFns;

verus! {

/// OKX production WebSocket endpoint.
pub const OKX_WS_PUBLIC: &'static str = "wss://ws.okx.com:8443/ws/v5/public";

/// OKX demo-trading WebSocket endpoint.
pub const OKX_WS_DEMO: &'static str = "wss://wspap.okx.com:8443/ws/v5/public";

/// OKX-style adapter state: endpoint, tracked symbols, and connection
/// bookkeeping. The transport connection itself lives with the caller.
pub struct OkxClient {
    pub exchange_type: ExchangeType,
    pub ws_url: String,
    pub symbols: Vec<String>,
    pub connected: bool,
}

/// The exchange's hyphenated spelling of a canonical symbol: a hyphen is
/// inserted before each occurrence of `USDT`, and of `USD` not already
/// part of `USDT`. A textual substitution, not a currency-pair parser.
pub open spec fn spec_okx_symbol(s: Seq<char>) -> Seq<char>
    decreases s.len(),
{
    if s.len() >= 4 && s[0] == 'U' && s[1] == 'S' && s[2] == 'D' && s[3] == 'T' {
        seq!['-', 'U', 'S', 'D', 'T'] + spec_okx_symbol(s.skip(4))
    } else if s.len() >= 3 && s[0] == 'U' && s[1] == 'S' && s[2] == 'D' {
        seq!['-', 'U', 'S', 'D'] + spec_okx_symbol(s.skip(3))
    } else if s.len() == 0 {
        Seq::empty()
    } else {
        seq![s[0]] + spec_okx_symbol(s.skip(1))
    }
}

/// The canonical spelling of an exchange symbol: every hyphen removed.
pub open spec fn spec_standard_symbol(s: Seq<char>) -> Seq<char>
    decreases s.len(),
{
    if s.len() == 0 {
        Seq::empty()
    } else if s[0] == '-' {
        spec_standard_symbol(s.skip(1))
    } else {
        seq![s[0]] + spec_standard_symbol(s.skip(1))
    }
}

/// Hyphen removal distributes over concatenation.
proof fn lemma_standard_concat(a: Seq<char>, b: Seq<char>)
    ensures
        spec_standard_symbol(a + b) == spec_standard_symbol(a) + spec_standard_symbol(b),
    decreases a.len(),
{
    if a.len() == 0 {
        assert(a + b =~= b);
        assert(spec_standard_symbol(a) + spec_standard_symbol(b) =~= spec_standard_symbol(b));
    } else {
        assert((a + b).skip(1) =~= a.skip(1) + b);
        assert((a + b)[0] == a[0]);
        lemma_standard_concat(a.skip(1), b);
        if a[0] == '-' {
            assert(spec_standard_symbol(a) == spec_standard_symbol(a.skip(1)));
        } else {
            assert(seq![a[0]] + (spec_standard_symbol(a.skip(1)) + spec_standard_symbol(b)) =~= (
            seq![a[0]] + spec_standard_symbol(a.skip(1))) + spec_standard_symbol(b));
        }
    }
}

/// A hyphen-free string is unchanged by hyphen removal.
proof fn lemma_standard_id(s: Seq<char>)
    requires
        forall|i: int| 0 <= i < s.len() ==> s[i] != '-',
    ensures
        spec_standard_symbol(s) == s,
    decreases s.len(),
{
    if s.len() > 0 {
        assert(forall|i: int| 0 <= i < s.skip(1).len() ==> s.skip(1)[i] == s[i + 1]);
        lemma_standard_id(s.skip(1));
        assert(seq![s[0]] + s.skip(1) =~= s);
    }
}

/// Symbol round-trip: for any canonical symbol without a hyphen, mapping
/// to the exchange spelling and back recovers the symbol exactly.
pub proof fn lemma_symbol_round_trip(s: Seq<char>)
    requires
        forall|i: int| 0 <= i < s.len() ==> s[i] != '-',
    ensures
        spec_standard_symbol(spec_okx_symbol(s)) == s,
    decreases s.len(),
{
    if s.len() >= 4 && s[0] == 'U' && s[1] == 'S' && s[2] == 'D' && s[3] == 'T' {
        let head = seq!['-', 'U', 'S', 'D', 'T'];
        let tail = s.skip(4);
        assert(forall|i: int| 0 <= i < tail.len() ==> tail[i] == s[i + 4]);
        lemma_symbol_round_trip(tail);
        lemma_standard_concat(head, spec_okx_symbol(tail));
        assert(head.skip(1) =~= seq!['U', 'S', 'D', 'T']);
        lemma_standard_id(seq!['U', 'S', 'D', 'T']);
        assert(spec_standard_symbol(head) == seq!['U', 'S', 'D', 'T']);
        assert(seq!['U', 'S', 'D', 'T'] + tail =~= s);
    } else if s.len() >= 3 && s[0] == 'U' && s[1] == 'S' && s[2] == 'D' {
        let head = seq!['-', 'U', 'S', 'D'];
        let tail = s.skip(3);
        assert(forall|i: int| 0 <= i < tail.len() ==> tail[i] == s[i + 3]);
        lemma_symbol_round_trip(tail);
        lemma_standard_concat(head, spec_okx_symbol(tail));
        assert(head.skip(1) =~= seq!['U', 'S', 'D']);
        lemma_standard_id(seq!['U', 'S', 'D']);
        assert(spec_standard_symbol(head) == seq!['U', 'S', 'D']);
        assert(seq!['U', 'S', 'D'] + tail =~= s);
    } else if s.len() == 0 {
    } else {
        let head = seq![s[0]];
        let tail = s.skip(1);
        assert(forall|i: int| 0 <= i < tail.len() ==> tail[i] == s[i + 1]);
        lemma_symbol_round_trip(tail);
        lemma_standard_concat(head, spec_okx_symbol(tail));
        lemma_standard_id(head);
        assert(head + tail =~= s);
    }
}

impl OkxClient {
    /// A fresh, disconnected client aimed at the production endpoint, or
    /// at the demo endpoint when `demo_trading` is set.
    pub fn new(demo_trading: bool) -> (r: Self)
        ensures
            r.exchange_type == ExchangeType::Okx,
            !r.connected,
            r.symbols@.len() == 0,
            r.ws_url@ == (if demo_trading {
                "wss://wspap.okx.com:8443/ws/v5/public"@
            } else {
                "wss://ws.okx.com:8443/ws/v5/public"@
            }),
    {
        let ws_url = if demo_trading {
            String::from_str(OKX_WS_DEMO)
        } else {
            String::from_str(OKX_WS_PUBLIC)
        };
        OkxClient { exchange_type: ExchangeType::Okx, ws_url, symbols: Vec::new(), connected: false }
    }

    /// The exchange this adapter serves.
    pub fn exchange_type(&self) -> (r: ExchangeType)
        ensures
            r == self.exchange_type,
    {
        self.exchange_type
    }

    /// Liveness as tracked by the adapter's own bookkeeping; this does
    /// not probe the socket.
    pub fn is_connected(&self) -> (r: bool)
        ensures
            r == self.connected,
    {
        self.connected
    }

    /// The resolved endpoint URL in use, for diagnostics.
    pub fn ws_endpoint(&self) -> (r: &str)
        ensures
            r@ == self.ws_url@,
    {
        self.ws_url.as_str()
    }

    /// Record the outcome of a transport connect attempt.
    pub fn apply_connect(&mut self, ok: bool)
        ensures
            final(self).connected == ok,
            final(self).ws_url == old(self).ws_url,
            final(self).symbols == old(self).symbols,
            final(self).exchange_type == old(self).exchange_type,
    {
        self.connected = ok;
    }

    /// Record a graceful disconnect or a hard transport fault: either
    /// clears the connected flag.
    pub fn on_disconnected(&mut self)
        ensures
            !final(self).connected,
            final(self).ws_url == old(self).ws_url,
            final(self).symbols == old(self).symbols,
            final(self).exchange_type == old(self).exchange_type,
    {
        self.connected = false;
    }

    /// Register subscriptions after the control message went out over the
    /// open socket: every new symbol is tracked once, in order of first
    /// appearance.
    pub fn on_subscribed(&mut self, subs: &Vec<Subscription>)
        ensures
            final(self).connected == old(self).connected,
            final(self).symbols@ == spec_track_symbols(old(self).symbols@, subs@),
            final(self).ws_url == old(self).ws_url,
            final(self).exchange_type == old(self).exchange_type,
    {
        track_symbols(&mut self.symbols, subs);
    }

    /// Convert a canonical trading pair to the exchange's hyphenated
    /// spelling.
    pub fn okx_symbol(symbol: &str) -> (r: String)
        ensures
            r@ == spec_okx_symbol(symbol@),
    {
        let n = symbol.unicode_len();
        let mut out = String::new();
        proof {
            assert(symbol@.skip(0) =~= symbol@);
            assert(out@ + spec_okx_symbol(symbol@) =~= spec_okx_symbol(symbol@));
        }
        let mut i: usize = 0;
        while i < n
            invariant
                0 <= i <= n,
                n == symbol@.len(),
                out@ + spec_okx_symbol(symbol@.skip(i as int)) == spec_okx_symbol(symbol@),
            decreases n - i,
        {
            let ghost rem = symbol@.skip(i as int);
            let c0 = symbol.get_char(i);
            let usdt = n - i >= 4 && c0 == 'U' && symbol.get_char(i + 1) == 'S' && symbol.get_char(
                i + 2,
            ) == 'D' && symbol.get_char(i + 3) == 'T';
            let usd = !usdt && n - i >= 3 && c0 == 'U' && symbol.get_char(i + 1) == 'S'
                && symbol.get_char(i + 2) == 'D';
            proof {
                assert(forall|l: int| 0 <= l < rem.len() ==> rem[l] == symbol@[l + i]);
            }
            if usdt {
                out.append("-USDT");
                proof {
                    reveal_strlit("-USDT");
                    assert("-USDT"@ =~= seq!['-', 'U', 'S', 'D', 'T']);
                    assert(rem.skip(4) =~= symbol@.skip(i + 4));
                    assert(spec_okx_symbol(rem) == seq!['-', 'U', 'S', 'D', 'T']
                        + spec_okx_symbol(symbol@.skip(i + 4)));
                    assert(out@ + spec_okx_symbol(symbol@.skip(i + 4)) =~= spec_okx_symbol(
                        symbol@,
                    ));
                }
                i = i + 4;
            } else if usd {
                out.append("-USD");
                proof {
                    reveal_strlit("-USD");
                    assert("-USD"@ =~= seq!['-', 'U', 'S', 'D']);
                    assert(rem.skip(3) =~= symbol@.skip(i + 3));
                    assert(spec_okx_symbol(rem) == seq!['-', 'U', 'S', 'D'] + spec_okx_symbol(
                        symbol@.skip(i + 3),
                    ));
                    assert(out@ + spec_okx_symbol(symbol@.skip(i + 3)) =~= spec_okx_symbol(
                        symbol@,
                    ));
                }
                i = i + 3;
            } else {
                push_char(&mut out, c0);
                proof {
                    assert(rem.skip(1) =~= symbol@.skip(i + 1));
                    assert(spec_okx_symbol(rem) == seq![symbol@[i as int]] + spec_okx_symbol(
                        symbol@.skip(i + 1),
                    ));
                    assert(out@ + spec_okx_symbol(symbol@.skip(i + 1)) =~= spec_okx_symbol(
                        symbol@,
                    ));
                }
                i = i + 1;
            }
        }
        proof {
            assert(symbol@.skip(n as int) =~= Seq::<char>::empty());
            assert(out@ + Seq::<char>::empty() =~= out@);
        }
        out
    }

    /// Convert an exchange symbol back to the canonical spelling by
    /// removing every hyphen.
    pub fn standard_symbol(okx_symbol: &str) -> (r: String)
        ensures
            r@ == spec_standard_symbol(okx_symbol@),
    {
        let n = okx_symbol.unicode_len();
        let mut out = String::new();
        proof {
            assert(okx_symbol@.skip(0) =~= okx_symbol@);
            assert(out@ + spec_standard_symbol(okx_symbol@.skip(0)) =~= spec_standard_symbol(
                okx_symbol@,
            ));
        }
        let mut i: usize = 0;
        while i < n
            invariant
                0 <= i <= n,
                n == okx_symbol@.len(),
                out@ + spec_standard_symbol(okx_symbol@.skip(i as int)) == spec_standard_symbol(
                    okx_symbol@,
                ),
            decreases n - i,
        {
            let ghost rem = okx_symbol@.skip(i as int);
            let c = okx_symbol.get_char(i);
            proof {
                assert(rem[0] == okx_symbol@[i as int]);
                assert(rem.skip(1) =~= okx_symbol@.skip(i + 1));
            }
            if c != '-' {
                push_char(&mut out, c);
                proof {
                    assert(spec_standard_symbol(rem) == seq![okx_symbol@[i as int]]
                        + spec_standard_symbol(okx_symbol@.skip(i + 1)));
                    assert(out@ + spec_standard_symbol(okx_symbol@.skip(i + 1))
                        =~= spec_standard_symbol(okx_symbol@));
                }
            } else {
                proof {
                    assert(spec_standard_symbol(rem) == spec_standard_symbol(
                        okx_symbol@.skip(i + 1),
                    ));
                }
            }
            i = i + 1;
        }
        proof {
            assert(okx_symbol@.skip(n as int) =~= Seq::<char>::empty());
            assert(out@ + Seq::<char>::empty() =~= out@);
        }
        out
    }
}

/// `s` with every trailing `c` removed.
pub open spec fn spec_trim_end(s: Seq<char>, c: char) -> Seq<char>
    decreases s.len(),
{
    if s.len() > 0 && s.last() == c {
        spec_trim_end(s.drop_last(), c)
    } else {
        s
    }
}

/// The millisecond base of an interval token, by its unit suffix;
/// minutes where no unit is recognized.
pub open spec fn spec_interval_base(s: Seq<char>) -> int {
    if s.len() > 0 && s.last() == 'm' {
        60_000
    } else if s.len() > 0 && s.last() == 'h' {
        3_600_000
    } else if s.len() > 0 && s.last() == 'd' {
        86_400_000
    } else {
        60_000
    }
}

/// The count of an interval token: the digits left after trimming the
/// unit suffixes, or one where they are no usable number.
pub open spec fn spec_interval_count(s: Seq<char>) -> int {
    let t = spec_trim_end(spec_trim_end(spec_trim_end(s, 'm'), 'h'), 'd');
    if t.len() > 0 && all_digits(t) && digits_val(t) <= i64::MAX {
        digits_val(t)
    } else {
        1
    }
}

/// The duration in milliseconds an interval token denotes, saturating at
/// `i64::MAX`.
pub open spec fn spec_interval_ms(s: Seq<char>) -> int {
    if spec_interval_count(s) * spec_interval_base(s) > i64::MAX {
        i64::MAX as int
    } else {
        spec_interval_count(s) * spec_interval_base(s)
    }
}

/// The interval arithmetic on a token of the shape `<digits><unit>`:
/// the trims leave exactly the digits, and the duration is their value
/// times the unit's base.
proof fn lemma_interval_ms_shape(digits: Seq<char>, unit: char)
    requires
        digits.len() > 0,
        all_digits(digits),
        unit == 'm' || unit == 'h' || unit == 'd',
        digits_val(digits) <= i64::MAX,
    ensures
        ({
            let base: int = if unit == 'm' {
                60_000
            } else if unit == 'h' {
                3_600_000
            } else {
                86_400_000
            };
            spec_interval_ms(digits.push(unit)) == (if digits_val(digits) * base > i64::MAX {
                i64::MAX as int
            } else {
                digits_val(digits) * base
            })
        }),
{
    let s = digits.push(unit);
    assert(s.last() == unit);
    assert(s.drop_last() =~= digits);
    assert(is_digit(digits.last()));
    if unit == 'm' {
        assert(spec_trim_end(s, 'm') == spec_trim_end(digits, 'm'));
        assert(spec_trim_end(digits, 'm') == digits);
        assert(spec_trim_end(digits, 'h') == digits);
        assert(spec_trim_end(digits, 'd') == digits);
    } else if unit == 'h' {
        assert(spec_trim_end(s, 'm') == s);
        assert(spec_trim_end(s, 'h') == spec_trim_end(digits, 'h'));
        assert(spec_trim_end(digits, 'h') == digits);
        assert(spec_trim_end(digits, 'd') == digits);
    } else {
        assert(spec_trim_end(s, 'm') == s);
        assert(spec_trim_end(s, 'h') == s);
        assert(spec_trim_end(s, 'd') == spec_trim_end(digits, 'd'));
        assert(spec_trim_end(digits, 'd') == digits);
    }
    assert(spec_interval_count(s) == digits_val(digits));
}

/// For every interval of the closed enumeration, the generic token
/// arithmetic agrees with the enumeration's fixed duration: deriving a
/// close time from a channel's token uses exactly the interval's
/// millisecond duration.
pub proof fn lemma_interval_token_duration(iv: KlineInterval)
    ensures
        spec_interval_ms(spec_interval_token(Some(iv))) == iv.spec_duration_ms() as int,
{
    let one = seq!['1'];
    let four = seq!['4'];
    let five = seq!['5'];
    let fifteen = seq!['1', '5'];
    let thirty = seq!['3', '0'];
    assert(one.drop_last() =~= Seq::<char>::empty());
    assert(four.drop_last() =~= Seq::<char>::empty());
    assert(five.drop_last() =~= Seq::<char>::empty());
    assert(fifteen.drop_last() =~= one);
    assert(thirty.drop_last() =~= seq!['3']);
    assert(seq!['3'].drop_last() =~= Seq::<char>::empty());
    assert(digits_val(Seq::<char>::empty()) == 0);
    assert(digits_val(seq!['3']) == 3);
    assert(digits_val(one) == 1);
    assert(digits_val(four) == 4);
    assert(digits_val(five) == 5);
    assert(digits_val(fifteen) == 15);
    assert(digits_val(thirty) == 30);
    match iv {
        KlineInterval::OneMinute => {
            reveal_strlit("1m");
            assert("1m"@ =~= one.push('m'));
            lemma_interval_ms_shape(one, 'm');
        },
        KlineInterval::FiveMinutes => {
            reveal_strlit("5m");
            assert("5m"@ =~= five.push('m'));
            lemma_interval_ms_shape(five, 'm');
        },
        KlineInterval::FifteenMinutes => {
            reveal_strlit("15m");
            assert("15m"@ =~= fifteen.push('m'));
            lemma_interval_ms_shape(fifteen, 'm');
        },
        KlineInterval::ThirtyMinutes => {
            reveal_strlit("30m");
            assert("30m"@ =~= thirty.push('m'));
            lemma_interval_ms_shape(thirty, 'm');
        },
        KlineInterval::OneHour => {
            reveal_strlit("1h");
            assert("1h"@ =~= one.push('h'));
            lemma_interval_ms_shape(one, 'h');
        },
        KlineInterval::FourHours => {
            reveal_strlit("4h");
            assert("4h"@ =~= four.push('h'));
            lemma_interval_ms_shape(four, 'h');
        },
        KlineInterval::OneDay => {
            reveal_strlit("1d");
            assert("1d"@ =~= one.push('d'));
            lemma_interval_ms_shape(one, 'd');
        },
    }
}

/// The OKX channel name of one subscription.
pub open spec fn spec_okx_channel(sub: Subscription) -> Seq<char> {
    match sub.data_type {
        DataType::AggTrade => "public-trade:"@ + spec_okx_symbol(sub.symbol@),
        DataType::Kline => "public-candle"@ + spec_interval_token(sub.interval) + ":"@
            + spec_okx_symbol(sub.symbol@),
        DataType::Depth => "public-books:"@ + spec_okx_symbol(sub.symbol@),
        DataType::BookTicker => "public-tickers:"@ + spec_okx_symbol(sub.symbol@),
    }
}

/// One entry of the subscription message's argument list.
pub open spec fn spec_sub_arg(sub: Subscription) -> Seq<char> {
    "{\"channel\":\""@ + spec_okx_channel(sub) + "\",\"op\":\"subscribe\"}"@
}

/// The argument list of the subscription message, comma-joined.
pub open spec fn spec_sub_args(subs: Seq<Subscription>) -> Seq<char>
    decreases subs.len(),
{
    if subs.len() == 0 {
        Seq::empty()
    } else if subs.len() == 1 {
        spec_sub_arg(subs[0])
    } else {
        spec_sub_args(subs.drop_last()) + ","@ + spec_sub_arg(subs.last())
    }
}

/// The whole JSON control message that subscribes to `subs`.
pub open spec fn spec_subscribe_msg(subs: Seq<Subscription>) -> Seq<char> {
    "{\"op\":\"subscribe\",\"args\":["@ + spec_sub_args(subs) + "]}"@
}

/// The OKX channel name of one subscription.
pub fn okx_channel(sub: &Subscription) -> (r: String)
    ensures
        r@ == spec_okx_channel(*sub),
{
    match sub.data_type {
        DataType::AggTrade => {
            let mut out = String::from_str("public-trade:");
            let sym = OkxClient::okx_symbol(sub.symbol.as_str());
            out.append(sym.as_str());
            out
        },
        DataType::Kline => {
            let mut out = String::from_str("public-candle");
            out.append(interval_token(&sub.interval));
            out.append(":");
            let sym = OkxClient::okx_symbol(sub.symbol.as_str());
            out.append(sym.as_str());
            out
        },
        DataType::Depth => {
            let mut out = String::from_str("public-books:");
            let sym = OkxClient::okx_symbol(sub.symbol.as_str());
            out.append(sym.as_str());
            out
        },
        DataType::BookTicker => {
            let mut out = String::from_str("public-tickers:");
            let sym = OkxClient::okx_symbol(sub.symbol.as_str());
            out.append(sym.as_str());
            out
        },
    }
}

impl OkxClient {
    /// Duration in milliseconds of an interval token such as those in
    /// channel names; unusable counts fall back to one, and the product
    /// saturates at `i64::MAX`.
    pub fn interval_ms(&self, interval: &str) -> (r: i64)
        ensures
            r == spec_interval_ms(interval@),
    {
        let n = interval.unicode_len();
        proof {
            assert(interval@.take(n as int) =~= interval@);
        }
        let mut e: usize = n;
        while e > 0 && interval.get_char(e - 1) == 'm'
            invariant
                0 <= e <= n,
                n == interval@.len(),
                spec_trim_end(interval@, 'm') == spec_trim_end(interval@.take(e as int), 'm'),
            decreases e,
        {
            proof {
                assert(interval@.take(e as int).drop_last() =~= interval@.take(e - 1));
                assert(interval@.take(e as int).last() == interval@[e - 1]);
            }
            e = e - 1;
        }
        let ghost t1 = spec_trim_end(interval@, 'm');
        proof {
            assert(t1 == interval@.take(e as int));
        }
        let e1 = e;
        let mut e: usize = e1;
        while e > 0 && interval.get_char(e - 1) == 'h'
            invariant
                0 <= e <= e1 <= n,
                n == interval@.len(),
                t1 == interval@.take(e1 as int),
                spec_trim_end(t1, 'h') == spec_trim_end(interval@.take(e as int), 'h'),
            decreases e,
        {
            proof {
                assert(interval@.take(e as int).drop_last() =~= interval@.take(e - 1));
                assert(interval@.take(e as int).last() == interval@[e - 1]);
            }
            e = e - 1;
        }
        let ghost t2 = spec_trim_end(t1, 'h');
        proof {
            assert(t2 == interval@.take(e as int));
        }
        let e2 = e;
        let mut e: usize = e2;
        while e > 0 && interval.get_char(e - 1) == 'd'
            invariant
                0 <= e <= e2 <= n,
                n == interval@.len(),
                t2 == interval@.take(e2 as int),
                spec_trim_end(t2, 'd') == spec_trim_end(interval@.take(e as int), 'd'),
            decreases e,
        {
            proof {
                assert(interval@.take(e as int).drop_last() =~= interval@.take(e - 1));
                assert(interval@.take(e as int).last() == interval@[e - 1]);
            }
            e = e - 1;
        }
        let ghost t3 = spec_trim_end(t2, 'd');
        proof {
            assert(t3 == interval@.take(e as int));
        }
        let e3 = e;
        // The digit count left after the trims; one where unusable.
        let mut num: i64 = 1;
        if e3 > 0 {
            let mut acc: i64 = 0;
            let mut j: usize = 0;
            let mut good = true;
            while j < e3
                invariant
                    0 <= j <= e3 <= n,
                    n == interval@.len(),
                    t3 == interval@.take(e3 as int),
                    good ==> acc == digits_val(interval@.take(j as int)),
                    good ==> forall|l: int| 0 <= l < j ==> is_digit(#[trigger] interval@[l]),
                    0 <= acc,
                    !good ==> spec_interval_count(interval@) == 1,
                    spec_trim_end(spec_trim_end(spec_trim_end(interval@, 'm'), 'h'), 'd') == t3,
                decreases e3 - j,
            {
                if good {
                    let c = interval.get_char(j);
                    if '0' <= c && c <= '9' {
                        let d: u32 = (c as u32) - 48;
                        let ghost prefix = interval@.take(j as int);
                        proof {
                            assert(d == crate::decimal::digit_val(c));
                        }
                        let next = match acc.checked_mul(10) {
                            Some(x) => x.checked_add(d as i64),
                            None => None,
                        };
                        match next {
                            Some(x) => {
                                proof {
                                    assert(interval@.take(j + 1).drop_last() =~= prefix);
                                    assert(interval@.take(j + 1).last() == c);
                                }
                                acc = x;
                            },
                            None => {
                                proof {
                                    if all_digits(t3) {
                                        let over = prefix.push(c);
                                        let rest = interval@.subrange(j + 1, e3 as int);
                                        assert(over.drop_last() =~= prefix);
                                        assert(digits_val(over) > i64::MAX);
                                        assert(t3 =~= over + rest);
                                        assert(all_digits(over)) by {
                                            assert(forall|l: int|
                                                0 <= l < over.len() ==> #[trigger] over[l] == t3[l]);
                                        }
                                        assert(all_digits(rest)) by {
                                            assert(forall|l: int|
                                                0 <= l < rest.len() ==> #[trigger] rest[l] == t3[l
                                                    + over.len()]);
                                        }
                                        lemma_digits_val_extend(over, rest);
                                    }
                                }
                                good = false;
                            },
                        }
                    } else {
                        proof {
                            assert(!is_digit(t3[j as int]));
                        }
                        good = false;
                    }
                }
                j = j + 1;
            }
            if good {
                proof {
                    assert(interval@.take(e3 as int) =~= t3);
                    assert(all_digits(t3));
                    assert(spec_interval_count(interval@) == acc);
                }
                num = acc;
            } else {
                proof {
                    assert(spec_interval_count(interval@) == 1);
                }
                num = 1;
            }
        } else {
            proof {
                assert(t3.len() == 0);
                assert(spec_interval_count(interval@) == 1);
            }
        }
        // The unit base, read off the token's last character.
        let base: i64 = if n > 0 && interval.get_char(n - 1) == 'm' {
            60_000
        } else if n > 0 && interval.get_char(n - 1) == 'h' {
            3_600_000
        } else if n > 0 && interval.get_char(n - 1) == 'd' {
            86_400_000
        } else {
            60_000
        };
        proof {
            assert(base == spec_interval_base(interval@));
            assert(num == spec_interval_count(interval@));
        }
        match num.checked_mul(base) {
            Some(x) => x,
            None => i64::MAX,
        }
    }

    /// The JSON control message that subscribes to `subs`, sent over the
    /// open socket.
    pub fn build_subscription_msg(&self, subs: &Vec<Subscription>) -> (r: String)
        ensures
            r@ == spec_subscribe_msg(subs@),
    {
        let mut out = String::from_str("{\"op\":\"subscribe\",\"args\":[");
        let n = subs.len();
        let mut i: usize = 0;
        while i < n
            invariant
                0 <= i <= n,
                n == subs@.len(),
                out@ == "{\"op\":\"subscribe\",\"args\":["@ + spec_sub_args(subs@.take(i as int)),
            decreases n - i,
        {
            if i > 0 {
                out.append(",");
            }
            out.append("{\"channel\":\"");
            let ch = okx_channel(&subs[i]);
            out.append(ch.as_str());
            out.append("\",\"op\":\"subscribe\"}");
            proof {
                let pre = subs@.take(i as int);
                let post = subs@.take(i + 1);
                assert(post.drop_last() =~= pre);
                assert(post.last() == subs@[i as int]);
                if i == 0 {
                    assert(post =~= seq![subs@[0]]);
                    assert(spec_sub_args(post) == spec_sub_arg(subs@[0]));
                    assert(out@ =~= "{\"op\":\"subscribe\",\"args\":["@ + spec_sub_args(post));
                } else {
                    assert(out@ =~= "{\"op\":\"subscribe\",\"args\":["@ + spec_sub_args(post));
                }
            }
            i = i + 1;
        }
        proof {
            assert(subs@.take(n as int) =~= subs@);
        }
        out.append("]}");
        proof {
            assert(out@ =~= spec_subscribe_msg(subs@));
        }
        out
    }
}

/// The first element of the frame's `data` array.
pub open spec fn spec_data0(v: JsonValue) -> Option<JsonValue> {
    match spec_get(v, "data"@) {
        Some(JsonValue::Arr(a)) => if a@.len() > 0 {
            Some(a@[0])
        } else {
            None
        },
        _ => None,
    }
}

/// The decimal a string denotes, or zero where it denotes none.
pub open spec fn spec_dec_or_zero(s: Seq<char>) -> Decimal {
    match spec_parse_decimal(s) {
        Some(d) => d,
        None => Decimal { mantissa: 0, scale: 0 },
    }
}

/// Positional access: entry `i` of `c`, read as a decimal string.
pub open spec fn spec_arr_str_dec(c: Seq<JsonValue>, i: int) -> Option<Decimal> {
    if 0 <= i < c.len() {
        match c[i] {
            JsonValue::Str(s) => spec_parse_decimal(s@),
            _ => None,
        }
    } else {
        None
    }
}

/// Positional access: entry `i` of `c`, read as an integer string.
pub open spec fn spec_arr_str_i64(c: Seq<JsonValue>, i: int) -> Option<i64> {
    if 0 <= i < c.len() {
        match c[i] {
            JsonValue::Str(s) => spec_parse_i64(s@),
            _ => None,
        }
    } else {
        None
    }
}

/// The channel name's leading segment, up to the first `:`.
pub open spec fn spec_before_colon(s: Seq<char>) -> Seq<char>
    decreases s.len(),
{
    if s.len() == 0 {
        Seq::empty()
    } else if s[0] == ':' {
        Seq::empty()
    } else {
        seq![s[0]] + spec_before_colon(s.skip(1))
    }
}

/// `spec_before_colon` is the prefix up to the first colon.
proof fn lemma_before_colon(s: Seq<char>, k: int)
    requires
        0 <= k <= s.len(),
        forall|i: int| 0 <= i < k ==> s[i] != ':',
        k == s.len() || s[k] == ':',
    ensures
        spec_before_colon(s) == s.take(k),
    decreases k,
{
    if k == 0 {
        assert(s.take(0) =~= Seq::<char>::empty());
    } else {
        let t = s.skip(1);
        assert(forall|i: int| 0 <= i < t.len() ==> t[i] == s[i + 1]);
        lemma_before_colon(t, k - 1);
        assert(s.take(k) =~= seq![s[0]] + t.take(k - 1));
    }
}

/// The interval token encoded in a candle channel name
/// (`public-candle<interval>:<sym>`); one minute where the leading
/// segment is not of that shape.
pub open spec fn spec_channel_interval(ch: Seq<char>) -> Seq<char> {
    let pre = spec_before_colon(ch);
    if spec_starts_with(pre, "public-candle"@) {
        pre.skip("public-candle"@.len() as int)
    } else {
        "1m"@
    }
}

/// Extract the interval token from a candle channel name.
pub fn channel_interval(ch: &str) -> (r: String)
    ensures
        r@ == spec_channel_interval(ch@),
{
    let n = ch.unicode_len();
    let mut k: usize = 0;
    while k < n && ch.get_char(k) != ':'
        invariant
            0 <= k <= n,
            n == ch@.len(),
            forall|i: int| 0 <= i < k ==> ch@[i] != ':',
        decreases n - k,
    {
        k = k + 1;
    }
    proof {
        lemma_before_colon(ch@, k as int);
    }
    let pre = ch.substring_char(0, k);
    proof {
        assert(pre@ =~= ch@.take(k as int));
    }
    if crate::strutil::str_starts_with(pre, "public-candle") {
        proof {
            reveal_strlit("public-candle");
        }
        let itv = pre.substring_char(13, k);
        proof {
            assert(itv@ =~= spec_before_colon(ch@).skip(13));
        }
        itv.to_owned()
    } else {
        String::from_str("1m")
    }
}

/// A well-formed OKX trade frame: first `data` entry with decimal `px`
/// and `sz`, a nonnegative `ts`, and a `side`.
pub open spec fn okx_trade_ok(v: JsonValue) -> bool {
    &&& spec_data0(v) is Some
    &&& {
        let d0 = spec_data0(v)->0;
        &&& spec_dec_field(d0, "px"@) is Some
        &&& spec_dec_field(d0, "sz"@) is Some
        &&& spec_i64_field(d0, "ts"@) is Some
        &&& spec_i64_field(d0, "ts"@)->0 >= 0
        &&& spec_str_field(d0, "side"@) is Some
    }
}

/// `t` is exactly the trade the frame describes: the taker side `sell`
/// marks the buyer as maker, and the timestamp doubles as the trade id.
pub open spec fn is_okx_trade_of(v: JsonValue, inst: Seq<char>, exch: ExchangeType, t: AggTrade) -> bool {
    let d0 = spec_data0(v)->0;
    &&& t.exchange == exch
    &&& t.symbol@ == spec_standard_symbol(inst)
    &&& Some(t.price) == spec_dec_field(d0, "px"@)
    &&& Some(t.quantity) == spec_dec_field(d0, "sz"@)
    &&& Some(t.timestamp) == spec_i64_field(d0, "ts"@)
    &&& t.is_buyer_maker == (spec_str_field(d0, "side"@) == Some("sell"@))
    &&& t.trade_id == t.timestamp as u64
}

/// A well-formed OKX candle frame under channel `ch`: first `data` entry
/// a positional array `[ts, open, high, low, close, vol, ...]` of
/// strings, with the derived close time within `i64`.
pub open spec fn okx_kline_ok(v: JsonValue, ch: Seq<char>) -> bool {
    &&& spec_data0(v) is Some
    &&& spec_data0(v)->0 is Arr
    &&& {
        let c = spec_data0(v)->0->Arr_0@;
        &&& spec_arr_str_i64(c, 0) is Some
        &&& spec_arr_str_dec(c, 1) is Some
        &&& spec_arr_str_dec(c, 2) is Some
        &&& spec_arr_str_dec(c, 3) is Some
        &&& spec_arr_str_dec(c, 4) is Some
        &&& spec_arr_str_dec(c, 5) is Some
        &&& i64::MIN <= spec_arr_str_i64(c, 0)->0 + spec_interval_ms(spec_channel_interval(ch))
            - 1 <= i64::MAX
    }
}

/// `kl` is exactly the candle the frame describes: the close time is
/// derived from the open time and the channel's interval.
pub open spec fn is_okx_kline_of(
    v: JsonValue,
    ch: Seq<char>,
    inst: Seq<char>,
    exch: ExchangeType,
    kl: Kline,
) -> bool {
    let c = spec_data0(v)->0->Arr_0@;
    &&& kl.exchange == exch
    &&& kl.symbol@ == spec_standard_symbol(inst)
    &&& kl.interval@ == spec_channel_interval(ch)
    &&& Some(kl.open_time) == spec_arr_str_i64(c, 0)
    &&& kl.close_time == kl.open_time + spec_interval_ms(spec_channel_interval(ch)) - 1
    &&& Some(kl.open) == spec_arr_str_dec(c, 1)
    &&& Some(kl.high) == spec_arr_str_dec(c, 2)
    &&& Some(kl.low) == spec_arr_str_dec(c, 3)
    &&& Some(kl.close) == spec_arr_str_dec(c, 4)
    &&& Some(kl.volume) == spec_arr_str_dec(c, 5)
    &&& kl.is_closed == (spec_bool_field(v, "confirm"@) == Some(true))
}

/// A well-formed OKX ticker frame: first `data` entry with the four
/// quote strings and a timestamp. A quote string that does not parse is
/// carried as zero, not an error.
pub open spec fn okx_ticker_ok(v: JsonValue) -> bool {
    &&& spec_data0(v) is Some
    &&& {
        let d0 = spec_data0(v)->0;
        &&& spec_str_field(d0, "bidPx"@) is Some
        &&& spec_str_field(d0, "bidSz"@) is Some
        &&& spec_str_field(d0, "askPx"@) is Some
        &&& spec_str_field(d0, "askSz"@) is Some
        &&& spec_i64_field(d0, "ts"@) is Some
    }
}

/// `b` is exactly the ticker the frame describes.
pub open spec fn is_okx_ticker_of(v: JsonValue, inst: Seq<char>, exch: ExchangeType, b: BookTicker) -> bool {
    let d0 = spec_data0(v)->0;
    &&& b.exchange == exch
    &&& b.symbol@ == spec_standard_symbol(inst)
    &&& b.bid_price == spec_dec_or_zero(spec_str_field(d0, "bidPx"@)->0)
    &&& b.bid_qty == spec_dec_or_zero(spec_str_field(d0, "bidSz"@)->0)
    &&& b.ask_price == spec_dec_or_zero(spec_str_field(d0, "askPx"@)->0)
    &&& b.ask_qty == spec_dec_or_zero(spec_str_field(d0, "askSz"@)->0)
    &&& Some(b.timestamp) == spec_i64_field(d0, "ts"@)
}

/// The timestamp of a depth frame: the `ts` member of the `data` object
/// where there is one, else the supplied clock reading.
pub open spec fn spec_okx_depth_ts(v: JsonValue, now_ms: i64) -> i64 {
    match spec_get(v, "data"@) {
        Some(dv) => match spec_i64_field(dv, "ts"@) {
            Some(t) => t,
            None => now_ms,
        },
        None => now_ms,
    }
}

/// `d` is the depth delta the frame stands for: recognized, but with no
/// levels extracted.
pub open spec fn is_okx_depth_of(
    v: JsonValue,
    inst: Seq<char>,
    exch: ExchangeType,
    now_ms: i64,
    d: DepthUpdate,
) -> bool {
    &&& d.exchange == exch
    &&& d.symbol@ == spec_standard_symbol(inst)
    &&& d.bids@.len() == 0
    &&& d.asks@.len() == 0
    &&& d.timestamp == spec_okx_depth_ts(v, now_ms)
}

/// What parsing an OKX frame yields: subscription acknowledgments are
/// discarded; data frames dispatch on the channel name in the `arg`
/// envelope; unknown channels and malformed frames yield nothing.
pub open spec fn okx_frame_parse_ok(
    v: JsonValue,
    exch: ExchangeType,
    now_ms: i64,
    r: Option<MarketEvent>,
) -> bool {
    if spec_str_field(v, "event"@) == Some("subscribe"@) {
        r is None
    } else {
        match spec_get(v, "arg"@) {
            None => r is None,
            Some(arg) => match (spec_str_field(arg, "channel"@), spec_str_field(arg, "instId"@)) {
                (Some(ch), Some(inst)) => if spec_contains(ch, "trade"@) {
                    &&& (r is Some <==> okx_trade_ok(v))
                    &&& match r {
                        Some(MarketEvent::AggTrade(t)) => is_okx_trade_of(v, inst, exch, t),
                        Some(_) => false,
                        None => true,
                    }
                } else if spec_contains(ch, "candle"@) {
                    &&& (r is Some <==> okx_kline_ok(v, ch))
                    &&& match r {
                        Some(MarketEvent::Kline(kl)) => is_okx_kline_of(v, ch, inst, exch, kl),
                        Some(_) => false,
                        None => true,
                    }
                } else if spec_contains(ch, "tickers"@) {
                    &&& (r is Some <==> okx_ticker_ok(v))
                    &&& match r {
                        Some(MarketEvent::BookTicker(b)) => is_okx_ticker_of(v, inst, exch, b),
                        Some(_) => false,
                        None => true,
                    }
                } else if spec_contains(ch, "books"@) {
                    &&& r is Some
                    &&& match r {
                        Some(MarketEvent::DepthUpdate(d)) => is_okx_depth_of(
                            v,
                            inst,
                            exch,
                            now_ms,
                            d,
                        ),
                        Some(_) => false,
                        None => true,
                    }
                } else {
                    r is None
                },
                _ => r is None,
            },
        }
    }
}

/// The first element of the frame's `data` array.
fn data0<'a>(v: &'a JsonValue) -> (r: Option<&'a JsonValue>)
    ensures
        match r {
            Some(w) => spec_data0(*v) == Some(*w),
            None => spec_data0(*v) is None,
        },
{
    match v.get("data") {
        Some(JsonValue::Arr(a)) => {
            if a.len() > 0 {
                Some(&a[0])
            } else {
                None
            }
        },
        _ => None,
    }
}

/// A decimal read from a string, zero where it does not parse.
fn dec_or_zero(s: &str) -> (r: Decimal)
    ensures
        r == spec_dec_or_zero(s@),
{
    match crate::decimal::parse_decimal(s) {
        Some(d) => d,
        None => Decimal { mantissa: 0, scale: 0 },
    }
}

/// Positional access: entry `i` of `c`, read as a decimal string.
fn arr_str_dec(c: &Vec<JsonValue>, i: usize) -> (r: Option<Decimal>)
    ensures
        r == spec_arr_str_dec(c@, i as int),
{
    if i < c.len() {
        match &c[i] {
            JsonValue::Str(s) => crate::decimal::parse_decimal(s.as_str()),
            _ => None,
        }
    } else {
        None
    }
}

/// Positional access: entry `i` of `c`, read as an integer string.
fn arr_str_i64(c: &Vec<JsonValue>, i: usize) -> (r: Option<i64>)
    ensures
        r == spec_arr_str_i64(c@, i as int),
{
    if i < c.len() {
        match &c[i] {
            JsonValue::Str(s) => crate::decimal::parse_i64(s.as_str()),
            _ => None,
        }
    } else {
        None
    }
}

impl OkxClient {
    /// Parse a trade frame.
    pub fn parse_trade(&self, v: &JsonValue, inst: &str) -> (r: Option<MarketEvent>)
        ensures
            r is Some <==> okx_trade_ok(*v),
            match r {
                Some(MarketEvent::AggTrade(t)) => is_okx_trade_of(
                    *v,
                    inst@,
                    self.exchange_type,
                    t,
                ),
                Some(_) => false,
                None => true,
            },
    {
        let d0 = match data0(v) {
            Some(w) => w,
            None => {
                return None;
            },
        };
        let price = match dec_field(d0, "px") {
            Some(d) => d,
            None => {
                return None;
            },
        };
        let quantity = match dec_field(d0, "sz") {
            Some(d) => d,
            None => {
                return None;
            },
        };
        let timestamp = match i64_field(d0, "ts") {
            Some(t) => t,
            None => {
                return None;
            },
        };
        if timestamp < 0 {
            return None;
        }
        let side = match str_field(d0, "side") {
            Some(s) => s,
            None => {
                return None;
            },
        };
        let is_buyer_maker = str_eq(side.as_str(), "sell");
        let symbol = Self::standard_symbol(inst);
        Some(
            MarketEvent::AggTrade(
                AggTrade {
                    exchange: self.exchange_type,
                    symbol,
                    price,
                    quantity,
                    timestamp,
                    is_buyer_maker,
                    trade_id: timestamp as u64,
                },
            ),
        )
    }

    /// Parse a candle frame from channel `ch`: the close time is derived
    /// from the open time and the channel's interval.
    pub fn parse_kline(&self, v: &JsonValue, inst: &str, ch: &str) -> (r: Option<MarketEvent>)
        ensures
            r is Some <==> okx_kline_ok(*v, ch@),
            match r {
                Some(MarketEvent::Kline(kl)) => is_okx_kline_of(
                    *v,
                    ch@,
                    inst@,
                    self.exchange_type,
                    kl,
                ),
                Some(_) => false,
                None => true,
            },
    {
        let d0 = match data0(v) {
            Some(w) => w,
            None => {
                return None;
            },
        };
        let c = match d0 {
            JsonValue::Arr(c) => c,
            _ => {
                return None;
            },
        };
        let open_time = match arr_str_i64(c, 0) {
            Some(t) => t,
            None => {
                return None;
            },
        };
        let open = match arr_str_dec(c, 1) {
            Some(d) => d,
            None => {
                return None;
            },
        };
        let high = match arr_str_dec(c, 2) {
            Some(d) => d,
            None => {
                return None;
            },
        };
        let low = match arr_str_dec(c, 3) {
            Some(d) => d,
            None => {
                return None;
            },
        };
        let close = match arr_str_dec(c, 4) {
            Some(d) => d,
            None => {
                return None;
            },
        };
        let volume = match arr_str_dec(c, 5) {
            Some(d) => d,
            None => {
                return None;
            },
        };
        let interval = channel_interval(ch);
        let dur = self.interval_ms(interval.as_str());
        let close_time = match open_time.checked_add(dur - 1) {
            Some(t) => t,
            None => {
                return None;
            },
        };
        let is_closed = match bool_field(v, "confirm") {
            Some(b) => b,
            None => false,
        };
        let symbol = Self::standard_symbol(inst);
        Some(
            MarketEvent::Kline(
                Kline {
                    exchange: self.exchange_type,
                    symbol,
                    interval,
                    open_time,
                    close_time,
                    open,
                    high,
                    low,
                    close,
                    volume,
                    is_closed,
                },
            ),
        )
    }

    /// Parse a ticker frame; quote strings that do not parse are carried
    /// as zero.
    pub fn parse_ticker(&self, v: &JsonValue, inst: &str) -> (r: Option<MarketEvent>)
        ensures
            r is Some <==> okx_ticker_ok(*v),
            match r {
                Some(MarketEvent::BookTicker(b)) => is_okx_ticker_of(
                    *v,
                    inst@,
                    self.exchange_type,
                    b,
                ),
                Some(_) => false,
                None => true,
            },
    {
        let d0 = match data0(v) {
            Some(w) => w,
            None => {
                return None;
            },
        };
        let bid_price = match str_field(d0, "bidPx") {
            Some(s) => dec_or_zero(s.as_str()),
            None => {
                return None;
            },
        };
        let bid_qty = match str_field(d0, "bidSz") {
            Some(s) => dec_or_zero(s.as_str()),
            None => {
                return None;
            },
        };
        let ask_price = match str_field(d0, "askPx") {
            Some(s) => dec_or_zero(s.as_str()),
            None => {
                return None;
            },
        };
        let ask_qty = match str_field(d0, "askSz") {
            Some(s) => dec_or_zero(s.as_str()),
            None => {
                return None;
            },
        };
        let timestamp = match i64_field(d0, "ts") {
            Some(t) => t,
            None => {
                return None;
            },
        };
        let symbol = Self::standard_symbol(inst);
        Some(
            MarketEvent::BookTicker(
                BookTicker {
                    exchange: self.exchange_type,
                    symbol,
                    bid_price,
                    bid_qty,
                    ask_price,
                    ask_qty,
                    timestamp,
                },
            ),
        )
    }

    /// Parse one already-decoded frame: acknowledgments are discarded,
    /// data frames dispatch on the channel named in the `arg` envelope.
    pub fn parse_frame(&self, v: &JsonValue, now_ms: i64) -> (r: Option<MarketEvent>)
        ensures
            okx_frame_parse_ok(*v, self.exchange_type, now_ms, r),
    {
        match str_field(v, "event") {
            Some(ev) => {
                if str_eq(ev.as_str(), "subscribe") {
                    return None;
                }
            },
            None => {},
        }
        let arg = match v.get("arg") {
            Some(a) => a,
            None => {
                return None;
            },
        };
        let channel = match str_field(arg, "channel") {
            Some(c) => c,
            None => {
                return None;
            },
        };
        let inst = match str_field(arg, "instId") {
            Some(s) => s,
            None => {
                return None;
            },
        };
        if crate::strutil::str_contains(channel.as_str(), "trade") {
            self.parse_trade(v, inst.as_str())
        } else if crate::strutil::str_contains(channel.as_str(), "candle") {
            self.parse_kline(v, inst.as_str(), channel.as_str())
        } else if crate::strutil::str_contains(channel.as_str(), "tickers") {
            self.parse_ticker(v, inst.as_str())
        } else if crate::strutil::str_contains(channel.as_str(), "books") {
            let timestamp = match v.get("data") {
                Some(dv) => match i64_field(dv, "ts") {
                    Some(t) => t,
                    None => now_ms,
                },
                None => now_ms,
            };
            let symbol = Self::standard_symbol(inst.as_str());
            Some(
                MarketEvent::DepthUpdate(
                    DepthUpdate {
                        exchange: self.exchange_type,
                        symbol,
                        bids: Vec::new(),
                        asks: Vec::new(),
                        timestamp,
                    },
                ),
            )
        } else {
            None
        }
    }

    /// Parse one raw frame text: decode it as JSON, then dispatch. A text
    /// that is no JSON document is a soft failure.
    pub fn parse_message(&self, msg: &str, now_ms: i64) -> (r: Option<MarketEvent>)
        ensures
            match spec_json_parse(msg@) {
                None => r is None,
                Some(v) => okx_frame_parse_ok(v, self.exchange_type, now_ms, r),
            },
    {
        match json_parse(msg) {
            Some(v) => self.parse_frame(&v, now_ms),
            None => None,
        }
    }
}

} // verus!
