use flash_gateway::BinanceClient;
use flash_gateway::DataType;
use flash_gateway::Decimal;
use flash_gateway::ExchangeType;
use flash_gateway::GatewayError;
use flash_gateway::KlineInterval;
use flash_gateway::MarketEvent;
use flash_gateway::OkxClient;
use flash_gateway::RecvStep;
use flash_gateway::RedisConfig;
use flash_gateway::Subscription;
use flash_gateway::WsFrame;
use flash_gateway::create_subscriptions;
use flash_gateway::event_channel;
use flash_gateway::parse_decimal;
use flash_gateway::parse_i64;
use flash_gateway::should_reconnect;

fn dec(mantissa: i64, scale: usize) -> Decimal {
    Decimal::from_parts(mantissa, scale)
}

#[test]
fn test_parse_agg_trade() {
    let client = BinanceClient::new(false);
    let json = r#"{"e":"aggTrade","E":123456789,"s":"BTCUSDT","a":12345,"p":"50000.5","q":"0.001","f":100,"l":200,"T":123456788,"m":true}"#;

    let result = client.parse_message(json, 0);
    assert!(result.is_some());

    if let Some(MarketEvent::AggTrade(trade)) = result {
        assert_eq!(trade.symbol, "BTCUSDT");
        assert_eq!(trade.price, dec(500005, 1));
        assert_eq!(trade.quantity, dec(1, 3));
        assert!(trade.is_buyer_maker);
        assert_eq!(trade.trade_id, 12345);
        assert_eq!(trade.timestamp, 123456788);
        assert_eq!(trade.exchange, ExchangeType::Binance);
    } else {
        panic!("Expected AggTrade event");
    }
}

#[test]
fn test_parse_book_ticker() {
    let client = BinanceClient::new(false);
    let json = r#"{"e":"bookTicker","u":400900217,"s":"BTCUSDT","b":"25.35190000","B":"31.21000000","a":"25.36520000","A":"40.66000000","T":1234567891,"E":1234567892}"#;

    let result = client.parse_message(json, 0);
    assert!(result.is_some());

    if let Some(MarketEvent::BookTicker(ticker)) = result {
        assert_eq!(ticker.symbol, "BTCUSDT");
        assert_eq!(ticker.bid_price, dec(253519, 4));
        assert_eq!(ticker.ask_price, dec(253652, 4));
        assert_eq!(ticker.bid_qty, dec(3121, 2));
        assert_eq!(ticker.ask_qty, dec(4066, 2));
        assert_eq!(ticker.timestamp, 1234567892);
    } else {
        panic!("Expected BookTicker event");
    }
}

#[test]
fn test_okx_symbol_conversion() {
    assert_eq!(OkxClient::okx_symbol("BTCUSDT"), "BTC-USDT");
    assert_eq!(OkxClient::okx_symbol("ETHUSDT"), "ETH-USDT");
    assert_eq!(OkxClient::standard_symbol("BTC-USDT"), "BTCUSDT");
}

#[test]
fn test_symbol_round_trip() {
    assert_eq!(
        OkxClient::standard_symbol(OkxClient::okx_symbol("BTCUSDT").as_str()),
        "BTCUSDT"
    );
    assert_eq!(OkxClient::okx_symbol("BTCUSD"), "BTC-USD");
    assert_eq!(
        OkxClient::standard_symbol(OkxClient::okx_symbol("ETHUSD").as_str()),
        "ETHUSD"
    );
    // A non-suffix occurrence is still substituted textually: the mapping
    // is not a semantic currency-pair parser.
    assert_eq!(OkxClient::okx_symbol("BTCUSDC"), "BTC-USDC");
}

#[test]
fn test_parse_decimal_exact() {
    assert_eq!(parse_decimal("25.35190000"), Some(dec(253519, 4)));
    assert_eq!(parse_decimal("50000.5"), Some(dec(500005, 1)));
    assert_eq!(parse_decimal("100"), Some(dec(100, 0)));
    assert_eq!(parse_decimal("0.00"), Some(dec(0, 0)));
    assert_eq!(parse_decimal("-1.5"), Some(dec(-15, 1)));
}

#[test]
fn test_parse_decimal_rejects() {
    assert_eq!(parse_decimal(""), None);
    assert_eq!(parse_decimal("-"), None);
    assert_eq!(parse_decimal("1."), None);
    assert_eq!(parse_decimal(".5"), None);
    assert_eq!(parse_decimal("1.2.3"), None);
    assert_eq!(parse_decimal("abc"), None);
    // twenty digits exceed the i64 mantissa
    assert_eq!(parse_decimal("99999999999999999999"), None);
}

#[test]
fn test_parse_i64() {
    assert_eq!(parse_i64("1700000000000"), Some(1700000000000));
    assert_eq!(parse_i64("-42"), Some(-42));
    assert_eq!(parse_i64("0"), Some(0));
    assert_eq!(parse_i64(""), None);
    assert_eq!(parse_i64("12.5"), None);
    assert_eq!(parse_i64("99999999999999999999"), None);
}

#[test]
fn test_kline_close_time_derivation() {
    let client = OkxClient::new(false);
    let json = r#"{"arg":{"channel":"public-candle1m:BTC-USDT","instId":"BTC-USDT"},"data":[["1700000000000","100","110","90","105","12.5"]]}"#;

    let result = client.parse_message(json, 0);
    if let Some(MarketEvent::Kline(kline)) = result {
        assert_eq!(kline.symbol, "BTCUSDT");
        assert_eq!(kline.interval, "1m");
        assert_eq!(kline.open_time, 1700000000000);
        assert_eq!(kline.close_time, 1700000059999);
        assert_eq!(kline.open, dec(100, 0));
        assert_eq!(kline.high, dec(110, 0));
        assert_eq!(kline.low, dec(90, 0));
        assert_eq!(kline.close, dec(105, 0));
        assert_eq!(kline.volume, dec(125, 1));
        assert!(!kline.is_closed);
    } else {
        panic!("Expected Kline event");
    }
}

#[test]
fn test_interval_ms() {
    let client = OkxClient::new(false);
    assert_eq!(client.interval_ms("1m"), 60_000);
    assert_eq!(client.interval_ms("5m"), 300_000);
    assert_eq!(client.interval_ms("15m"), 900_000);
    assert_eq!(client.interval_ms("30m"), 1_800_000);
    assert_eq!(client.interval_ms("1h"), 3_600_000);
    assert_eq!(client.interval_ms("4h"), 14_400_000);
    assert_eq!(client.interval_ms("1d"), 86_400_000);
}

#[test]
fn test_okx_parse_trade() {
    let client = OkxClient::new(false);
    let json = r#"{"arg":{"channel":"public-trade:BTC-USDT","instId":"BTC-USDT"},"data":[{"px":"42000.1","sz":"0.25","ts":1700000001234,"side":"sell"}]}"#;

    if let Some(MarketEvent::AggTrade(trade)) = client.parse_message(json, 0) {
        assert_eq!(trade.symbol, "BTCUSDT");
        assert_eq!(trade.price, dec(420001, 1));
        assert_eq!(trade.quantity, dec(25, 2));
        assert_eq!(trade.timestamp, 1700000001234);
        assert!(trade.is_buyer_maker);
        assert_eq!(trade.trade_id, 1700000001234);
        assert_eq!(trade.exchange, ExchangeType::Okx);
    } else {
        panic!("Expected AggTrade event");
    }
}

#[test]
fn test_okx_parse_ticker() {
    let client = OkxClient::new(false);
    let json = r#"{"arg":{"channel":"public-tickers:ETH-USDT","instId":"ETH-USDT"},"data":[{"bidPx":"2500.05","bidSz":"3","askPx":"2500.15","askSz":"7","ts":1700000002000}]}"#;

    if let Some(MarketEvent::BookTicker(ticker)) = client.parse_message(json, 0) {
        assert_eq!(ticker.symbol, "ETHUSDT");
        assert_eq!(ticker.bid_price, dec(250005, 2));
        assert_eq!(ticker.ask_price, dec(250015, 2));
        assert_eq!(ticker.bid_qty, dec(3, 0));
        assert_eq!(ticker.ask_qty, dec(7, 0));
        assert_eq!(ticker.timestamp, 1700000002000);
    } else {
        panic!("Expected BookTicker event");
    }
}

#[test]
fn test_okx_depth_recognized_without_levels() {
    let client = OkxClient::new(false);
    let json = r#"{"arg":{"channel":"public-books:BTC-USDT","instId":"BTC-USDT"},"data":[{"ts":"1700000003000"}]}"#;

    if let Some(MarketEvent::DepthUpdate(depth)) = client.parse_message(json, 77) {
        assert_eq!(depth.symbol, "BTCUSDT");
        assert!(depth.bids.is_empty());
        assert!(depth.asks.is_empty());
        // the data member is an array, so no `ts` is readable from it and
        // the supplied clock reading stands in
        assert_eq!(depth.timestamp, 77);
    } else {
        panic!("Expected DepthUpdate event");
    }
}

#[test]
fn test_okx_subscription_ack_discarded() {
    let client = OkxClient::new(false);
    let json = r#"{"event":"subscribe","arg":{"channel":"public-trade:BTC-USDT","instId":"BTC-USDT"}}"#;
    assert!(client.parse_message(json, 0).is_none());
}

#[test]
fn test_okx_unknown_channel() {
    let client = OkxClient::new(false);
    let json = r#"{"arg":{"channel":"private-orders:BTC-USDT","instId":"BTC-USDT"},"data":[{}]}"#;
    assert!(client.parse_message(json, 0).is_none());
}

#[test]
fn test_binance_parse_depth_update() {
    let client = BinanceClient::new(false);
    let json = r#"{"e":"depthUpdate","E":1700000004000,"s":"BTCUSDT","b":[["42000.1","1.5"],["41999.9","2"]],"a":[["42000.3","0.7"]]}"#;

    if let Some(MarketEvent::DepthUpdate(depth)) = client.parse_message(json, 0) {
        assert_eq!(depth.symbol, "BTCUSDT");
        assert_eq!(depth.timestamp, 1700000004000);
        assert_eq!(depth.bids, vec![(dec(420001, 1), dec(15, 1)), (dec(419999, 1), dec(2, 0))]);
        assert_eq!(depth.asks, vec![(dec(420003, 1), dec(7, 1))]);
    } else {
        panic!("Expected DepthUpdate event");
    }
}

#[test]
fn test_binance_parse_kline() {
    let client = BinanceClient::new(false);
    let json = r#"{"e":"kline","E":1700000005000,"s":"BTCUSDT","k":{"i":"5m","t":1700000000000,"T":1700000299999,"o":"100","h":"110","l":"90","c":"105","v":"33.5","x":true}}"#;

    if let Some(MarketEvent::Kline(kline)) = client.parse_message(json, 0) {
        assert_eq!(kline.symbol, "BTCUSDT");
        assert_eq!(kline.interval, "5m");
        assert_eq!(kline.open_time, 1700000000000);
        assert_eq!(kline.close_time, 1700000299999);
        assert_eq!(kline.close, dec(105, 0));
        assert!(kline.is_closed);
    } else {
        panic!("Expected Kline event");
    }
}

#[test]
fn test_channel_routing() {
    let client = BinanceClient::new(false);
    let trade = client
        .parse_message(
            r#"{"e":"aggTrade","s":"BTCUSDT","a":1,"p":"1","q":"1","m":false,"T":1}"#,
            0,
        )
        .expect("trade");
    assert_eq!(event_channel(&trade), "flash_arb:tick");
    assert_eq!(trade.event_type(), DataType::AggTrade);

    let kline = client
        .parse_message(
            r#"{"e":"kline","s":"BTCUSDT","k":{"i":"1m","t":1,"T":2,"o":"1","h":"1","l":"1","c":"1","v":"1","x":false}}"#,
            0,
        )
        .expect("kline");
    assert_eq!(event_channel(&kline), "flash_arb:kline");

    let depth = client
        .parse_message(r#"{"e":"depthUpdate","E":1,"s":"BTCUSDT","b":[],"a":[]}"#, 0)
        .expect("depth");
    assert_eq!(event_channel(&depth), "flash_arb:depth");

    let ticker = client
        .parse_message(
            r#"{"e":"bookTicker","s":"BTCUSDT","b":"1","B":"1","a":"1","A":"1","E":5}"#,
            0,
        )
        .expect("ticker");
    assert_eq!(event_channel(&ticker), "flash_arb:ticker");
    assert_eq!(ticker.symbol(), "BTCUSDT");
    assert_eq!(ticker.exchange(), ExchangeType::Binance);
}

#[test]
fn test_reconnect_liveness() {
    let mut client = BinanceClient::new(false);
    assert!(!client.is_connected());
    // the reconnect tick fires exactly for disconnected adapters
    assert!(should_reconnect(client.is_connected()));

    // a successful transport connect, then resubscription with the full set
    client.apply_connect(true);
    assert!(client.is_connected());
    let subs = create_subscriptions(&vec!["BTCUSDT".to_string(), "ETHUSDT".to_string()]);
    client.on_subscribed(&subs);
    assert!(client.is_connected());
    assert_eq!(client.symbols, vec!["BTCUSDT".to_string(), "ETHUSDT".to_string()]);
    assert!(!should_reconnect(client.is_connected()));
}

#[test]
fn test_malformed_frame_is_soft_failure() {
    let mut client = BinanceClient::new(false);
    client.apply_connect(true);

    // not a JSON document
    match client.recv_step(WsFrame::Text("{not json".to_string()), 0) {
        RecvStep::Skip => {}
        _ => panic!("Expected Skip"),
    }
    assert!(client.is_connected());

    // unknown event type
    match client.recv_step(WsFrame::Text(r#"{"e":"unknown"}"#.to_string()), 0) {
        RecvStep::Skip => {}
        _ => panic!("Expected Skip"),
    }
    assert!(client.is_connected());

    // missing required field (no price)
    match client.recv_step(
        WsFrame::Text(r#"{"e":"aggTrade","s":"BTCUSDT","a":1,"q":"1","m":false,"T":1}"#.to_string()),
        0,
    ) {
        RecvStep::Skip => {}
        _ => panic!("Expected Skip"),
    }
    assert!(client.is_connected());
}

#[test]
fn test_transport_fault_disconnects() {
    let mut client = OkxClient::new(false);
    client.apply_connect(true);
    match client.recv_step(WsFrame::Fault("socket reset".to_string()), 0) {
        RecvStep::Fault(GatewayError::Transport(m)) => assert_eq!(m, "socket reset"),
        _ => panic!("Expected transport fault"),
    }
    assert!(!client.is_connected());

    client.apply_connect(true);
    match client.recv_step(WsFrame::Close, 0) {
        RecvStep::Ended => {}
        _ => panic!("Expected Ended"),
    }
    assert!(!client.is_connected());

    client.apply_connect(true);
    match client.recv_step(WsFrame::Ping(vec![1, 2, 3]), 0) {
        RecvStep::SendPong(p) => assert_eq!(p, vec![1, 2, 3]),
        _ => panic!("Expected SendPong"),
    }
    assert!(client.is_connected());
}

#[test]
fn test_build_stream_url() {
    let client = BinanceClient::new(false);
    let subs = vec![
        Subscription {
            symbol: "BTCUSDT".to_string(),
            data_type: DataType::AggTrade,
            interval: None,
        },
        Subscription {
            symbol: "BTCUSDT".to_string(),
            data_type: DataType::Kline,
            interval: Some(KlineInterval::FiveMinutes),
        },
        Subscription {
            symbol: "ETHUSDT".to_string(),
            data_type: DataType::Depth,
            interval: None,
        },
        Subscription {
            symbol: "ETHUSDT".to_string(),
            data_type: DataType::BookTicker,
            interval: None,
        },
    ];
    assert_eq!(
        client.build_stream_url(&subs),
        "wss://fstream.binance.com/ws/btcusdt@aggTrade/btcusdt@kline_5m/ethusdt@depth@100ms/ethusdt@bookTicker"
    );
    let none: Vec<Subscription> = Vec::new();
    assert_eq!(client.build_stream_url(&none), "wss://fstream.binance.com/ws/");
}

#[test]
fn test_build_subscription_msg() {
    let client = OkxClient::new(false);
    let subs = vec![
        Subscription {
            symbol: "BTCUSDT".to_string(),
            data_type: DataType::AggTrade,
            interval: None,
        },
        Subscription {
            symbol: "BTCUSDT".to_string(),
            data_type: DataType::Kline,
            interval: Some(KlineInterval::OneMinute),
        },
    ];
    assert_eq!(
        client.build_subscription_msg(&subs),
        r#"{"op":"subscribe","args":[{"channel":"public-trade:BTC-USDT","op":"subscribe"},{"channel":"public-candle1m:BTC-USDT","op":"subscribe"}]}"#
    );
}

#[test]
fn test_create_subscriptions_shape() {
    let subs = create_subscriptions(&vec!["BTCUSDT".to_string(), "ETHUSDT".to_string()]);
    assert_eq!(subs.len(), 20);
    assert_eq!(subs[0].symbol, "BTCUSDT");
    assert_eq!(subs[0].data_type, DataType::AggTrade);
    assert_eq!(subs[0].interval, None);
    assert_eq!(subs[1].data_type, DataType::Kline);
    assert_eq!(subs[1].interval, Some(KlineInterval::OneMinute));
    assert_eq!(subs[6].data_type, DataType::Kline);
    assert_eq!(subs[6].interval, Some(KlineInterval::FourHours));
    assert_eq!(subs[7].data_type, DataType::Kline);
    assert_eq!(subs[7].interval, Some(KlineInterval::OneDay));
    assert_eq!(subs[8].data_type, DataType::BookTicker);
    assert_eq!(subs[9].data_type, DataType::Depth);
    assert_eq!(subs[10].symbol, "ETHUSDT");
    assert_eq!(subs[19].data_type, DataType::Depth);
}

#[test]
fn test_endpoints_and_config() {
    let b = BinanceClient::new(false);
    assert_eq!(b.ws_endpoint(), "wss://fstream.binance.com/ws");
    assert_eq!(b.exchange_type(), ExchangeType::Binance);
    let bt = BinanceClient::new(true);
    assert_eq!(bt.ws_endpoint(), "wss://stream.binancefuture.com/ws");

    let o = OkxClient::new(false);
    assert_eq!(o.ws_endpoint(), "wss://ws.okx.com:8443/ws/v5/public");
    assert_eq!(o.exchange_type(), ExchangeType::Okx);
    let od = OkxClient::new(true);
    assert_eq!(od.ws_endpoint(), "wss://wspap.okx.com:8443/ws/v5/public");

    assert_eq!(RedisConfig::default().url, "redis://127.0.0.1:6379");
    assert_eq!(ExchangeType::Binance.as_str(), "binance");
    assert_eq!(ExchangeType::Okx.as_str(), "okx");
    assert_eq!(DataType::AggTrade.as_str(), "aggTrade");
    assert_eq!(KlineInterval::OneDay.as_str(), "1d");
    assert_eq!(KlineInterval::OneDay.duration_ms(), 86_400_000);
}
