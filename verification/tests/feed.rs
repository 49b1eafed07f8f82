use perptrix::decimal::{Decimal, DecimalError};
use perptrix::services::hyperliquid::connection::{
    backoff_base_ms, backoff_delay_ms, heartbeat_expired, ConnectionAction, ConnectionEvent,
    ConnectionState, ConnectionSupervisor, OutboundQueue, MAX_BACKOFF_MS, OUTBOUND_DEPTH,
};
use perptrix::services::hyperliquid::messages::{
    assemble_subscribe_frame, frame_from_literals, subscribe_frame, CandleUpdate, FrameError, InboundFrame, MidPrice,
};
use perptrix::services::hyperliquid::provider::{HyperliquidMarketDataProvider, MessageOutcome};
use perptrix::services::hyperliquid::subscriptions::{SubscriptionKey, SubscriptionManager};

fn update(coin: &str, interval: &str, end_ms: u64, close: &str) -> CandleUpdate {
    CandleUpdate {
        start_time: end_ms - 60_000,
        end_time: end_ms,
        coin: coin.to_string(),
        interval: interval.to_string(),
        open: "100.0".to_string(),
        high: "102.5".to_string(),
        low: "99.5".to_string(),
        close: close.to_string(),
        volume: "12.25".to_string(),
    }
}

#[test]
fn subscribe_frame_is_the_wire_format() {
    let key = SubscriptionKey::candle("BTC", "1m");
    assert_eq!(
        subscribe_frame(&key).unwrap(),
        "{\"method\":\"subscribe\",\"subscription\":{\"type\":\"candle\",\"coin\":\"BTC\",\"interval\":\"1m\"}}"
    );
    let odd = SubscriptionKey::candle("A\"B\\", "1\n");
    let frame = subscribe_frame(&odd).unwrap();
    let value: serde_json::Value = serde_json::from_str(&frame).unwrap();
    assert_eq!(value["subscription"]["coin"], "A\"B\\");
    assert_eq!(value["subscription"]["interval"], "1\n");
    assert_eq!(value["method"], "subscribe");
    assert_eq!(assemble_subscribe_frame("1", "2", "3"), "{\"method\":\"subscribe\",\"subscription\":{\"type\":1,\"coin\":2,\"interval\":3}}");
}

#[test]
fn frame_needs_all_three_literals() {
    let lit = |s: &str| Some(s.to_string());
    assert_eq!(
        frame_from_literals(lit("\"candle\""), lit("\"ETH\""), lit("\"5m\"")),
        Some(
            "{\"method\":\"subscribe\",\"subscription\":{\"type\":\"candle\",\"coin\":\"ETH\",\"interval\":\"5m\"}}"
                .to_string()
        )
    );
    assert_eq!(frame_from_literals(None, lit("\"ETH\""), lit("\"5m\"")), None);
    assert_eq!(frame_from_literals(lit("\"candle\""), None, lit("\"5m\"")), None);
    assert_eq!(frame_from_literals(lit("\"candle\""), lit("\"ETH\""), None), None);
}

#[test]
fn subscription_set_holds_each_key_once() {
    let mut set = SubscriptionManager::new();
    assert!(set.add(SubscriptionKey::candle("BTC", "1m")));
    assert!(!set.add(SubscriptionKey::candle("BTC", "1m")));
    assert!(set.add(SubscriptionKey::candle("BTC", "5m")));
    assert!(set.add(SubscriptionKey::candle("ETH", "1m")));
    assert_eq!(set.len(), 3);
    assert!(set.contains(&SubscriptionKey::candle("ETH", "1m")));
    assert!(!set.contains(&SubscriptionKey::candle("ETH", "5m")));
    let other_channel = SubscriptionKey { channel: "allMids".to_string(), coin: "BTC".to_string(), interval: "1m".to_string() };
    assert!(!set.contains(&other_channel));
    assert_eq!(
        set.keys(),
        vec![
            SubscriptionKey::candle("BTC", "1m"),
            SubscriptionKey::candle("BTC", "5m"),
            SubscriptionKey::candle("ETH", "1m"),
        ]
    );
}

#[test]
fn disconnect_recovery() {
    let mut provider = HyperliquidMarketDataProvider::with_intervals(vec!["1m".to_string()]);
    let mut supervisor = ConnectionSupervisor::new();
    // Subscribe while the socket is closed: queued, nothing to send.
    assert!(!supervisor.is_connected());
    let now = provider.subscribe("BTC", supervisor.is_connected());
    assert!(now.is_empty());
    assert!(provider.is_subscribed(&SubscriptionKey::candle("BTC", "1m")));
    // Open the socket.
    let (s, action) = supervisor.step(ConnectionEvent::Connect, 1_000, 0);
    assert_eq!(action, ConnectionAction::OpenSocket);
    let (s, action) = s.step(ConnectionEvent::HandshakeOk, 1_100, 0);
    assert_eq!(action, ConnectionAction::ReplaySubscriptions);
    supervisor = s;
    assert!(supervisor.is_connected());
    let batch = provider.on_connected();
    assert_eq!(batch, vec![SubscriptionKey::candle("BTC", "1m")]);
    let frames: Vec<String> = batch.iter().map(|k| subscribe_frame(k).unwrap()).collect();
    assert_eq!(frames.len(), 1);
    // A candle frame arrives and is what the first read returns.
    let frame = InboundFrame::Candle(update("BTC", "1m", 1_700_000_060_000, "101.5"));
    let outcome = provider.process_message(&frame, 0);
    let candles = provider.get_candles("BTC", 250).unwrap();
    assert_eq!(candles.len(), 1);
    assert_eq!(outcome, MessageOutcome::CandleStored(candles[0]));
    assert_eq!(candles[0].close, Decimal::parse("101.5").unwrap());
    assert_eq!(candles[0].open, Decimal::parse("100").unwrap());
    assert_eq!(candles[0].high, Decimal::parse("102.5").unwrap());
    assert_eq!(candles[0].low, Decimal::parse("99.5").unwrap());
    assert_eq!(candles[0].volume, Decimal::parse("12.25").unwrap());
    assert_eq!(candles[0].timestamp, 1_700_000_060);
    assert_eq!(provider.get_latest_price("BTC"), Some(Decimal::parse("101.5").unwrap()));
    // Subscribing again while connected sends nothing: the key is known.
    assert!(provider.subscribe("BTC", true).is_empty());
    // A new symbol while connected is sent at once.
    assert_eq!(provider.subscribe("ETH", true), vec![SubscriptionKey::candle("ETH", "1m")]);
    // After a drop both keys are replayed.
    let (s, action) = supervisor.step(ConnectionEvent::Close, 2_000, 0);
    assert_eq!(action, ConnectionAction::Reconnect);
    assert_eq!(s.state, ConnectionState::Disconnected);
    assert_eq!(provider.on_connected().len(), 2);
}

#[test]
fn duplicate_candle_frames_leave_one_record() {
    let mut provider = HyperliquidMarketDataProvider::new();
    provider.process_message(&InboundFrame::Candle(update("BTC", "1m", 1_700_000_060_000, "100")), 0);
    provider.process_message(&InboundFrame::Candle(update("BTC", "1m", 1_700_000_060_000, "101")), 0);
    provider.process_message(&InboundFrame::Candle(update("BTC", "5m", 1_700_000_060_000, "55")), 0);
    let candles = provider.get_candles("BTC", 10).unwrap();
    assert_eq!(candles.len(), 1);
    assert_eq!(candles[0].close, Decimal::from_int(101));
    assert_eq!(candles[0].timestamp, 1_700_000_060);
    assert_eq!(provider.get_latest_price("BTC"), Some(Decimal::from_int(55)));
    assert!(provider.get_candles("ETH", 10).is_none());
}

#[test]
fn frames_with_fields_that_are_no_numbers_are_skipped() {
    let mut provider = HyperliquidMarketDataProvider::new();
    let mut bad = update("BTC", "1m", 60_000, "100");
    bad.high = "abc".to_string();
    assert_eq!(
        provider.process_message(&InboundFrame::Candle(bad.clone()), 0),
        MessageOutcome::CandleSkipped(FrameError::InvalidHigh(DecimalError::Malformed))
    );
    assert!(provider.get_candles("BTC", 10).is_none());
    assert_eq!(provider.get_latest_price("BTC"), None);
    bad.open = "".to_string();
    assert_eq!(bad.to_candle(0), Err(FrameError::InvalidOpen(DecimalError::Malformed)));
    let mut low = update("BTC", "1m", 60_000, "100");
    low.low = "1e3".to_string();
    assert_eq!(low.to_candle(0), Err(FrameError::InvalidLow(DecimalError::Malformed)));
    let mut close = update("BTC", "1m", 60_000, "999999999999999");
    assert_eq!(close.to_candle(0), Err(FrameError::InvalidClose(DecimalError::OutOfRange)));
    close.close = "1".to_string();
    close.volume = "-".to_string();
    assert_eq!(close.to_candle(0), Err(FrameError::InvalidVolume(DecimalError::Malformed)));
}

#[test]
fn candle_timestamp_falls_back_to_now_beyond_the_calendar() {
    let far = update("BTC", "1m", u64::MAX, "1");
    assert_eq!(far.to_candle(1_700_000_000).unwrap().timestamp, 1_700_000_000);
    let near = update("BTC", "1m", 1_700_000_060_999, "1");
    assert_eq!(near.to_candle(5).unwrap().timestamp, 1_700_000_060);
    assert_eq!(near.to_candle_at(77).unwrap().timestamp, 77);
    assert_eq!(near.end_seconds(), 1_700_000_060);
}

#[test]
fn mids_update_prices() {
    let mut provider = HyperliquidMarketDataProvider::new();
    let mids = vec![
        MidPrice { coin: "BTC".to_string(), px: "45000.5".to_string() },
        MidPrice { coin: "ETH".to_string(), px: "oops".to_string() },
        MidPrice { coin: "BTC".to_string(), px: "45001".to_string() },
    ];
    assert_eq!(provider.process_message(&InboundFrame::AllMids(mids), 0), MessageOutcome::PricesUpdated(2));
    assert_eq!(provider.get_latest_price("BTC"), Some(Decimal::from_int(45001)));
    assert_eq!(provider.get_latest_price("ETH"), None);
    let ack = InboundFrame::SubscriptionResponse { method: "subscribe".to_string(), subscription: SubscriptionKey::candle("BTC", "1m") };
    assert_eq!(provider.process_message(&ack, 0), MessageOutcome::Acknowledged);
    assert_eq!(provider.process_message(&InboundFrame::Error("bad".to_string()), 0), MessageOutcome::ErrorReported);
    assert_eq!(provider.get_latest_price("BTC"), Some(Decimal::from_int(45001)));
}

#[test]
fn provider_intervals() {
    let provider = HyperliquidMarketDataProvider::new();
    assert_eq!(provider.get_primary_interval(), "1m");
    let none = HyperliquidMarketDataProvider::with_intervals(Vec::new());
    assert_eq!(none.get_primary_interval(), "1m");
    let mut hourly = HyperliquidMarketDataProvider::with_intervals(vec!["1h".to_string(), "1m".to_string()]);
    assert_eq!(hourly.get_primary_interval(), "1h");
    assert_eq!(
        hourly.subscribe("BTC", true),
        vec![SubscriptionKey::candle("BTC", "1h"), SubscriptionKey::candle("BTC", "1m")]
    );
    assert_eq!(hourly.subscribe_candle("BTC", "1h", true), None);
    assert_eq!(hourly.subscribe_candle("BTC", "4h", false), None);
    assert_eq!(hourly.on_connected().len(), 3);
}

#[test]
fn backoff_doubles_up_to_the_cap() {
    assert_eq!(backoff_base_ms(0), 500);
    assert_eq!(backoff_base_ms(1), 500);
    assert_eq!(backoff_base_ms(2), 1_000);
    assert_eq!(backoff_base_ms(3), 2_000);
    assert_eq!(backoff_base_ms(6), 16_000);
    assert_eq!(backoff_base_ms(7), 30_000);
    assert_eq!(backoff_base_ms(u32::MAX), 30_000);
    assert_eq!(backoff_delay_ms(1, 0), 500);
    assert_eq!(backoff_delay_ms(1, 120), 620);
    assert_eq!(backoff_delay_ms(1, 10_000), 1_000);
    assert_eq!(backoff_delay_ms(3, 1_500), 3_500);
    assert_eq!(backoff_delay_ms(6, 16_000), 30_000);
    assert_eq!(backoff_delay_ms(9, 0), MAX_BACKOFF_MS);
    for n in 1..12u32 {
        for jitter in [0u64, 1, 499, 500, 5_000, 100_000] {
            let d = backoff_delay_ms(n, jitter);
            assert!(d >= backoff_base_ms(n));
            assert!(d <= MAX_BACKOFF_MS.min(500u64 << n));
        }
    }
}

#[test]
fn connection_state_machine() {
    let s = ConnectionSupervisor::new();
    assert_eq!(s.state, ConnectionState::Disconnected);
    assert_eq!(s.step(ConnectionEvent::HandshakeOk, 0, 0), (s, ConnectionAction::Nothing));
    let (s, _) = s.step(ConnectionEvent::Connect, 0, 0);
    assert_eq!(s.state, ConnectionState::Connecting);
    let (s, a) = s.step(ConnectionEvent::HandshakeFail, 10, 100);
    assert_eq!(s.state, ConnectionState::Backoff);
    assert_eq!(s.failures, 1);
    assert_eq!(a, ConnectionAction::Sleep(600));
    assert_eq!(s.step(ConnectionEvent::Connect, 0, 0), (s, ConnectionAction::Nothing));
    let (s, a) = s.step(ConnectionEvent::BackoffElapsed, 700, 0);
    assert_eq!((s.state, a), (ConnectionState::Disconnected, ConnectionAction::Reconnect));
    let (s, _) = s.step(ConnectionEvent::Connect, 700, 0);
    let (s, a) = s.step(ConnectionEvent::Error, 710, 0);
    assert_eq!(s.failures, 2);
    assert_eq!(a, ConnectionAction::Sleep(1_000));
    let (s, _) = s.step(ConnectionEvent::BackoffElapsed, 2_000, 0);
    let (s, _) = s.step(ConnectionEvent::Connect, 2_000, 0);
    let (s, a) = s.step(ConnectionEvent::HandshakeOk, 2_050, 0);
    assert_eq!((s.state, a), (ConnectionState::Connected, ConnectionAction::ReplaySubscriptions));
    assert_eq!(s.connected_at, 2_050);
    // A connection that drops before a minute counts as one more failure.
    let (short, a) = s.step(ConnectionEvent::HeartbeatTimeout, 2_050 + 59_999, 0);
    assert_eq!((short.state, short.failures, a), (ConnectionState::Disconnected, 3, ConnectionAction::Reconnect));
    // One that lasted a minute clears the failures.
    let (long, _) = s.step(ConnectionEvent::Close, 2_050 + 60_000, 0);
    assert_eq!((long.state, long.failures), (ConnectionState::Disconnected, 0));
    assert_eq!(s.step(ConnectionEvent::BackoffElapsed, 0, 0), (s, ConnectionAction::Nothing));
}

#[test]
fn heartbeat_deadline_is_two_pings() {
    assert!(!heartbeat_expired(1_000 + 2 * 50, 1_000, 50));
    assert!(heartbeat_expired(1_000 + 2 * 50 + 1, 1_000, 50));
    assert!(!heartbeat_expired(i64::MAX, i64::MAX, u64::MAX));
}

#[test]
fn outbound_queue_drops_on_overflow() {
    let mut queue = OutboundQueue::new();
    for i in 0..OUTBOUND_DEPTH {
        assert!(queue.offer(format!("frame {}", i)));
    }
    assert!(!queue.offer("one too many".to_string()));
    assert_eq!(queue.len(), OUTBOUND_DEPTH);
    assert_eq!(queue.next(), Some("frame 0".to_string()));
    assert!(queue.offer("late".to_string()));
    for i in 1..OUTBOUND_DEPTH {
        assert_eq!(queue.next(), Some(format!("frame {}", i)));
    }
    assert_eq!(queue.next(), Some("late".to_string()));
    assert_eq!(queue.next(), None);
}
