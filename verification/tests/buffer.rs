use perptrix::decimal::Decimal;
use perptrix::models::indicators::Candle;
use perptrix::services::hyperliquid::buffer::{CandleBuffer, MAX_CANDLES};

fn candle(timestamp: i64, close: i64) -> Candle {
    let c = Decimal::from_int(close as i32);
    Candle::new(c, c, c, c, Decimal::from_int(1), timestamp)
}

fn timestamps(buffer: &CandleBuffer) -> Vec<i64> {
    buffer.candles().iter().map(|c| c.timestamp).collect()
}

#[test]
fn duplicate_timestamp_replaces() {
    let mut buffer = CandleBuffer::new();
    buffer.upsert(candle(1_700_000_060, 100));
    buffer.upsert(candle(1_700_000_060, 101));
    assert_eq!(buffer.len(), 1);
    assert_eq!(buffer.candles()[0].close, Decimal::from_int(101));
    assert_eq!(buffer.candles()[0].timestamp, 1_700_000_060);
}

#[test]
fn timestamps_strictly_increase_whatever_the_order_of_arrival() {
    let mut buffer = CandleBuffer::new();
    for t in [50, 10, 30, 20, 40, 30, 10, 60, 5] {
        buffer.upsert(candle(t, t));
    }
    assert_eq!(timestamps(&buffer), vec![5, 10, 20, 30, 40, 50, 60]);
}

#[test]
fn oldest_candle_leaves_beyond_the_limit() {
    let mut buffer = CandleBuffer::new();
    for t in 0..(MAX_CANDLES as i64 + 1) {
        buffer.upsert(candle(t, 1));
    }
    assert_eq!(buffer.len(), MAX_CANDLES);
    assert_eq!(buffer.candles()[0].timestamp, 1);
    assert_eq!(buffer.candles()[MAX_CANDLES - 1].timestamp, MAX_CANDLES as i64);
    // A candle older than all of a full buffer leaves at once.
    buffer.upsert(candle(-5, 1));
    assert_eq!(buffer.len(), MAX_CANDLES);
    assert_eq!(buffer.candles()[0].timestamp, 1);
    // Replacing in a full buffer evicts nothing.
    buffer.upsert(candle(500, 7));
    assert_eq!(buffer.len(), MAX_CANDLES);
    assert_eq!(buffer.candles()[499].close, Decimal::from_int(7));
}

#[test]
fn latest_gives_the_newest_oldest_first() {
    let mut buffer = CandleBuffer::new();
    for t in 1..=10 {
        buffer.upsert(candle(t, t));
    }
    let last3: Vec<i64> = buffer.latest(3).iter().map(|c| c.timestamp).collect();
    assert_eq!(last3, vec![8, 9, 10]);
    assert_eq!(buffer.latest(100).len(), 10);
    assert!(buffer.latest(0).is_empty());
}

#[test]
fn candle_consistency() {
    let d = |t: &str| Decimal::parse(t).unwrap();
    let good = Candle::new(d("100"), d("101"), d("99"), d("100.5"), d("10"), 0);
    assert!(good.is_consistent());
    let low_above_open = Candle::new(d("100"), d("101"), d("100.1"), d("100.5"), d("10"), 0);
    assert!(!low_above_open.is_consistent());
    let close_above_high = Candle::new(d("100"), d("101"), d("99"), d("101.5"), d("10"), 0);
    assert!(!close_above_high.is_consistent());
    let negative_volume = Candle::new(d("100"), d("101"), d("99"), d("100.5"), d("-1"), 0);
    assert!(!negative_volume.is_consistent());
    let with = good.with_open_interest(d("5")).with_funding_rate(d("0.0001"));
    assert_eq!(with.open_interest, Some(d("5")));
    assert_eq!(with.funding_rate, Some(d("0.0001")));
    assert_eq!(with.close, good.close);
}
