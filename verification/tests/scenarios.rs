use perptrix::decimal::{Decimal, SCALE};
use perptrix::models::indicators::Candle;
use perptrix::models::signal::SignalDirection;
use perptrix::models::strategy::{
    AggregationConfig, AggregationMethod, Comparison, Condition, IndicatorType, Rule, RuleType,
    SignalThresholds, Strategy, StrategyConfig,
};
use perptrix::signals::engine::SignalEngine;

const NOW_MS: i64 = 1_700_000_000_000;

fn fixed(value: f64) -> Decimal {
    Decimal::new((value * SCALE as f64).round() as i64)
}

fn create_test_strategy(symbol: &str) -> Strategy {
    Strategy {
        id: None,
        name: "Test Strategy".to_string(),
        symbol: symbol.to_string(),
        config: StrategyConfig {
            rules: vec![Rule {
                id: "test_rule".to_string(),
                rule_type: RuleType::Condition,
                weight: Some(fixed(1.0)),
                operator: None,
                condition: Some(Condition {
                    indicator: IndicatorType::RSI,
                    indicator_params: Vec::new(),
                    comparison: Comparison::GreaterThan,
                    threshold: Some(fixed(-100.0)),
                    signal_state: None,
                }),
                children: None,
            }],
            aggregation: AggregationConfig {
                method: AggregationMethod::Sum,
                thresholds: SignalThresholds { long_min: 1, short_max: -1 },
            },
        },
        created_at: NOW_MS,
        updated_at: NOW_MS,
    }
}

fn candle(i: usize, open: f64, high: f64, low: f64, close: f64, volume: f64, oi: f64, funding: f64) -> Candle {
    Candle::new(fixed(open), fixed(high), fixed(low), fixed(close), fixed(volume), 1_700_000_000 + 60 * i as i64)
        .with_open_interest(fixed(oi))
        .with_funding_rate(fixed(funding))
}

fn create_uptrend_candles(count: usize) -> Vec<Candle> {
    (0..count)
        .map(|i| {
            let base = 100.0 + (i as f64 * 0.5);
            candle(i, base, base + 0.3, base - 0.2, base + 0.1, 1000.0 + (i as f64 * 10.0), 10_000.0 + (i as f64 * 50.0), 0.0002)
        })
        .collect()
}

fn create_downtrend_candles(count: usize) -> Vec<Candle> {
    (0..count)
        .map(|i| {
            let base = 100.0 - (i as f64 * 0.5);
            candle(i, base, base + 0.2, base - 0.3, base - 0.1, 1000.0 + (i as f64 * 10.0), 10_000.0 + (i as f64 * 80.0), -0.0006)
        })
        .collect()
}

fn create_ranging_candles(count: usize, min: f64, max: f64) -> Vec<Candle> {
    (0..count)
        .map(|i| {
            let cycle = (i as f64 % 20.0) / 20.0;
            let price = min + (max - min) * cycle;
            candle(i, price, price + 0.1, price - 0.1, price, 1000.0, 9_500.0 + (i as f64 % 10.0) * 20.0, 0.0)
        })
        .collect()
}

fn create_volatile_candles(count: usize) -> Vec<Candle> {
    (0..count)
        .map(|i| {
            let base = 100.0 + (i as f64 * 0.1);
            let volatility = ((i as f64 % 5.0) - 2.5) * 2.0;
            candle(
                i,
                base,
                base + volatility.abs() + 0.5,
                base - volatility.abs() - 0.5,
                base + volatility,
                1000.0 + (i as f64 * 50.0),
                10_000.0 + ((i as f64 % 7.0) - 3.0) * 120.0,
                if i % 2 == 0 { 0.0004 } else { -0.0004 },
            )
        })
        .collect()
}

fn create_reversal_candles(count: usize) -> Vec<Candle> {
    let midpoint = count / 2;
    (0..count)
        .map(|i| {
            let base = if i < midpoint {
                100.0 + (i as f64 * 0.5)
            } else {
                100.0 + (midpoint as f64 * 0.5) - ((i - midpoint) as f64 * 0.5)
            };
            candle(
                i,
                base,
                base + 0.3,
                base - 0.2,
                base + if i < midpoint { 0.1 } else { -0.1 },
                1000.0 + (i as f64 * 10.0),
                if i < midpoint {
                    10_000.0 + (i as f64 * 60.0)
                } else {
                    10_000.0 + (midpoint as f64 * 60.0) - ((i - midpoint) as f64 * 70.0)
                },
                if i < midpoint { 0.0003 } else { -0.0003 },
            )
        })
        .collect()
}

fn any_direction(direction: SignalDirection) -> bool {
    matches!(direction, SignalDirection::Long | SignalDirection::Short | SignalDirection::Neutral)
}

#[test]
fn test_strong_uptrend() {
    let candles = create_uptrend_candles(250);
    let strategy = create_test_strategy("BTC");
    let signal = SignalEngine::evaluate_candles(&candles, &strategy, NOW_MS);
    assert!(signal.is_some());
    let s = signal.unwrap();
    assert!(s.confidence.units >= 0);
    assert!(!s.reasons.is_empty());
    assert!(any_direction(s.direction));
    assert_eq!(s.direction, SignalDirection::Long);
}

#[test]
fn test_strong_downtrend() {
    let candles = create_downtrend_candles(250);
    let strategy = create_test_strategy("BTC");
    let signal = SignalEngine::evaluate_candles(&candles, &strategy, NOW_MS);
    assert!(signal.is_some());
    let s = signal.unwrap();
    assert!(s.confidence.units >= 0);
    assert!(!s.reasons.is_empty());
    assert!(any_direction(s.direction));
}

#[test]
fn test_ranging_market() {
    let candles = create_ranging_candles(250, 95.0, 105.0);
    let strategy = create_test_strategy("BTC");
    let signal = SignalEngine::evaluate_candles(&candles, &strategy, NOW_MS);
    assert!(signal.is_some());
    let s = signal.unwrap();
    assert!(s.confidence.units >= 0);
    assert!(!s.reasons.is_empty());
    assert!(any_direction(s.direction));
}

#[test]
fn test_high_volatility() {
    let candles = create_volatile_candles(250);
    let strategy = create_test_strategy("BTC");
    let signal = SignalEngine::evaluate_candles(&candles, &strategy, NOW_MS);
    assert!(signal.is_some());
    let s = signal.unwrap();
    assert!(s.confidence.units >= 0);
    assert!(!s.reasons.is_empty());
    assert!(s.confidence.units <= SCALE);
}

#[test]
fn test_major_reversal() {
    let candles = create_reversal_candles(250);
    let strategy = create_test_strategy("BTC");
    let signal = SignalEngine::evaluate_candles(&candles, &strategy, NOW_MS);
    assert!(signal.is_some());
    let s = signal.unwrap();
    assert!(s.confidence.units >= 0);
    assert!(!s.reasons.is_empty());
    assert!(any_direction(s.direction));
}

#[test]
fn extreme_positive_funding_pushes_contrarian_bias() {
    let mut candles = create_uptrend_candles(250);
    for candle in candles.iter_mut() {
        candle.funding_rate = Some(fixed(0.0015));
    }
    let strategy = create_test_strategy("BTC");
    let signal = SignalEngine::evaluate_candles(&candles, &strategy, NOW_MS);
    assert!(signal.is_some());
    let s = signal.unwrap();
    assert!(any_direction(s.direction));
}

#[test]
fn extreme_negative_funding_supports_long_bias() {
    let mut candles = create_downtrend_candles(250);
    for candle in candles.iter_mut() {
        candle.funding_rate = Some(fixed(-0.0015));
    }
    let strategy = create_test_strategy("BTC");
    let signal = SignalEngine::evaluate_candles(&candles, &strategy, NOW_MS);
    assert!(signal.is_some());
    let s = signal.unwrap();
    assert!(matches!(s.direction, SignalDirection::Long | SignalDirection::Neutral));
}

#[test]
fn signal_comes_with_its_indicator_values() {
    let candles = create_uptrend_candles(60);
    let strategy = create_test_strategy("BTC");
    let (signal, values) = SignalEngine::evaluate_with_indicators(&candles, &strategy, NOW_MS).unwrap();
    assert_eq!(Some(signal), SignalEngine::evaluate_candles(&candles, &strategy, NOW_MS));
    assert_eq!(values.rsi_value, Some(Decimal::from_int(100)));
    assert_eq!(values.current_price, candles[59].close);
    assert!(SignalEngine::evaluate_with_indicators(&candles[..10], &strategy, NOW_MS).is_none());
    assert!(SignalEngine::evaluate_with_indicators(&[], &strategy, NOW_MS).is_none());
}
