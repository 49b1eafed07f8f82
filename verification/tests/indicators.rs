use perptrix::decimal::{Decimal, SCALE};
use perptrix::indicators::momentum::macd::{
    calculate_macd, calculate_macd_default, classify_macd, MACDSignal,
};
use perptrix::indicators::momentum::rsi::{calculate_rsi, calculate_rsi_default, classify_rsi, RSISignal};
use perptrix::indicators::smoothing::{saturate, MovingAverage, Smoothing};
use perptrix::indicators::trend::ema::{
    calculate_ema, calculate_emas, check_ema_cross, classify_ema_trend, EMATrendSignal,
};
use perptrix::indicators::structure::supertrend::{calculate_supertrend, calculate_supertrend_default};
use perptrix::indicators::volatility::atr::{calculate_atr, calculate_atr_default, true_range};
use perptrix::indicators::volatility::bollinger::bollinger_middle;
use perptrix::models::indicators::Candle;
use perptrix::models::signal::SignalDirection;
use perptrix::models::strategy::{
    AggregationConfig, AggregationMethod, Comparison, Condition, IndicatorType, Rule, RuleType,
    SignalThresholds, Strategy, StrategyConfig,
};
use perptrix::signals::engine::SignalEngine;
use perptrix::strategies::evaluator::StrategyEvaluator;

fn fixed(value: f64) -> Decimal {
    Decimal::new((value * SCALE as f64).round() as i64)
}

fn create_test_candles(count: usize, base_price: f64) -> Vec<Candle> {
    let mut candles = Vec::new();
    for i in 0..count {
        let price = base_price + (i as f64 * 0.1);
        candles.push(Candle::new(
            fixed(price),
            fixed(price + 0.05),
            fixed(price - 0.05),
            fixed(price),
            fixed(1000.0),
            1_700_000_000 + 60 * i as i64,
        ));
    }
    candles
}

fn create_uptrend_candles(count: usize) -> Vec<Candle> {
    let mut candles = Vec::new();
    for i in 0..count {
        let price = 100.0 + (i as f64 * 0.5);
        let candle = Candle::new(
            fixed(price),
            fixed(price + 0.3),
            fixed(price - 0.2),
            fixed(price + 0.1),
            fixed(1000.0),
            1_700_000_000 + 60 * i as i64,
        )
        .with_open_interest(fixed(10_000.0 + (i as f64 * 20.0)))
        .with_funding_rate(fixed(0.0001));
        candles.push(candle);
    }
    candles
}

fn from_closes(closes: &[i64]) -> Vec<Candle> {
    closes
        .iter()
        .enumerate()
        .map(|(i, c)| {
            let d = Decimal::new(*c);
            Candle::new(d, d, d, d, Decimal::zero(), i as i64)
        })
        .collect()
}

#[test]
fn test_ema_insufficient_data() {
    let candles = create_test_candles(10, 100.0);
    assert!(calculate_ema(&candles, 20).is_none());
}

#[test]
fn test_ema_sufficient_data() {
    let candles = create_test_candles(50, 100.0);
    let result = calculate_ema(&candles, 12);
    assert!(result.is_some());
    let ema = result.unwrap();
    assert_eq!(ema.period, 12);
    assert_eq!(ema.value, Decimal::new(10_435_000_000));
}

#[test]
fn test_calculate_multiple_emas() {
    let candles = create_test_candles(250, 100.0);
    let periods = vec![12, 26, 50, 200];
    let emas = calculate_emas(&candles, &periods);
    assert_eq!(emas.len(), 4);
    let values: Vec<i64> = emas.iter().map(|e| e.value.units).collect();
    assert_eq!(values, vec![12_435_000_000, 12_365_000_000, 12_245_000_000, 11_495_000_000]);
    assert_eq!(calculate_emas(&candles, &[0, 300, 26]).len(), 1);
}

#[test]
fn test_ema_cross() {
    let candles = create_test_candles(50, 100.0);
    let cross = check_ema_cross(&candles, 12, 26);
    assert!(cross.is_some());
    assert_eq!(cross, Some(1));
    assert_eq!(check_ema_cross(&candles, 26, 12), Some(-1));
    assert_eq!(check_ema_cross(&candles, 12, 12), Some(0));
    assert_eq!(check_ema_cross(&candles, 12, 51), None);
}

#[test]
fn moving_average_seeds_with_the_simple_average() {
    let mut ema = MovingAverage::new(Smoothing::Exponential, 3);
    assert_eq!(ema.value(), None);
    assert_eq!(ema.update(Decimal::new(10)), None);
    assert_eq!(ema.update(Decimal::new(20)), None);
    assert_eq!(ema.update(Decimal::new(31)), Some(Decimal::new(20)));
    // (2 * 40 + 2 * 20) / 4
    assert_eq!(ema.update(Decimal::new(40)), Some(Decimal::new(30)));
    assert_eq!(ema.value(), Some(Decimal::new(30)));
    let mut wilder = MovingAverage::new(Smoothing::Wilder, 3);
    wilder.update(Decimal::new(-10));
    wilder.update(Decimal::new(-20));
    assert_eq!(wilder.update(Decimal::new(-31)), Some(Decimal::new(-20)));
    // (-41 + 2 * -20) / 3, rounded toward zero
    assert_eq!(wilder.update(Decimal::new(-41)), Some(Decimal::new(-27)));
    let mut extreme = MovingAverage::new(Smoothing::Exponential, 0);
    assert_eq!(extreme.update(Decimal::new(i64::MIN)), Some(Decimal::new(i64::MIN)));
    assert_eq!(extreme.update(Decimal::new(i64::MAX)), Some(Decimal::new(i64::MAX)));
    assert_eq!(saturate(i128::MAX), i64::MAX);
    assert_eq!(saturate(i128::MIN), i64::MIN);
    assert_eq!(saturate(-7), -7);
}

#[test]
fn rsi_is_undefined_before_fourteen_samples() {
    let zig: Vec<i64> = (0..30).map(|i| 100 * SCALE + (i % 3) * SCALE - (i % 5) * (SCALE / 2)).collect();
    let candles = from_closes(&zig);
    assert_eq!(calculate_rsi_default(&candles[..13]), None);
    let at14 = calculate_rsi_default(&candles[..14]).unwrap();
    assert_eq!(at14.value, Decimal::new(4_871_794_855));
    assert_eq!(at14.period, Some(14));
    assert_eq!(calculate_rsi(&candles, 14).unwrap().value, Decimal::new(5_007_814_362));
    assert_eq!(calculate_rsi(&candles, 0), None);
    assert_eq!(calculate_rsi(&candles, 31), None);
    let values = StrategyEvaluator::compute_indicators(&candles[..13], candles[12].close);
    assert_eq!(values.rsi_value, None);
    let condition = Condition {
        indicator: IndicatorType::RSI,
        indicator_params: Vec::new(),
        comparison: Comparison::GreaterThan,
        threshold: Some(Decimal::from_int(-100)),
        signal_state: None,
    };
    assert!(!StrategyEvaluator::evaluate_condition(&condition, &values));
    let later = StrategyEvaluator::compute_indicators(&candles[..14], candles[13].close);
    assert!(StrategyEvaluator::evaluate_condition(&condition, &later));
}

#[test]
fn rsi_extremes_and_states() {
    let down: Vec<i64> = (0..20).map(|i| 100 * SCALE - i * SCALE).collect();
    assert_eq!(calculate_rsi_default(&from_closes(&down)).unwrap().value, Decimal::zero());
    let up = create_uptrend_candles(250);
    assert_eq!(calculate_rsi_default(&up).unwrap().value, Decimal::from_int(100));
    let flat = from_closes(&[5; 20]);
    assert_eq!(calculate_rsi_default(&flat).unwrap().value, Decimal::from_int(100));
    assert_eq!(classify_rsi(Decimal::new(2_999_999_999)), RSISignal::Oversold);
    assert_eq!(classify_rsi(Decimal::from_int(30)), RSISignal::Neutral);
    assert_eq!(classify_rsi(Decimal::from_int(70)), RSISignal::Neutral);
    assert_eq!(classify_rsi(Decimal::new(7_000_000_001)), RSISignal::Overbought);
}

#[test]
fn average_true_range() {
    let up = create_uptrend_candles(250);
    assert_eq!(calculate_atr_default(&up[..13]), None);
    let first = calculate_atr_default(&up[..14]).unwrap();
    assert_eq!(first.value, Decimal::new(68_571_428));
    assert_eq!(first.period, 14);
    assert_eq!(calculate_atr(&up, 14).unwrap().value, Decimal::new(69_999_987));
    assert_eq!(calculate_atr(&up, 0), None);
    // A gap counts: the distance from the close before.
    let gap = vec![
        Candle::new(fixed(10.0), fixed(11.0), fixed(9.0), fixed(10.0), fixed(1.0), 0),
        Candle::new(fixed(20.0), fixed(21.0), fixed(19.5), fixed(20.0), fixed(1.0), 1),
    ];
    // (2 + 11) / 2
    assert_eq!(calculate_atr(&gap, 2).unwrap().value, fixed(6.5));
}

#[test]
fn macd_of_a_steady_trend_is_flat() {
    let up = create_uptrend_candles(250);
    assert_eq!(calculate_macd_default(&up[..34]), None);
    let at35 = calculate_macd_default(&up[..35]).unwrap();
    assert_eq!((at35.macd, at35.signal, at35.histogram), (fixed(3.5), fixed(3.5), fixed(0.0)));
    assert_eq!(at35.period, Some((12, 26, 9)));
    let all = calculate_macd(&up, 12, 26, 9).unwrap();
    assert_eq!((all.macd, all.signal, all.histogram), (fixed(3.5), fixed(3.5), fixed(0.0)));
    assert_eq!(calculate_macd(&up, 0, 26, 9), None);
    assert_eq!(calculate_macd(&up, 12, 26, 225), None);
    assert!(calculate_macd(&up, 12, 26, 224).is_some());
    assert!(calculate_macd(&up, 26, 12, 9).unwrap().macd.units < 0);
}

#[test]
fn computed_indicator_values() {
    let up = create_uptrend_candles(250);
    let price = up[249].close;
    let values = StrategyEvaluator::compute_indicators(&up, price);
    assert_eq!(values.rsi_value, Some(Decimal::from_int(100)));
    assert_eq!(values.rsi_signal, Some(RSISignal::Overbought));
    assert_eq!(values.macd_value, Some(fixed(3.5)));
    assert_eq!(values.macd_signal_value, Some(fixed(3.5)));
    assert_eq!(values.macd_histogram, Some(fixed(0.0)));
    assert_eq!(values.ema_fast, Some(Decimal::new(21_985_000_000)));
    assert_eq!(values.ema_slow, Some(Decimal::new(21_235_000_000)));
    assert_eq!(values.atr_value, Some(Decimal::new(69_999_987)));
    assert_eq!(values.funding_rate_value, Some(fixed(0.0001)));
    assert_eq!(values.current_price, price);
    assert_eq!(values.supertrend_value, Some(Decimal::new(22_245_000_027)));
    assert_eq!(values.bollinger_middle, Some(Decimal::new(21_985_000_000)));
    assert_eq!(values.bollinger_upper, None);
    assert_eq!(values.bollinger_lower, None);
    assert_eq!(values.macd_signal, Some(MACDSignal::Neutral));
    assert_eq!(values.ema_signal, Some(EMATrendSignal::StrongUptrend));
    let mut some_without = up.clone();
    some_without[249].funding_rate = None;
    some_without[248].funding_rate = Some(fixed(0.0003));
    assert_eq!(
        StrategyEvaluator::compute_indicators(&some_without, price).funding_rate_value,
        Some(fixed(0.0003))
    );
    let few = StrategyEvaluator::compute_indicators(&up[..10], price);
    assert_eq!(few.rsi_value, None);
    assert_eq!(few.ema_fast, None);
    assert_eq!(few.atr_value, None);
    assert_eq!(few.macd_value, None);
    assert_eq!(few.macd_signal, None);
    assert_eq!(few.ema_signal, None);
    assert_eq!(few.bollinger_middle, None);
    assert_eq!(few.supertrend_value, Some(Decimal::new(10_251_000_000)));
    let nine = StrategyEvaluator::compute_indicators(&up[..9], price);
    assert_eq!(nine.supertrend_value, None);
}

#[test]
fn supertrend_trails_and_turns() {
    let up = create_uptrend_candles(250);
    assert_eq!(calculate_supertrend_default(&up[..9]), None);
    let first = calculate_supertrend_default(&up[..10]).unwrap();
    assert_eq!(first.upper_band, Decimal::new(10_659_000_000));
    assert_eq!(first.lower_band, Decimal::new(10_251_000_000));
    assert_eq!(first.trend, 1);
    assert_eq!(first.value, first.lower_band);
    assert_eq!(first.period, 10);
    assert_eq!(first.multiplier, Decimal::from_int(3));
    let last = calculate_supertrend(&up, 10, Decimal::from_int(3)).unwrap();
    assert_eq!((last.upper_band.units, last.lower_band.units, last.trend), (22_614_999_973, 22_245_000_027, 1));
    assert_eq!(calculate_supertrend(&up, 0, Decimal::from_int(3)), None);
    // A trend that turns after thirty candles.
    let midpoint = 30;
    let turning: Vec<Candle> = (0..60)
        .map(|i| {
            let base = if i < midpoint {
                100.0 + (i as f64 * 0.5)
            } else {
                100.0 + (midpoint as f64 * 0.5) - ((i - midpoint) as f64 * 0.5)
            };
            let close = base + if i < midpoint { 0.1 } else { -0.1 };
            Candle::new(fixed(base), fixed(base + 0.3), fixed(base - 0.2), fixed(close), fixed(1.0), i as i64)
        })
        .collect();
    let before = calculate_supertrend_default(&turning[..34]).unwrap();
    assert_eq!((before.upper_band.units, before.lower_band.units, before.trend), (11_513_999_359, 11_295_656_526, 1));
    let turned = calculate_supertrend_default(&turning[..35]).unwrap();
    assert_eq!((turned.upper_band.units, turned.lower_band.units, turned.trend), (11_504_252_248, 11_295_656_526, -1));
    assert_eq!(turned.value, turned.upper_band);
    let end = calculate_supertrend_default(&turning).unwrap();
    assert_eq!((end.upper_band.units, end.lower_band.units, end.trend), (10_236_382_103, 10_072_893_451, -1));
}

#[test]
fn middle_band_is_the_mean_of_the_latest_closes() {
    let closes: Vec<i64> = (1..=25).map(|i| i * SCALE).collect();
    let candles = from_closes(&closes);
    // The mean of 6..=25.
    assert_eq!(bollinger_middle(&candles, 20), Some(Decimal::new(1_550_000_000)));
    assert_eq!(bollinger_middle(&candles, 25), Some(Decimal::from_int(13)));
    assert_eq!(bollinger_middle(&candles, 26), None);
    assert_eq!(bollinger_middle(&candles, 0), None);
    assert_eq!(bollinger_middle(&from_closes(&[-1, -2]), 2), Some(Decimal::new(-1)));
    assert_eq!(bollinger_middle(&from_closes(&[i64::MIN, i64::MIN]), 2), Some(Decimal::new(i64::MIN)));
    assert_eq!(true_range(&candles, 3), SCALE);
}

fn create_ranging_candles(count: usize, min: f64, max: f64) -> Vec<Candle> {
    let mut candles = Vec::new();
    for i in 0..count {
        let cycle = (i as f64 % 20.0) / 20.0;
        let price = min + (max - min) * cycle;
        let candle = Candle::new(fixed(price), fixed(price + 0.1), fixed(price - 0.1), fixed(price), fixed(1000.0), 60 * i as i64)
            .with_open_interest(fixed(9_500.0 + (i as f64 % 10.0) * 20.0))
            .with_funding_rate(fixed(0.0));
        candles.push(candle);
    }
    candles
}

fn state_strategy(indicator: IndicatorType, state: &str, long_min: i32, short_max: i32) -> Strategy {
    Strategy {
        id: Some(2),
        name: "state".to_string(),
        symbol: "BTC".to_string(),
        config: StrategyConfig {
            rules: vec![Rule {
                id: "state_rule".to_string(),
                rule_type: RuleType::Condition,
                weight: None,
                operator: None,
                condition: Some(Condition {
                    indicator,
                    indicator_params: Vec::new(),
                    comparison: Comparison::SignalState,
                    threshold: None,
                    signal_state: Some(state.to_string()),
                }),
                children: None,
            }],
            aggregation: AggregationConfig {
                method: AggregationMethod::Sum,
                thresholds: SignalThresholds { long_min, short_max },
            },
        },
        created_at: 0,
        updated_at: 0,
    }
}

#[test]
fn ranging_market_without_a_bullish_macd_cross() {
    let candles = create_ranging_candles(250, 95.0, 105.0);
    let values = StrategyEvaluator::compute_indicators(&candles, candles[249].close);
    assert_eq!(values.macd_signal, Some(MACDSignal::BearishMomentum));
    assert_eq!(values.macd_value, Some(Decimal::new(-44_666_216)));
    assert_eq!(values.macd_signal_value, Some(Decimal::new(-40_599_330)));
    assert_eq!(values.macd_histogram, Some(Decimal::new(-4_066_886)));
    let strategy = state_strategy(IndicatorType::MACD, "BullishCross", 2, -2);
    let signal = SignalEngine::evaluate_candles(&candles, &strategy, 0).unwrap();
    assert_eq!(signal.direction, SignalDirection::Neutral);
    assert!(signal.reasons.is_empty());
    // The cross itself is seen on the candle on which it happens.
    let at_cross = StrategyEvaluator::compute_indicators(&candles[..241], candles[240].close);
    assert_eq!(at_cross.macd_signal, Some(MACDSignal::BearishCross));
    let bearish = state_strategy(IndicatorType::MACD, "BearishCross", 1, -1);
    let signal = SignalEngine::evaluate_candles(&candles[..241], &bearish, 0).unwrap();
    assert_eq!(signal.direction, SignalDirection::Long);
    assert_eq!(signal.reasons.len(), 1);
    let before = StrategyEvaluator::compute_indicators(&candles[..240], candles[239].close);
    assert_eq!(before.macd_signal, Some(MACDSignal::BullishMomentum));
}

#[test]
fn crossover_states() {
    let d = Decimal::new;
    let now = |m: i64, s: i64| perptrix::models::indicators::MacdIndicator { macd: d(m), signal: d(s), histogram: d(m - s), period: None };
    assert_eq!(classify_macd(Some(now(1, 2)), now(3, 2)), MACDSignal::BullishCross);
    assert_eq!(classify_macd(Some(now(2, 2)), now(3, 2)), MACDSignal::BullishCross);
    assert_eq!(classify_macd(Some(now(3, 2)), now(1, 2)), MACDSignal::BearishCross);
    assert_eq!(classify_macd(Some(now(3, 2)), now(4, 2)), MACDSignal::BullishMomentum);
    assert_eq!(classify_macd(None, now(4, 2)), MACDSignal::BullishMomentum);
    assert_eq!(classify_macd(None, now(1, 2)), MACDSignal::BearishMomentum);
    assert_eq!(classify_macd(Some(now(1, 2)), now(2, 2)), MACDSignal::Neutral);
    assert_eq!(classify_ema_trend(Some((d(1), d(2))), d(3), d(2), d(0)), EMATrendSignal::BullishCross);
    assert_eq!(classify_ema_trend(Some((d(3), d(2))), d(1), d(2), d(9)), EMATrendSignal::BearishCross);
    assert_eq!(classify_ema_trend(Some((d(3), d(2))), d(3), d(2), d(4)), EMATrendSignal::StrongUptrend);
    assert_eq!(classify_ema_trend(Some((d(3), d(2))), d(3), d(2), d(3)), EMATrendSignal::Neutral);
    assert_eq!(classify_ema_trend(None, d(1), d(2), d(0)), EMATrendSignal::StrongDowntrend);
    assert_eq!(classify_ema_trend(None, d(2), d(2), d(0)), EMATrendSignal::Neutral);
}

#[test]
fn monotone_uptrend_with_an_rsi_rule_that_always_passes() {
    let candles = create_uptrend_candles(250);
    let strategy = Strategy {
        id: Some(1),
        name: "rsi".to_string(),
        symbol: "BTC".to_string(),
        config: StrategyConfig {
            rules: vec![Rule {
                id: "test_rule".to_string(),
                rule_type: RuleType::Condition,
                weight: Some(Decimal::from_int(1)),
                operator: None,
                condition: Some(Condition {
                    indicator: IndicatorType::RSI,
                    indicator_params: Vec::new(),
                    comparison: Comparison::GreaterThan,
                    threshold: Some(Decimal::from_int(-100)),
                    signal_state: None,
                }),
                children: None,
            }],
            aggregation: AggregationConfig {
                method: AggregationMethod::Sum,
                thresholds: SignalThresholds { long_min: 1, short_max: -1 },
            },
        },
        created_at: 0,
        updated_at: 0,
    };
    let signal = SignalEngine::evaluate_candles(&candles, &strategy, 77).unwrap();
    assert_eq!(signal.direction, SignalDirection::Long);
    assert_eq!(signal.confidence, Decimal::from_int(1));
    assert!(!signal.reasons.is_empty());
    assert_eq!(signal.price, fixed(224.6));
    assert_eq!(signal.recommended_sl_pct, Decimal::new(467_497));
    assert_eq!(signal.recommended_tp_pct, Decimal::new(934_995));
    assert_eq!(signal.timestamp, 77);
    assert!(SignalEngine::evaluate_candles(&candles[..49], &strategy, 77).is_none());
    assert!(SignalEngine::evaluate_candles(&candles[..50], &strategy, 77).is_some());
    assert!(SignalEngine::evaluate_candles(&[], &strategy, 77).is_none());
}
