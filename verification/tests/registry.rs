use perptrix::config::CategoryWeights as ConfiguredWeights;
use perptrix::decimal::Decimal;
use perptrix::indicators::momentum::macd::MACDSignal;
use perptrix::indicators::momentum::rsi::RSISignal;
use perptrix::indicators::registry::{IndicatorCategory, IndicatorRegistry};
use perptrix::indicators::trend::ema::EMATrendSignal;
use perptrix::models::signal::SignalDirection;
use perptrix::signals::categories::CategoryWeights;
use perptrix::signals::decision::{classify_direction, StopLossTakeProfit};
use perptrix::models::strategy::SignalThresholds;

#[test]
fn all_categories_each_once() {
    assert_eq!(
        IndicatorRegistry::all_categories(),
        vec![
            IndicatorCategory::Momentum,
            IndicatorCategory::Trend,
            IndicatorCategory::Volatility,
            IndicatorCategory::Volume,
            IndicatorCategory::Perp,
        ]
    );
}

#[test]
fn registry_gives_each_category_its_weight() {
    let d = |t: &str| Decimal::parse(t).unwrap();
    let registry = IndicatorRegistry::with_weights(ConfiguredWeights {
        momentum: d("0.1"),
        trend: d("0.2"),
        volatility: d("0.3"),
        volume: d("0.15"),
        perp: d("0.25"),
    });
    assert_eq!(registry.category_weight(IndicatorCategory::Momentum), d("0.1"));
    assert_eq!(registry.category_weight(IndicatorCategory::Trend), d("0.2"));
    assert_eq!(registry.category_weight(IndicatorCategory::Volatility), d("0.3"));
    assert_eq!(registry.category_weight(IndicatorCategory::Volume), d("0.15"));
    assert_eq!(registry.category_weight(IndicatorCategory::Perp), d("0.25"));
}

#[test]
fn fixed_category_weights_add_up_to_one() {
    assert!(CategoryWeights::verify());
}

#[test]
fn states_have_names() {
    assert_eq!(RSISignal::Oversold.name(), Some("Oversold"));
    assert_eq!(RSISignal::BearishDivergence.name(), Some("BearishDivergence"));
    assert_eq!(RSISignal::Neutral.name(), None);
    assert_eq!(MACDSignal::BullishMomentum.name(), Some("BullishMomentum"));
    assert_eq!(MACDSignal::Neutral.name(), None);
    assert_eq!(EMATrendSignal::StrongDowntrend.name(), Some("StrongDowntrend"));
    assert_eq!(EMATrendSignal::Neutral.name(), None);
}

#[test]
fn directions_are_stored_by_name() {
    for d in [SignalDirection::Long, SignalDirection::Short, SignalDirection::Neutral] {
        assert_eq!(SignalDirection::from_name(d.as_str()), d);
    }
    assert_eq!(SignalDirection::Long.as_str(), "Long");
    assert_eq!(SignalDirection::from_name("long"), SignalDirection::Neutral);
    assert_eq!(SignalDirection::from_name(""), SignalDirection::Neutral);
}

#[test]
fn direction_thresholds_are_inclusive() {
    let t = SignalThresholds { long_min: 2, short_max: -3 };
    let d = |x: &str| Decimal::parse(x).unwrap();
    assert_eq!(classify_direction(d("2"), &t), SignalDirection::Long);
    assert_eq!(classify_direction(d("1.99999999"), &t), SignalDirection::Neutral);
    assert_eq!(classify_direction(d("-2.99999999"), &t), SignalDirection::Neutral);
    assert_eq!(classify_direction(d("-3"), &t), SignalDirection::Short);
    assert_eq!(classify_direction(d("0"), &t), SignalDirection::Neutral);
    // Where the thresholds overlap, long is decided first.
    let inverted = SignalThresholds { long_min: -1, short_max: 1 };
    assert_eq!(classify_direction(d("0"), &inverted), SignalDirection::Long);
    assert_eq!(classify_direction(d("-2"), &inverted), SignalDirection::Short);
}

#[test]
fn risk_fractions_from_the_average_true_range() {
    let d = |x: &str| Decimal::parse(x).unwrap();
    assert_eq!(StopLossTakeProfit::calculate_from_atr(d("2"), d("100")), (d("0.03"), d("0.06")));
    assert_eq!(StopLossTakeProfit::calculate_from_atr(d("0"), d("100")), (d("0"), d("0")));
    assert_eq!(StopLossTakeProfit::calculate_from_atr(d("-1"), d("100")), (d("0"), d("0")));
    assert_eq!(StopLossTakeProfit::calculate_from_atr(d("2"), d("0")), (d("0"), d("0")));
    let (sl, tp) = StopLossTakeProfit::calculate_from_atr(Decimal::new(i64::MAX), Decimal::new(1));
    assert_eq!((sl, tp), (Decimal::new(i64::MAX), Decimal::new(i64::MAX)));
    assert_eq!(StopLossTakeProfit::for_signal(SignalDirection::Neutral, Some(d("2")), d("100")), (d("0"), d("0")));
    assert_eq!(StopLossTakeProfit::for_signal(SignalDirection::Short, Some(d("2")), d("100")), (d("0.03"), d("0.06")));
    assert_eq!(StopLossTakeProfit::for_signal(SignalDirection::Long, None, d("100")), (d("0"), d("0")));
}
