//! Evaluation of a strategy's rule tree against a snapshot of indicator
//! values, into a score, a direction, a confidence and risk parameters.

use crate::decimal::{fits_i64, magnitude, narrow, scale_product, scaled_product, Decimal, SCALE};
use crate::indicators::momentum::macd::{
    calculate_macd_default, classify_macd, macd_line_at, macd_signal_at, macd_signal_name,
    macd_state, MACDSignal,
};
use crate::indicators::momentum::rsi::{
    calculate_rsi_default, classify_rsi, rsi_of, rsi_signal_name, rsi_state, RSISignal,
};
use crate::indicators::smoothing::saturated;
use crate::indicators::structure::supertrend::{
    calculate_supertrend_default, supertrend_after, SUPERTREND_MULTIPLIER, SUPERTREND_PERIOD,
};
use crate::indicators::volatility::bollinger::{bollinger_middle, latest_mean, BOLLINGER_PERIOD};
use crate::indicators::trend::ema::{
    calculate_ema, classify_ema_trend, ema_of, ema_signal_name, ema_trend_state, EMATrendSignal,
};
use crate::indicators::volatility::atr::{atr_of, calculate_atr_default};
use crate::models::indicators::{closes_of, Candle};
use crate::models::signal::{reason_models, SignalOutput};
use crate::models::strategy::{
    rule_weight, Comparison, Condition, IndicatorType, LogicalOperator, Rule, RuleResult, RuleType,
    AggregationConfig, Strategy,
};
use crate::signals::decision::{
    classify_direction, direction_for, lemma_risk_fractions_ordered, stop_loss_units,
    take_profit_units, StopLossTakeProfit,
};
use crate::strategies::scoring::{
    aggregate, aggregate_representable, aggregate_score, build_reasons, confidence,
    confidence_units, lemma_confidence_bounds, signal_reasons,
};
use crate::text::same_text;
use vstd::prelude::*;

verus! {

/// The number of candles below which no strategy is evaluated.
pub const MIN_CANDLES: usize = 50;

/// Two values closer than this many units count as equal: one
/// ten-thousandth.
pub const EQUALITY_TOLERANCE: i64 = 10_000;

/// A snapshot of the indicators after the last candle. A value is `None`
/// while its indicator is still in its lead-in.
#[derive(Clone, Copy, Debug, PartialEq, Eq, Structural)]
pub struct IndicatorValues {
    pub rsi_value: Option<Decimal>,
    pub rsi_signal: Option<RSISignal>,
    pub macd_value: Option<Decimal>,
    pub macd_signal_value: Option<Decimal>,
    pub macd_histogram: Option<Decimal>,
    pub macd_signal: Option<MACDSignal>,
    pub ema_fast: Option<Decimal>,
    pub ema_slow: Option<Decimal>,
    pub ema_signal: Option<EMATrendSignal>,
    pub supertrend_value: Option<Decimal>,
    pub bollinger_upper: Option<Decimal>,
    pub bollinger_middle: Option<Decimal>,
    pub bollinger_lower: Option<Decimal>,
    pub atr_value: Option<Decimal>,
    pub funding_rate_value: Option<Decimal>,
    pub current_price: Decimal,
}

impl IndicatorValues {
    /// A snapshot in which only the price is known.
    pub fn new(current_price: Decimal) -> (r: IndicatorValues)
        ensures
            r == (IndicatorValues {
                rsi_value: None,
                rsi_signal: None,
                macd_value: None,
                macd_signal_value: None,
                macd_histogram: None,
                macd_signal: None,
                ema_fast: None,
                ema_slow: None,
                ema_signal: None,
                supertrend_value: None,
                bollinger_upper: None,
                bollinger_middle: None,
                bollinger_lower: None,
                atr_value: None,
                funding_rate_value: None,
                current_price,
            }),
    {
        IndicatorValues {
            rsi_value: None,
            rsi_signal: None,
            macd_value: None,
            macd_signal_value: None,
            macd_histogram: None,
            macd_signal: None,
            ema_fast: None,
            ema_slow: None,
            ema_signal: None,
            supertrend_value: None,
            bollinger_upper: None,
            bollinger_middle: None,
            bollinger_lower: None,
            atr_value: None,
            funding_rate_value: None,
            current_price,
        }
    }
}

/// Why a rule tree could not be evaluated.
#[derive(Clone, Copy, Debug, PartialEq, Eq, Structural)]
pub enum EvaluationError {
    /// A score of the tree is too large to be represented.
    ScoreOutOfRange,
}

/// The evaluator of strategies. It holds no state.
pub struct StrategyEvaluator;

/// The period of the fast average of closes.
pub const EMA_FAST_PERIOD: u32 = 20;

/// The period of the slow average of closes.
pub const EMA_SLOW_PERIOD: u32 = 50;

/// A number of units as a decimal, where there is one.
pub open spec fn as_decimal(units: Option<int>) -> Option<Decimal> {
    match units {
        Some(u) => Some(Decimal { units: u as i64 }),
        None => None,
    }
}

/// The funding rate of the last of the first `n` candles that has one.
pub open spec fn last_funding_rate(candles: Seq<Candle>, n: nat) -> Option<Decimal>
    decreases n,
{
    if n == 0 || n > candles.len() {
        None
    } else {
        match candles[n - 1].funding_rate {
            Some(rate) => Some(rate),
            None => last_funding_rate(candles, (n - 1) as nat),
        }
    }
}

/// The MACD values of a series for the periods twelve, twenty-six and nine:
/// the line, its average and what lies between them; none before
/// thirty-five candles.
pub open spec fn macd_values(candles: Seq<Candle>) -> Option<(int, int, int)> {
    if candles.len() >= 35 {
        match (
            macd_line_at(closes_of(candles), 12, 26, candles.len()),
            macd_signal_at(closes_of(candles), 12, 26, 9, candles.len()),
        ) {
            (Some(line), Some(average)) => Some((line, average, saturated(line - average))),
            _ => None,
        }
    } else {
        None
    }
}

/// The fast and the slow average of the closes of a series, where it has
/// both.
pub open spec fn ema_pair(candles: Seq<Candle>) -> Option<(int, int)> {
    match (ema_of(candles, EMA_FAST_PERIOD as nat), ema_of(candles, EMA_SLOW_PERIOD as nat)) {
        (Some(fast), Some(slow)) => Some((fast, slow)),
        _ => None,
    }
}

/// The line of the MACD and its average for a series, where it has them.
pub open spec fn macd_pair(candles: Seq<Candle>) -> Option<(int, int)> {
    match macd_values(candles) {
        Some(v) => Some((v.0, v.1)),
        None => None,
    }
}

/// The value of the SuperTrend of a series for the period ten and the
/// multiplier three: the lower band while the trend rises, else the upper
/// one.
pub open spec fn supertrend_value_of(candles: Seq<Candle>) -> Option<int> {
    match supertrend_after(
        candles,
        SUPERTREND_PERIOD as nat,
        SUPERTREND_MULTIPLIER as int,
        candles.len(),
    ) {
        Some(bands) => Some(
            if bands.rising {
                bands.lower
            } else {
                bands.upper
            },
        ),
        None => None,
    }
}

/// The indicator values that are computed from a series of candles: the
/// index with its state, the MACD values with their state, the fast and the
/// slow average of closes with the state of their crossover, the value of
/// the SuperTrend, the middle Bollinger band, the average true range, and the
/// last funding rate. The states of the MACD and of the crossover look one
/// candle back. The outer Bollinger bands are left undefined.
pub open spec fn computed_values(candles: Seq<Candle>, current_price: Decimal) -> IndicatorValues {
    IndicatorValues {
        rsi_value: as_decimal(rsi_of(candles, 14)),
        rsi_signal: match rsi_of(candles, 14) {
            Some(v) => Some(rsi_state(v)),
            None => None,
        },
        macd_value: match macd_values(candles) {
            Some(v) => Some(Decimal { units: v.0 as i64 }),
            None => None,
        },
        macd_signal_value: match macd_values(candles) {
            Some(v) => Some(Decimal { units: v.1 as i64 }),
            None => None,
        },
        macd_histogram: match macd_values(candles) {
            Some(v) => Some(Decimal { units: v.2 as i64 }),
            None => None,
        },
        macd_signal: match macd_values(candles) {
            Some(v) => Some(macd_state(macd_pair(candles.drop_last()), v.0, v.1)),
            None => None,
        },
        ema_fast: as_decimal(ema_of(candles, EMA_FAST_PERIOD as nat)),
        ema_slow: as_decimal(ema_of(candles, EMA_SLOW_PERIOD as nat)),
        ema_signal: match ema_pair(candles) {
            Some(v) => Some(
                ema_trend_state(
                    ema_pair(candles.drop_last()),
                    v.0,
                    v.1,
                    current_price.units as int,
                ),
            ),
            None => None,
        },
        supertrend_value: as_decimal(supertrend_value_of(candles)),
        bollinger_upper: None,
        bollinger_middle: as_decimal(latest_mean(candles, BOLLINGER_PERIOD as nat)),
        bollinger_lower: None,
        atr_value: as_decimal(atr_of(candles, 14)),
        funding_rate_value: last_funding_rate(candles, candles.len()),
        current_price,
    }
}

/// The numeric value that a condition on `indicator` reads.
pub open spec fn indicator_value(indicator: IndicatorType, values: IndicatorValues) -> Option<
    Decimal,
> {
    match indicator {
        IndicatorType::RSI => values.rsi_value,
        IndicatorType::MACD => values.macd_value,
        IndicatorType::EMA => values.ema_fast,
        IndicatorType::ATR => values.atr_value,
        IndicatorType::Bollinger => values.bollinger_middle,
        IndicatorType::SuperTrend => values.supertrend_value,
        IndicatorType::FundingRate => values.funding_rate_value,
        IndicatorType::OBV => None,
        IndicatorType::VolumeProfile => None,
        IndicatorType::OpenInterest => None,
    }
}

/// The name of the state that `indicator` is in, for the indicators whose
/// state a condition can ask for.
pub open spec fn indicator_state_name(indicator: IndicatorType, values: IndicatorValues) -> Option<
    Seq<char>,
> {
    match indicator {
        IndicatorType::RSI => match values.rsi_signal {
            Some(s) => rsi_signal_name(s),
            None => None,
        },
        IndicatorType::EMA => match values.ema_signal {
            Some(s) => ema_signal_name(s),
            None => None,
        },
        IndicatorType::MACD => match values.macd_signal {
            Some(s) => macd_signal_name(s),
            None => None,
        },
        _ => None,
    }
}

/// Whether `indicator` is in the state called `name`.
pub open spec fn state_matches(
    indicator: IndicatorType,
    name: Seq<char>,
    values: IndicatorValues,
) -> bool {
    indicator_state_name(indicator, values) == Some(name)
}

/// Whether `value` stands in the given relation to the threshold. Without a
/// threshold nothing holds; equality allows for the tolerance.
pub open spec fn comparison_holds(
    value: int,
    comparison: Comparison,
    threshold: Option<Decimal>,
) -> bool {
    match threshold {
        Some(t) => match comparison {
            Comparison::GreaterThan => value > t.units,
            Comparison::LessThan => value < t.units,
            Comparison::GreaterEqual => value >= t.units,
            Comparison::LessEqual => value <= t.units,
            Comparison::Equal => magnitude(value - t.units) < EQUALITY_TOLERANCE,
            Comparison::NotEqual => magnitude(value - t.units) >= EQUALITY_TOLERANCE,
            Comparison::InRange => false,
            Comparison::SignalState => false,
        },
        None => false,
    }
}

/// Whether a condition passes. A condition on an indicator without a value
/// fails.
pub open spec fn condition_passes(condition: Condition, values: IndicatorValues) -> bool {
    match condition.comparison {
        Comparison::SignalState => match condition.signal_state {
            Some(name) => state_matches(condition.indicator, name@, values),
            None => false,
        },
        _ => match indicator_value(condition.indicator, values) {
            Some(value) => comparison_holds(
                value.units as int,
                condition.comparison,
                condition.threshold,
            ),
            None => false,
        },
    }
}

/// The sum of the scores of some results, in units.
pub open spec fn score_sum(results: Seq<RuleResult>) -> int
    decreases results.len(),
{
    if results.len() == 0 {
        0
    } else {
        score_sum(results.drop_last()) + results.last().score.units
    }
}

/// Whether every result passed.
pub open spec fn all_passed(results: Seq<RuleResult>) -> bool {
    forall|i: int| 0 <= i < results.len() ==> (#[trigger] results[i]).passed
}

/// Whether some result passed.
pub open spec fn any_passed(results: Seq<RuleResult>) -> bool {
    exists|i: int| 0 <= i < results.len() && (#[trigger] results[i]).passed
}

/// Whether a group passes, given the results of its children: under `OR`
/// when any child passed, else when all did.
pub open spec fn group_passed(operator: Option<LogicalOperator>, results: Seq<RuleResult>) -> bool {
    match operator {
        Some(LogicalOperator::OR) => any_passed(results),
        _ => all_passed(results),
    }
}

/// The score of a group whose children's scores add up to `sum`: a weighted
/// group multiplies the sum by its weight.
pub open spec fn group_score(rule: Rule, sum: int) -> int {
    if rule.rule_type == RuleType::WeightedGroup {
        scale_product(rule_weight(rule), sum)
    } else {
        sum
    }
}

/// The result of evaluating a rule.
///
/// A condition that passes scores its weight, one that fails the negative
/// of its weight. A group scores the sum of its children's scores, a weighted
/// group that sum times its weight. A condition node without a condition, a
/// group node without children, and a group none of whose children has a
/// result, have no result. A score that cannot be represented is an error.
pub open spec fn rule_result(rule: Rule, values: IndicatorValues) -> Result<
    Option<RuleResult>,
    EvaluationError,
>
    decreases rule, 0nat,
{
    match rule.rule_type {
        RuleType::Condition => match rule.condition {
            Some(condition) => {
                let passed = condition_passes(condition, values);
                let score = if passed {
                    rule_weight(rule)
                } else {
                    -rule_weight(rule)
                };
                if fits_i64(score) {
                    Ok(
                        Some(
                            RuleResult {
                                rule_id: rule.id,
                                passed,
                                score: Decimal { units: score as i64 },
                                weight: Decimal { units: rule_weight(rule) as i64 },
                            },
                        ),
                    )
                } else {
                    Err(EvaluationError::ScoreOutOfRange)
                }
            },
            None => Ok(None),
        },
        _ => match rule.children {
            Some(children) => match children_results(children@, children@.len(), values) {
                Err(e) => Err(e),
                Ok(results) => if results.len() == 0 {
                    Ok(None)
                } else if fits_i64(score_sum(results)) && fits_i64(
                    group_score(rule, score_sum(results)),
                ) {
                    Ok(
                        Some(
                            RuleResult {
                                rule_id: rule.id,
                                passed: group_passed(rule.operator, results),
                                score: Decimal {
                                    units: group_score(rule, score_sum(results)) as i64,
                                },
                                weight: Decimal { units: rule_weight(rule) as i64 },
                            },
                        ),
                    )
                } else {
                    Err(EvaluationError::ScoreOutOfRange)
                },
            },
            None => Ok(None),
        },
    }
}

/// The results of the first `n` rules of a list, in order, skipping the rules
/// that have no result. The first error among them is the list's.
pub open spec fn children_results(rules: Seq<Rule>, n: nat, values: IndicatorValues) -> Result<
    Seq<RuleResult>,
    EvaluationError,
>
    decreases rules, n,
{
    if n == 0 || n > rules.len() {
        Ok(Seq::empty())
    } else {
        match children_results(rules, (n - 1) as nat, values) {
            Err(e) => Err(e),
            Ok(results) => match rule_result(rules[n - 1], values) {
                Err(e) => Err(e),
                Ok(Some(result)) => Ok(results.push(result)),
                Ok(None) => Ok(results),
            },
        }
    }
}

/// The results of all rules of a list.
pub open spec fn rules_results(rules: Seq<Rule>, values: IndicatorValues) -> Result<
    Seq<RuleResult>,
    EvaluationError,
> {
    children_results(rules, rules.len(), values)
}

/// The rule results on which a signal rests, where evaluating the strategy
/// gives a signal: there are enough candles, the rules can be evaluated,
/// at least one of them has a result, and the total score can be
/// represented.
pub open spec fn signal_basis(
    strategy: Strategy,
    candle_count: nat,
    values: IndicatorValues,
) -> Option<Seq<RuleResult>> {
    if candle_count < MIN_CANDLES {
        None
    } else {
        match rules_results(strategy.config.rules@, values) {
            Ok(results) => if results.len() > 0 && aggregate_representable(
                results,
                strategy.config.aggregation.method,
            ) {
                Some(results)
            } else {
                None
            },
            Err(_) => None,
        }
    }
}

/// Whether `out` is the signal of a strategy whose rules gave `results`: the
/// direction of the total score, its confidence, the risk fractions of the
/// last close, the reasons of the rules that passed, the strategy's symbol,
/// the last close as price, and the given time.
pub open spec fn signal_describes(
    out: SignalOutput,
    strategy: Strategy,
    candles: Seq<Candle>,
    results: Seq<RuleResult>,
    values: IndicatorValues,
    now_ms: i64,
) -> bool {
    let total = aggregate_score(results, strategy.config.aggregation.method);
    let direction = direction_for(total, strategy.config.aggregation.thresholds);
    let price = candles.last().close;
    &&& out.direction == direction
    &&& out.confidence.units == confidence_units(total, results)
    &&& out.recommended_sl_pct.units == stop_loss_units(
        direction,
        values.atr_value,
        price.units as int,
    )
    &&& out.recommended_tp_pct.units == take_profit_units(
        direction,
        values.atr_value,
        price.units as int,
    )
    &&& reason_models(out.reasons@) == signal_reasons(results)
    &&& out.symbol == strategy.symbol
    &&& out.price == price
    &&& out.timestamp == now_ms
}

/// Whether `r` is what evaluating the strategy gives.
pub open spec fn evaluation_yields(
    r: Option<SignalOutput>,
    strategy: Strategy,
    candles: Seq<Candle>,
    values: IndicatorValues,
    now_ms: i64,
) -> bool {
    match r {
        Some(out) => match signal_basis(strategy, candles.len(), values) {
            Some(results) => signal_describes(out, strategy, candles, results, values, now_ms),
            None => false,
        },
        None => signal_basis(strategy, candles.len(), values) is None,
    }
}

/// Every signal has a confidence between zero and one, and a stop-loss
/// fraction that is not negative and not above its take-profit fraction.
pub proof fn lemma_signal_within_bounds(
    out: SignalOutput,
    strategy: Strategy,
    candles: Seq<Candle>,
    results: Seq<RuleResult>,
    values: IndicatorValues,
    now_ms: i64,
)
    requires
        signal_describes(out, strategy, candles, results, values, now_ms),
    ensures
        0 <= out.confidence.units <= SCALE,
        0 <= out.recommended_sl_pct.units <= out.recommended_tp_pct.units,
{
    let total = aggregate_score(results, strategy.config.aggregation.method);
    lemma_confidence_bounds(total, results);
    match values.atr_value {
        Some(a) => {
            lemma_risk_fractions_ordered(a.units as int, candles.last().close.units as int);
        },
        None => {},
    }
}

/// With fewer than `MIN_CANDLES` candles there is no signal.
pub proof fn lemma_too_few_candles_give_nothing(
    r: Option<SignalOutput>,
    strategy: Strategy,
    candles: Seq<Candle>,
    values: IndicatorValues,
    now_ms: i64,
)
    requires
        evaluation_yields(r, strategy, candles, values, now_ms),
        candles.len() < MIN_CANDLES,
    ensures
        r is None,
{
}

/// Evaluation is a function of its inputs: what evaluating a strategy twice
/// on the same candles, indicator values and time yields is the same in every
/// part.
pub proof fn lemma_evaluation_deterministic(
    first: Option<SignalOutput>,
    second: Option<SignalOutput>,
    strategy: Strategy,
    candles: Seq<Candle>,
    values: IndicatorValues,
    now_ms: i64,
)
    requires
        evaluation_yields(first, strategy, candles, values, now_ms),
        evaluation_yields(second, strategy, candles, values, now_ms),
    ensures
        first is Some <==> second is Some,
        first is Some ==> {
            let a = first->0;
            let b = second->0;
            &&& a.direction == b.direction
            &&& a.confidence == b.confidence
            &&& a.recommended_sl_pct == b.recommended_sl_pct
            &&& a.recommended_tp_pct == b.recommended_tp_pct
            &&& reason_models(a.reasons@) == reason_models(b.reasons@)
            &&& a.symbol == b.symbol
            &&& a.price == b.price
            &&& a.timestamp == b.timestamp
        },
{
}

/// A condition on an indicator that has neither a value nor a state fails,
/// whatever it compares.
pub proof fn lemma_undefined_indicator_fails(condition: Condition, values: IndicatorValues)
    requires
        indicator_value(condition.indicator, values) is None,
        indicator_state_name(condition.indicator, values) is None,
    ensures
        !condition_passes(condition, values),
{
}

/// Before fourteen candles the index is undefined, and every condition on
/// it fails.
pub proof fn lemma_rsi_lead_in(candles: Seq<Candle>, price: Decimal, condition: Condition)
    requires
        candles.len() < 14,
        condition.indicator == IndicatorType::RSI,
    ensures
        computed_values(candles, price).rsi_value is None,
        !condition_passes(condition, computed_values(candles, price)),
{
}

/// Once the first rules of a list give an error, the whole list gives it.
pub proof fn lemma_children_error_stays(rules: Seq<Rule>, n: nat, m: nat, values: IndicatorValues)
    requires
        n <= m <= rules.len(),
        children_results(rules, n, values) is Err,
    ensures
        children_results(rules, m, values) == children_results(rules, n, values),
    decreases m,
{
    if n < m {
        lemma_children_error_stays(rules, n, (m - 1) as nat, values);
    }
}

/// The sum of the scores of some results.
pub fn sum_scores(results: &Vec<RuleResult>) -> (r: i128)
    ensures
        r == score_sum(results@),
{
    let mut acc: i128 = 0;
    let mut i: usize = 0;
    assert(results@.take(0) =~= Seq::<RuleResult>::empty());
    while i < results.len()
        invariant
            i <= results.len(),
            acc == score_sum(results@.take(i as int)),
            -0x8000_0000_0000_0000 * i <= acc <= 0x8000_0000_0000_0000 * i,
        decreases results.len() - i,
    {
        proof {
            let next = results@.take(i as int + 1);
            assert(next.drop_last() =~= results@.take(i as int));
            assert(next.last() == results@[i as int]);
            assert(0x8000_0000_0000_0000 * (i + 1) <= 0x8000_0000_0000_0000
                * 0x1_0000_0000_0000_0000) by (nonlinear_arith)
                requires
                    i + 1 <= 0x1_0000_0000_0000_0000,
            ;
        }
        acc = acc + results[i].score.units as i128;
        i = i + 1;
    }
    assert(results@.take(i as int) =~= results@);
    acc
}

/// Whether every result passed.
pub fn every_passed(results: &Vec<RuleResult>) -> (r: bool)
    ensures
        r == all_passed(results@),
{
    let mut i: usize = 0;
    while i < results.len()
        invariant
            i <= results.len(),
            forall|j: int| 0 <= j < i ==> (#[trigger] results@[j]).passed,
        decreases results.len() - i,
    {
        if !results[i].passed {
            return false;
        }
        i = i + 1;
    }
    true
}

/// Whether some result passed.
pub fn some_passed(results: &Vec<RuleResult>) -> (r: bool)
    ensures
        r == any_passed(results@),
{
    let mut i: usize = 0;
    while i < results.len()
        invariant
            i <= results.len(),
            forall|j: int| 0 <= j < i ==> !(#[trigger] results@[j]).passed,
        decreases results.len() - i,
    {
        if results[i].passed {
            return true;
        }
        i = i + 1;
    }
    false
}

/// The funding rate of the last candle of a series that has one.
pub fn latest_funding_rate(candles: &[Candle]) -> (r: Option<Decimal>)
    ensures
        r == last_funding_rate(candles@, candles@.len()),
{
    let mut n: usize = candles.len();
    while n > 0
        invariant
            n <= candles.len(),
            last_funding_rate(candles@, candles@.len()) == last_funding_rate(candles@, n as nat),
        decreases n,
    {
        match candles[n - 1].funding_rate {
            Some(rate) => {
                return Some(rate);
            },
            None => {},
        }
        n = n - 1;
    }
    None
}

impl StrategyEvaluator {
    /// Computes from a series of candles, oldest first, the indicator values
    /// that follow from exact arithmetic. A value is undefined while its
    /// indicator has not seen enough candles.
    pub fn compute_indicators(candles: &[Candle], current_price: Decimal) -> (r: IndicatorValues)
        ensures
            r == computed_values(candles@, current_price),
            candles@.len() < 14 ==> r.rsi_value is None && r.rsi_signal is None,
    {
        let rsi = calculate_rsi_default(candles);
        let macd = calculate_macd_default(candles);
        let fast = calculate_ema(candles, EMA_FAST_PERIOD);
        let slow = calculate_ema(candles, EMA_SLOW_PERIOD);
        let atr = calculate_atr_default(candles);
        let supertrend = calculate_supertrend_default(candles);
        let earlier: &[Candle] = if candles.len() > 0 {
            vstd::slice::slice_subrange(candles, 0, candles.len() - 1)
        } else {
            candles
        };
        assert(candles@.len() > 0 ==> earlier@ == candles@.drop_last());
        let macd_before = calculate_macd_default(earlier);
        let pair_before = match (
            calculate_ema(earlier, EMA_FAST_PERIOD),
            calculate_ema(earlier, EMA_SLOW_PERIOD),
        ) {
            (Some(f), Some(s)) => Some((f.value, s.value)),
            _ => None,
        };
        IndicatorValues {
            rsi_value: match rsi {
                Some(v) => Some(v.value),
                None => None,
            },
            rsi_signal: match rsi {
                Some(v) => Some(classify_rsi(v.value)),
                None => None,
            },
            macd_value: match macd {
                Some(v) => Some(v.macd),
                None => None,
            },
            macd_signal_value: match macd {
                Some(v) => Some(v.signal),
                None => None,
            },
            macd_histogram: match macd {
                Some(v) => Some(v.histogram),
                None => None,
            },
            macd_signal: match macd {
                Some(v) => Some(classify_macd(macd_before, v)),
                None => None,
            },
            ema_fast: match fast {
                Some(v) => Some(v.value),
                None => None,
            },
            ema_slow: match slow {
                Some(v) => Some(v.value),
                None => None,
            },
            ema_signal: match (fast, slow) {
                (Some(f), Some(s)) => Some(
                    classify_ema_trend(pair_before, f.value, s.value, current_price),
                ),
                _ => None,
            },
            supertrend_value: match supertrend {
                Some(v) => Some(v.value),
                None => None,
            },
            bollinger_upper: None,
            bollinger_middle: bollinger_middle(candles, BOLLINGER_PERIOD),
            bollinger_lower: None,
            atr_value: match atr {
                Some(v) => Some(v.value),
                None => None,
            },
            funding_rate_value: latest_funding_rate(candles),
            current_price,
        }
    }

    /// The numeric value that a condition on `indicator` reads, if the
    /// indicator has one.
    pub fn get_indicator_value(indicator: IndicatorType, values: &IndicatorValues) -> (r: Option<
        Decimal,
    >)
        ensures
            r == indicator_value(indicator, *values),
    {
        match indicator {
            IndicatorType::RSI => values.rsi_value,
            IndicatorType::MACD => values.macd_value,
            IndicatorType::EMA => values.ema_fast,
            IndicatorType::ATR => values.atr_value,
            IndicatorType::Bollinger => values.bollinger_middle,
            IndicatorType::SuperTrend => values.supertrend_value,
            IndicatorType::FundingRate => values.funding_rate_value,
            _ => None,
        }
    }

    /// Whether `indicator` is in the state called `signal_state`. Only the
    /// RSI, the EMA crossover and the MACD report states by name.
    pub fn check_signal_state(
        indicator: IndicatorType,
        signal_state: &str,
        values: &IndicatorValues,
    ) -> (r: bool)
        ensures
            r == state_matches(indicator, signal_state@, *values),
    {
        let name: Option<&'static str> = match indicator {
            IndicatorType::RSI => match values.rsi_signal {
                Some(signal) => signal.name(),
                None => None,
            },
            IndicatorType::EMA => match values.ema_signal {
                Some(signal) => signal.name(),
                None => None,
            },
            IndicatorType::MACD => match values.macd_signal {
                Some(signal) => signal.name(),
                None => None,
            },
            _ => None,
        };
        match name {
            Some(n) => same_text(signal_state, n),
            None => false,
        }
    }

    /// Whether `value` stands in the given relation to the threshold.
    pub fn compare_value(value: Decimal, comparison: Comparison, threshold: Option<Decimal>) -> (r:
        bool)
        ensures
            r == comparison_holds(value.units as int, comparison, threshold),
    {
        match threshold {
            Some(t) => {
                let difference: i128 = value.units as i128 - t.units as i128;
                let distance: i128 = if difference >= 0 {
                    difference
                } else {
                    -difference
                };
                match comparison {
                    Comparison::GreaterThan => value.units > t.units,
                    Comparison::LessThan => value.units < t.units,
                    Comparison::GreaterEqual => value.units >= t.units,
                    Comparison::LessEqual => value.units <= t.units,
                    Comparison::Equal => distance < EQUALITY_TOLERANCE as i128,
                    Comparison::NotEqual => distance >= EQUALITY_TOLERANCE as i128,
                    _ => false,
                }
            },
            None => false,
        }
    }

    /// Whether a condition passes against the indicator values.
    pub fn evaluate_condition(condition: &Condition, values: &IndicatorValues) -> (r: bool)
        ensures
            r == condition_passes(*condition, *values),
    {
        match condition.comparison {
            Comparison::SignalState => match &condition.signal_state {
                Some(name) => Self::check_signal_state(condition.indicator, name.as_str(), values),
                None => false,
            },
            _ => match Self::get_indicator_value(condition.indicator, values) {
                Some(value) => Self::compare_value(value, condition.comparison, condition.threshold),
                None => false,
            },
        }
    }

    /// Evaluates a strategy on a series of candles, oldest first, and the
    /// indicator values computed from them, at the time `now_ms`.
    ///
    /// There is no signal with fewer than `MIN_CANDLES` candles, where no
    /// rule has a result, and where a score cannot be represented.
    pub fn evaluate_strategy(
        strategy: &Strategy,
        candles: &[Candle],
        values: &IndicatorValues,
        now_ms: i64,
    ) -> (r: Option<SignalOutput>)
        ensures
            evaluation_yields(r, *strategy, candles@, *values, now_ms),
            candles@.len() < MIN_CANDLES ==> r is None,
            r matches Some(out) ==> 0 <= out.confidence.units <= SCALE && 0
                <= out.recommended_sl_pct.units <= out.recommended_tp_pct.units,
    {
        if candles.len() < MIN_CANDLES {
            return None;
        }
        let price = candles[candles.len() - 1].close;
        let results = match Self::evaluate_rules(&strategy.config.rules, values) {
            Ok(results) => results,
            Err(_) => {
                return None;
            },
        };
        if results.len() == 0 {
            return None;
        }
        let total = match Self::aggregate_results(&results, &strategy.config.aggregation) {
            Some(total) => total,
            None => {
                return None;
            },
        };
        let direction = classify_direction(total, &strategy.config.aggregation.thresholds);
        let (sl_pct, tp_pct) = StopLossTakeProfit::for_signal(direction, values.atr_value, price);
        Some(
            SignalOutput {
                direction,
                confidence: confidence(total, &results),
                recommended_sl_pct: sl_pct,
                recommended_tp_pct: tp_pct,
                reasons: build_reasons(&results),
                symbol: strategy.symbol.clone(),
                price,
                timestamp: now_ms,
            },
        )
    }

    /// The total score of rule results under an aggregation, where it can be
    /// represented.
    pub fn aggregate_results(results: &Vec<RuleResult>, config: &AggregationConfig) -> (r: Option<
        Decimal,
    >)
        ensures
            aggregate_representable(results@, config.method) ==> r == Some(
                Decimal { units: aggregate_score(results@, config.method) as i64 },
            ),
            !aggregate_representable(results@, config.method) ==> r is None,
    {
        aggregate(results, config.method)
    }

    /// Evaluates a rule: a condition, or a group with its children.
    pub fn evaluate_rule(rule: &Rule, values: &IndicatorValues) -> (r: Result<
        Option<RuleResult>,
        EvaluationError,
    >)
        ensures
            r == rule_result(*rule, *values),
        decreases *rule,
    {
        let weight = rule.effective_weight();
        match rule.rule_type {
            RuleType::Condition => match &rule.condition {
                Some(condition) => {
                    let passed = Self::evaluate_condition(condition, values);
                    let score: i128 = if passed {
                        weight.units as i128
                    } else {
                        -(weight.units as i128)
                    };
                    match narrow(score) {
                        Some(s) => Ok(Some(RuleResult::new(rule.id.clone(), passed, s, weight))),
                        None => Err(EvaluationError::ScoreOutOfRange),
                    }
                },
                None => Ok(None),
            },
            _ => match &rule.children {
                Some(children) => {
                    assert(decreases_to!(rule.children => rule.children->0));
                    let results = match Self::evaluate_rules(children, values) {
                        Ok(results) => results,
                        Err(e) => {
                            return Err(e);
                        },
                    };
                    if results.len() == 0 {
                        return Ok(None);
                    }
                    let passed = match rule.operator {
                        Some(LogicalOperator::OR) => some_passed(&results),
                        _ => every_passed(&results),
                    };
                    let sum = match narrow(sum_scores(&results)) {
                        Some(s) => s,
                        None => {
                            return Err(EvaluationError::ScoreOutOfRange);
                        },
                    };
                    let score = match rule.rule_type {
                        RuleType::WeightedGroup => match narrow(
                            scaled_product(weight.units, sum.units),
                        ) {
                            Some(s) => s,
                            None => {
                                return Err(EvaluationError::ScoreOutOfRange);
                            },
                        },
                        _ => sum,
                    };
                    Ok(Some(RuleResult::new(rule.id.clone(), passed, score, weight)))
                },
                None => Ok(None),
            },
        }
    }

    /// Evaluates the rules of a list in order and collects the results of
    /// those that have one.
    pub fn evaluate_rules(rules: &Vec<Rule>, values: &IndicatorValues) -> (r: Result<
        Vec<RuleResult>,
        EvaluationError,
    >)
        ensures
            match r {
                Ok(results) => rules_results(rules@, *values) == Ok::<
                    Seq<RuleResult>,
                    EvaluationError,
                >(results@),
                Err(e) => rules_results(rules@, *values) == Err::<
                    Seq<RuleResult>,
                    EvaluationError,
                >(e),
            },
        decreases *rules,
    {
        let mut results: Vec<RuleResult> = Vec::new();
        let mut i: usize = 0;
        while i < rules.len()
            invariant
                i <= rules.len(),
                children_results(rules@, i as nat, *values) == Ok::<
                    Seq<RuleResult>,
                    EvaluationError,
                >(results@),
            decreases rules.len() - i,
        {
            assert(decreases_to!(*rules => rules[i as int]));
            match Self::evaluate_rule(&rules[i], values) {
                Err(e) => {
                    proof {
                        lemma_children_error_stays(rules@, (i + 1) as nat, rules@.len(), *values);
                    }
                    return Err(e);
                },
                Ok(Some(result)) => {
                    results.push(result);
                },
                Ok(None) => {},
            }
            i = i + 1;
        }
        Ok(results)
    }
}

} // verus!
