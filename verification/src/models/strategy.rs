//! Strategies: a tree of rules over technical indicators and the way their
//! results are combined into one score.

use crate::decimal::{Decimal, SCALE};
use vstd::prelude::*;

verus! {

/// A named, persisted rule tree with its aggregation policy, bound to one
/// symbol. Times are Unix milliseconds.
#[derive(Clone, Debug, PartialEq, Eq)]
pub struct Strategy {
    pub id: Option<i64>,
    pub name: String,
    pub symbol: String,
    pub config: StrategyConfig,
    pub created_at: i64,
    pub updated_at: i64,
}

/// The rules of a strategy and how their results are aggregated.
#[derive(Clone, Debug, PartialEq, Eq)]
pub struct StrategyConfig {
    pub rules: Vec<Rule>,
    pub aggregation: AggregationConfig,
}

/// One node of the rule tree: a condition, or a group of rules.
///
/// `weight` defaults to one. `operator` is read for groups and defaults to
/// `AND`. A condition node reads `condition`, a group node `children`.
#[derive(Debug, PartialEq, Eq)]
pub struct Rule {
    pub id: String,
    pub rule_type: RuleType,
    pub weight: Option<Decimal>,
    pub operator: Option<LogicalOperator>,
    pub condition: Option<Condition>,
    pub children: Option<Vec<Rule>>,
}

/// The kind of a rule node.
#[derive(Clone, Copy, Debug, PartialEq, Eq, Structural)]
pub enum RuleType {
    Condition,
    Group,
    WeightedGroup,
}

/// A parameter of an indicator, carried with a condition and not read by
/// the evaluation.
#[derive(Clone, Debug, PartialEq, Eq)]
pub struct IndicatorParam {
    pub name: String,
    pub value: String,
}

/// A comparison of one indicator against a threshold or a signal state.
#[derive(Clone, Debug, PartialEq, Eq)]
pub struct Condition {
    pub indicator: IndicatorType,
    pub indicator_params: Vec<IndicatorParam>,
    pub comparison: Comparison,
    pub threshold: Option<Decimal>,
    pub signal_state: Option<String>,
}

/// The indicators that a condition can refer to.
#[derive(Clone, Copy, Debug, PartialEq, Eq, Structural)]
pub enum IndicatorType {
    MACD,
    RSI,
    EMA,
    SuperTrend,
    Bollinger,
    ATR,
    OBV,
    VolumeProfile,
    FundingRate,
    OpenInterest,
}

/// The comparisons that a condition can make.
#[derive(Clone, Copy, Debug, PartialEq, Eq, Structural)]
pub enum Comparison {
    GreaterThan,
    LessThan,
    GreaterEqual,
    LessEqual,
    Equal,
    NotEqual,
    InRange,
    SignalState,
}

/// How a group combines the outcomes of its children.
#[derive(Clone, Copy, Debug, PartialEq, Eq, Structural)]
pub enum LogicalOperator {
    AND,
    OR,
}

/// How the results of the top-level rules become one score, and where the
/// score turns into a direction.
#[derive(Clone, Copy, Debug, PartialEq, Eq, Structural)]
pub struct AggregationConfig {
    pub method: AggregationMethod,
    pub thresholds: SignalThresholds,
}

/// The ways of combining rule results.
#[derive(Clone, Copy, Debug, PartialEq, Eq, Structural)]
pub enum AggregationMethod {
    Sum,
    WeightedSum,
    Majority,
    All,
    Any,
}

/// Score thresholds, in whole units: at `long_min` and above the signal is
/// long, at `short_max` and below it is short.
#[derive(Clone, Copy, Debug, PartialEq, Eq, Structural)]
pub struct SignalThresholds {
    pub long_min: i32,
    pub short_max: i32,
}

/// The outcome of one rule: whether it passed, what it adds to the score, and
/// the weight it carries.
#[derive(Clone, Debug, PartialEq, Eq)]
pub struct RuleResult {
    pub rule_id: String,
    pub passed: bool,
    pub score: Decimal,
    pub weight: Decimal,
}

/// Why a strategy configuration is refused.
#[derive(Clone, Copy, Debug, PartialEq, Eq, Structural)]
pub enum ConfigError {
    /// `short_max` is not below `long_min`.
    ThresholdsInverted,
    /// Some rule of the tree has a weight below zero.
    NegativeWeight,
}

impl Clone for Rule {
    fn clone(&self) -> (r: Rule)
        decreases *self,
    {
        let children = match &self.children {
            Some(list) => {
                let mut copies: Vec<Rule> = Vec::new();
                let mut i: usize = 0;
                while i < list.len()
                    invariant
                        i <= list.len(),
                        self.children == Some(*list),
                    decreases list.len() - i,
                {
                    assert(decreases_to!(self.children => self.children->0));
                    assert(decreases_to!(*list => list[i as int]));
                    copies.push(list[i].clone());
                    i = i + 1;
                }
                Some(copies)
            },
            None => None,
        };
        Rule {
            id: self.id.clone(),
            rule_type: self.rule_type,
            weight: self.weight,
            operator: self.operator,
            condition: self.condition.clone(),
            children,
        }
    }
}

impl RuleResult {
    pub fn new(rule_id: String, passed: bool, score: Decimal, weight: Decimal) -> (r: RuleResult)
        ensures
            r == (RuleResult { rule_id, passed, score, weight }),
    {
        RuleResult { rule_id, passed, score, weight }
    }
}

/// The weight of a rule in units: its own, or one where it names none.
pub open spec fn rule_weight(rule: Rule) -> int {
    match rule.weight {
        Some(w) => w.units as int,
        None => SCALE as int,
    }
}

/// Whether no rule of the tree under `rule` has a negative weight.
pub open spec fn weights_valid(rule: Rule) -> bool
    decreases rule, 0nat,
{
    &&& rule_weight(rule) >= 0
    &&& match rule.children {
        Some(children) => weights_valid_upto(children@, children@.len()),
        None => true,
    }
}

/// Whether none of the first `n` trees of `rules` holds a negative weight.
pub open spec fn weights_valid_upto(rules: Seq<Rule>, n: nat) -> bool
    decreases rules, n,
{
    if n == 0 || n > rules.len() {
        true
    } else {
        weights_valid_upto(rules, (n - 1) as nat) && weights_valid(rules[n - 1])
    }
}

/// Whether a configuration is valid: the thresholds are ordered and no
/// weight is negative.
pub open spec fn config_valid(config: StrategyConfig) -> bool {
    &&& config.aggregation.thresholds.short_max < config.aggregation.thresholds.long_min
    &&& weights_valid_upto(config.rules@, config.rules@.len())
}

/// The changes that an update makes to a strategy: each part that is given
/// takes the place of the strategy's.
#[derive(Clone, Debug, PartialEq, Eq)]
pub struct StrategyUpdate {
    pub name: Option<String>,
    pub symbol: Option<String>,
    pub config: Option<StrategyConfig>,
}

impl Strategy {
    /// The strategy after an update at the time `now_ms`. Its id and the time
    /// of its creation stay; the time of its last update never goes back.
    pub fn updated(self, update: StrategyUpdate, now_ms: i64) -> (r: Strategy)
        ensures
            r.id == self.id,
            r.created_at == self.created_at,
            r.updated_at >= self.updated_at,
            r.updated_at == if now_ms >= self.updated_at {
                now_ms
            } else {
                self.updated_at
            },
            r.name == match update.name {
                Some(name) => name,
                None => self.name,
            },
            r.symbol == match update.symbol {
                Some(symbol) => symbol,
                None => self.symbol,
            },
            r.config == match update.config {
                Some(config) => config,
                None => self.config,
            },
    {
        Strategy {
            id: self.id,
            name: match update.name {
                Some(name) => name,
                None => self.name,
            },
            symbol: match update.symbol {
                Some(symbol) => symbol,
                None => self.symbol,
            },
            config: match update.config {
                Some(config) => config,
                None => self.config,
            },
            created_at: self.created_at,
            updated_at: if now_ms >= self.updated_at {
                now_ms
            } else {
                self.updated_at
            },
        }
    }
}

impl SignalThresholds {
    /// Whether `short_max` lies below `long_min`.
    pub fn is_ordered(&self) -> (r: bool)
        ensures
            r == (self.short_max < self.long_min),
    {
        self.short_max < self.long_min
    }
}

impl Rule {
    /// The weight of this rule: its own, or one where it names none.
    pub fn effective_weight(&self) -> (r: Decimal)
        ensures
            r.units == rule_weight(*self),
    {
        match self.weight {
            Some(w) => w,
            None => Decimal::one(),
        }
    }

    /// Whether no rule of this tree has a negative weight.
    pub fn has_valid_weights(&self) -> (r: bool)
        ensures
            r == weights_valid(*self),
        decreases *self,
    {
        if self.effective_weight().units < 0 {
            return false;
        }
        match &self.children {
            Some(children) => {
                assert(decreases_to!(self.children => self.children->0));
                all_weights_valid(children)
            },
            None => true,
        }
    }
}

/// Whether none of the trees of `rules` holds a negative weight.
pub fn all_weights_valid(rules: &Vec<Rule>) -> (r: bool)
    ensures
        r == weights_valid_upto(rules@, rules@.len()),
    decreases *rules,
{
    let mut i: usize = 0;
    while i < rules.len()
        invariant
            i <= rules.len(),
            weights_valid_upto(rules@, i as nat),
        decreases rules.len() - i,
    {
        assert(decreases_to!(*rules => rules[i as int]));
        if !rules[i].has_valid_weights() {
            proof {
                lemma_weights_invalid_from(rules@, (i + 1) as nat, rules@.len());
            }
            return false;
        }
        i = i + 1;
    }
    true
}

/// Once a prefix holds a negative weight, every longer prefix does.
pub proof fn lemma_weights_invalid_from(rules: Seq<Rule>, n: nat, m: nat)
    requires
        n <= m <= rules.len(),
        !weights_valid_upto(rules, n),
    ensures
        !weights_valid_upto(rules, m),
    decreases m,
{
    if n < m {
        lemma_weights_invalid_from(rules, n, (m - 1) as nat);
    }
}

impl StrategyConfig {
    /// Checks the configuration: inverted thresholds are reported first, then
    /// negative weights.
    pub fn validate(&self) -> (r: Result<(), ConfigError>)
        ensures
            r is Ok <==> config_valid(*self),
            r == Err::<(), ConfigError>(ConfigError::ThresholdsInverted)
                <==> self.aggregation.thresholds.short_max
                >= self.aggregation.thresholds.long_min,
            r == Err::<(), ConfigError>(ConfigError::NegativeWeight) <==> (
            self.aggregation.thresholds.short_max < self.aggregation.thresholds.long_min
                && !weights_valid_upto(self.rules@, self.rules@.len())),
    {
        if !self.aggregation.thresholds.is_ordered() {
            Err(ConfigError::ThresholdsInverted)
        } else if !all_weights_valid(&self.rules) {
            Err(ConfigError::NegativeWeight)
        } else {
            Ok(())
        }
    }
}

} // verus!
