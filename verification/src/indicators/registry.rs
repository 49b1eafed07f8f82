//! The categories of indicators and their weights.

use crate::config::CategoryWeights;
use crate::decimal::Decimal;
use vstd::prelude::*;

verus! {

/// The category of an indicator.
#[derive(Clone, Copy, Debug, PartialEq, Eq, Hash, Structural)]
pub enum IndicatorCategory {
    Momentum,
    Trend,
    Volatility,
    Volume,
    Perp,
}

/// What every indicator tells about itself.
pub trait Indicator {
    /// The category that the indicator belongs to.
    fn category(&self) -> IndicatorCategory;

    /// The name of the indicator.
    fn name(&self) -> &'static str;
}

/// The registry that holds the weight of each category.
pub struct IndicatorRegistry {
    weights: CategoryWeights,
}

/// The weight that `weights` gives to `category`.
pub open spec fn weight_of(weights: CategoryWeights, category: IndicatorCategory) -> Decimal {
    match category {
        IndicatorCategory::Momentum => weights.momentum,
        IndicatorCategory::Trend => weights.trend,
        IndicatorCategory::Volatility => weights.volatility,
        IndicatorCategory::Volume => weights.volume,
        IndicatorCategory::Perp => weights.perp,
    }
}

impl IndicatorRegistry {
    /// The weights that the registry holds.
    pub closed spec fn weights(&self) -> CategoryWeights {
        self.weights
    }

    /// A registry with the given weights.
    pub fn with_weights(weights: CategoryWeights) -> (r: Self)
        ensures
            r.weights() == weights,
    {
        Self { weights }
    }

    /// The weight of a category.
    pub fn category_weight(&self, category: IndicatorCategory) -> (r: Decimal)
        ensures
            r == weight_of(self.weights(), category),
    {
        match category {
            IndicatorCategory::Momentum => self.weights.momentum,
            IndicatorCategory::Trend => self.weights.trend,
            IndicatorCategory::Volatility => self.weights.volatility,
            IndicatorCategory::Volume => self.weights.volume,
            IndicatorCategory::Perp => self.weights.perp,
        }
    }

    /// All categories, each once.
    pub fn all_categories() -> (r: Vec<IndicatorCategory>)
        ensures
            r@ == seq![
                IndicatorCategory::Momentum,
                IndicatorCategory::Trend,
                IndicatorCategory::Volatility,
                IndicatorCategory::Volume,
                IndicatorCategory::Perp,
            ],
    {
        let mut all: Vec<IndicatorCategory> = Vec::new();
        all.push(IndicatorCategory::Momentum);
        all.push(IndicatorCategory::Trend);
        all.push(IndicatorCategory::Volatility);
        all.push(IndicatorCategory::Volume);
        all.push(IndicatorCategory::Perp);
        assert(all@ =~= seq![
            IndicatorCategory::Momentum,
            IndicatorCategory::Trend,
            IndicatorCategory::Volatility,
            IndicatorCategory::Volume,
            IndicatorCategory::Perp,
        ]);
        all
    }
}

} // verus!
