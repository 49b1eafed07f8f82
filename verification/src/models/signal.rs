//! Signals: the directional hint that evaluating a strategy produces.

use crate::decimal::Decimal;
use vstd::prelude::*;
use vstd::string::StringExecFns;

verus! {

/// The direction of a signal.
#[derive(Clone, Copy, Debug, PartialEq, Eq, Structural)]
pub enum SignalDirection {
    Long,
    Short,
    Neutral,
}

/// One reason for a signal: a rule that passed, and its weight.
#[derive(Clone, Debug, PartialEq, Eq)]
pub struct SignalReason {
    pub description: String,
    pub weight: Decimal,
}

/// What a reason says, as plain values: the text of its description and its
/// weight in units.
pub struct ReasonModel {
    pub description: Seq<char>,
    pub weight: int,
}

/// A directional signal with its confidence and risk parameters.
///
/// `confidence` lies between zero and one. `recommended_sl_pct` and
/// `recommended_tp_pct` are fractions of the price. `timestamp` is in Unix
/// milliseconds.
#[derive(Clone, Debug, PartialEq, Eq)]
pub struct SignalOutput {
    pub direction: SignalDirection,
    pub confidence: Decimal,
    pub recommended_sl_pct: Decimal,
    pub recommended_tp_pct: Decimal,
    pub reasons: Vec<SignalReason>,
    pub symbol: String,
    pub price: Decimal,
    pub timestamp: i64,
}

impl SignalReason {
    /// The reason as plain values.
    pub open spec fn model(self) -> ReasonModel {
        ReasonModel { description: self.description@, weight: self.weight.units as int }
    }
}

/// The reasons of a list as plain values, in order.
pub open spec fn reason_models(reasons: Seq<SignalReason>) -> Seq<ReasonModel> {
    Seq::new(reasons.len(), |i: int| reasons[i].model())
}

/// The name under which a direction is stored.
pub open spec fn direction_name(direction: SignalDirection) -> Seq<char> {
    match direction {
        SignalDirection::Long => "Long"@,
        SignalDirection::Short => "Short"@,
        SignalDirection::Neutral => "Neutral"@,
    }
}

/// The direction that a stored name stands for: anything but `Long` and
/// `Short` reads as neutral.
pub open spec fn direction_of_name(name: Seq<char>) -> SignalDirection {
    if name == "Long"@ {
        SignalDirection::Long
    } else if name == "Short"@ {
        SignalDirection::Short
    } else {
        SignalDirection::Neutral
    }
}

impl SignalDirection {
    /// The name under which the direction is stored.
    pub fn as_str(&self) -> (r: &'static str)
        ensures
            r@ == direction_name(*self),
    {
        match self {
            SignalDirection::Long => "Long",
            SignalDirection::Short => "Short",
            SignalDirection::Neutral => "Neutral",
        }
    }

    /// Reads a stored name back.
    pub fn from_name(name: &str) -> (r: SignalDirection)
        ensures
            r == direction_of_name(name@),
    {
        let given = String::from_str(name);
        if given == String::from_str("Long") {
            SignalDirection::Long
        } else if given == String::from_str("Short") {
            SignalDirection::Short
        } else {
            SignalDirection::Neutral
        }
    }
}

/// Storing a direction under its name and reading the name back gives the
/// direction again.
pub proof fn lemma_direction_name_round_trip(direction: SignalDirection)
    ensures
        direction_of_name(direction_name(direction)) == direction,
{
    reveal_strlit("Long");
    reveal_strlit("Short");
    reveal_strlit("Neutral");
    assert("Long"@.len() == 4);
    assert("Short"@.len() == 5);
    assert("Neutral"@.len() == 7);
}

} // verus!
