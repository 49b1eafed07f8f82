//! From rule results to a signal's numbers: the aggregate score, the
//! confidence, and the list of reasons.

use crate::decimal::{
    decimal_text, fits_i64, magnitude, narrow, scale_product, scaled_product, Decimal, SCALE,
};
use crate::models::signal::{reason_models, ReasonModel, SignalReason};
use crate::models::strategy::{AggregationMethod, RuleResult};
use crate::strategies::evaluator::{
    all_passed, any_passed, every_passed, score_sum, some_passed, sum_scores,
};
use vstd::prelude::*;
use vstd::string::StringExecFns;

verus! {

/// What one result adds to a weighted sum: its score times its weight.
pub open spec fn weighted_term(result: RuleResult) -> int {
    scale_product(result.score.units as int, result.weight.units as int)
}

/// The sum of the scores of some results, each times its weight.
pub open spec fn weighted_sum(results: Seq<RuleResult>) -> int
    decreases results.len(),
{
    if results.len() == 0 {
        0
    } else {
        weighted_sum(results.drop_last()) + weighted_term(results.last())
    }
}

/// Whether the weighted score of every result can be represented.
pub open spec fn weighted_terms_fit(results: Seq<RuleResult>) -> bool {
    forall|i: int| 0 <= i < results.len() ==> fits_i64(weighted_term(#[trigger] results[i]))
}

/// The number of results with a score above zero.
pub open spec fn positive_count(results: Seq<RuleResult>) -> nat
    decreases results.len(),
{
    if results.len() == 0 {
        0
    } else {
        positive_count(results.drop_last()) + if results.last().score.units > 0 {
            1nat
        } else {
            0nat
        }
    }
}

/// The number of results with a score below zero.
pub open spec fn negative_count(results: Seq<RuleResult>) -> nat
    decreases results.len(),
{
    if results.len() == 0 {
        0
    } else {
        negative_count(results.drop_last()) + if results.last().score.units < 0 {
            1nat
        } else {
            0nat
        }
    }
}

/// The vote of the results, in whole units: the number of positive scores
/// where they are the majority, minus the number of negative scores where
/// those are, zero on a tie.
pub open spec fn majority_vote(results: Seq<RuleResult>) -> int {
    let positive = positive_count(results);
    let negative = negative_count(results);
    if positive > negative {
        positive as int
    } else if negative > positive {
        -(negative as int)
    } else {
        0
    }
}

/// The total score of the results under a method, in units.
pub open spec fn aggregate_score(results: Seq<RuleResult>, method: AggregationMethod) -> int {
    match method {
        AggregationMethod::Sum => score_sum(results),
        AggregationMethod::WeightedSum => weighted_sum(results),
        AggregationMethod::Majority => majority_vote(results) * SCALE,
        AggregationMethod::All => if all_passed(results) {
            score_sum(results)
        } else {
            0
        },
        AggregationMethod::Any => if any_passed(results) {
            score_sum(results)
        } else {
            0
        },
    }
}

/// Whether the total score can be represented, and under the weighted sum
/// every term of it.
pub open spec fn aggregate_representable(
    results: Seq<RuleResult>,
    method: AggregationMethod,
) -> bool {
    &&& fits_i64(aggregate_score(results, method))
    &&& method == AggregationMethod::WeightedSum ==> weighted_terms_fit(results)
}

/// The sum of the absolute values of the weights of some results, in units.
pub open spec fn weight_total(results: Seq<RuleResult>) -> nat
    decreases results.len(),
{
    if results.len() == 0 {
        0
    } else {
        weight_total(results.drop_last()) + magnitude(results.last().weight.units as int) as nat
    }
}

/// The confidence of a total score, in units: its absolute value divided by
/// the sum of the absolute weights, at most one. Where the weights add up to
/// zero the score is divided by one.
pub open spec fn confidence_units(total: int, results: Seq<RuleResult>) -> int {
    let weights = weight_total(results);
    let divisor = if weights > 0 {
        weights as int
    } else {
        SCALE as int
    };
    let quotient = (magnitude(total) * SCALE) / divisor;
    if quotient > SCALE {
        SCALE as int
    } else {
        quotient
    }
}

/// The text of the reason that a passed rule gives.
pub open spec fn reason_text(result: RuleResult) -> Seq<char> {
    "Rule "@ + result.rule_id@ + " passed (score: "@ + decimal_text(result.score.units as int)
        + ")"@
}

/// The reason that a passed rule gives.
pub open spec fn reason_of(result: RuleResult) -> ReasonModel {
    ReasonModel { description: reason_text(result), weight: result.weight.units as int }
}

/// The number of reasons at the head of a list whose weight is at least
/// `weight`.
pub open spec fn heavier_run(reasons: Seq<ReasonModel>, weight: int) -> nat
    decreases reasons.len(),
{
    if reasons.len() > 0 && reasons[0].weight >= weight {
        1 + heavier_run(reasons.skip(1), weight)
    } else {
        0
    }
}

/// A list of reasons with one more, placed behind the leading reasons that
/// weigh at least as much.
pub open spec fn with_reason(reasons: Seq<ReasonModel>, reason: ReasonModel) -> Seq<ReasonModel> {
    reasons.insert(heavier_run(reasons, reason.weight) as int, reason)
}

/// The reasons of a signal: one for each result that passed, heaviest first,
/// rules of equal weight in the order of the results.
pub open spec fn signal_reasons(results: Seq<RuleResult>) -> Seq<ReasonModel>
    decreases results.len(),
{
    if results.len() == 0 {
        Seq::empty()
    } else if results.last().passed {
        with_reason(signal_reasons(results.drop_last()), reason_of(results.last()))
    } else {
        signal_reasons(results.drop_last())
    }
}

/// Whether the weights of a list of reasons never rise.
pub open spec fn weights_descend(reasons: Seq<ReasonModel>) -> bool {
    forall|i: int, j: int| 0 <= i <= j < reasons.len() ==> reasons[i].weight >= reasons[j].weight
}

/// The number of results that passed.
pub open spec fn passed_count(results: Seq<RuleResult>) -> nat
    decreases results.len(),
{
    if results.len() == 0 {
        0
    } else {
        passed_count(results.drop_last()) + if results.last().passed {
            1nat
        } else {
            0nat
        }
    }
}

/// A confidence lies between zero and one.
pub proof fn lemma_confidence_bounds(total: int, results: Seq<RuleResult>)
    ensures
        0 <= confidence_units(total, results) <= SCALE,
{
    let weights = weight_total(results);
    let divisor = if weights > 0 {
        weights as int
    } else {
        SCALE as int
    };
    let scaled = magnitude(total) * SCALE;
    assert(scaled >= 0) by (nonlinear_arith)
        requires
            scaled == magnitude(total) * SCALE,
            magnitude(total) >= 0,
            SCALE == 100_000_000,
    ;
    assert(scaled / divisor >= 0) by (nonlinear_arith)
        requires
            scaled >= 0,
            divisor > 0,
    ;
}

/// `heavier_run` is `k` exactly when the first `k` reasons weigh at least
/// `weight` and the next one, if any, weighs less.
pub proof fn lemma_heavier_run(reasons: Seq<ReasonModel>, weight: int, k: int)
    requires
        0 <= k <= reasons.len(),
        forall|i: int| 0 <= i < k ==> (#[trigger] reasons[i]).weight >= weight,
        k < reasons.len() ==> reasons[k].weight < weight,
    ensures
        heavier_run(reasons, weight) == k,
    decreases k,
{
    if k > 0 {
        let tail = reasons.skip(1);
        assert forall|i: int| 0 <= i < k - 1 implies (#[trigger] tail[i]).weight >= weight by {
            assert(tail[i] == reasons[i + 1]);
        }
        lemma_heavier_run(tail, weight, k - 1);
    }
}

/// The reasons counted by `heavier_run` weigh at least `weight`, and the one
/// behind them weighs less.
pub proof fn lemma_heavier_run_bounds(reasons: Seq<ReasonModel>, weight: int)
    ensures
        heavier_run(reasons, weight) <= reasons.len(),
        forall|i: int|
            0 <= i < heavier_run(reasons, weight) ==> (#[trigger] reasons[i]).weight >= weight,
        heavier_run(reasons, weight) < reasons.len() ==> reasons[heavier_run(
            reasons,
            weight,
        ) as int].weight < weight,
    decreases reasons.len(),
{
    if reasons.len() > 0 && reasons[0].weight >= weight {
        let tail = reasons.skip(1);
        lemma_heavier_run_bounds(tail, weight);
        assert forall|i: int| 0 <= i < heavier_run(reasons, weight) implies (
        #[trigger] reasons[i]).weight >= weight by {
            if i > 0 {
                assert(tail[i - 1] == reasons[i]);
            }
        }
        if heavier_run(reasons, weight) < reasons.len() {
            assert(tail[heavier_run(tail, weight) as int] == reasons[heavier_run(
                reasons,
                weight,
            ) as int]);
        }
    }
}

/// Adding a reason to a list whose weights never rise gives such a list, one
/// longer, that holds the new reason.
pub proof fn lemma_with_reason_descends(reasons: Seq<ReasonModel>, reason: ReasonModel)
    requires
        weights_descend(reasons),
    ensures
        weights_descend(with_reason(reasons, reason)),
        with_reason(reasons, reason).len() == reasons.len() + 1,
        with_reason(reasons, reason).contains(reason),
{
    lemma_heavier_run_bounds(reasons, reason.weight);
    let k = heavier_run(reasons, reason.weight) as int;
    let out = with_reason(reasons, reason);
    assert(out[k] == reason);
    assert forall|i: int, j: int| 0 <= i <= j < out.len() implies out[i].weight
        >= out[j].weight by {
        if i < k && j > k {
            assert(out[i] == reasons[i]);
            assert(out[j] == reasons[j - 1]);
        } else if i < k && j == k {
            assert(out[i] == reasons[i]);
        } else if i < k && j < k {
            assert(out[i] == reasons[i]);
            assert(out[j] == reasons[j]);
        } else if i == k && j > k {
            assert(out[j] == reasons[j - 1]);
            assert(reasons[k].weight >= reasons[j - 1].weight);
        } else if i > k {
            assert(out[i] == reasons[i - 1]);
            assert(out[j] == reasons[j - 1]);
        }
    }
}

/// The reasons of a signal come heaviest first, and there is one for each
/// result that passed.
pub proof fn lemma_signal_reasons_sorted(results: Seq<RuleResult>)
    ensures
        weights_descend(signal_reasons(results)),
        signal_reasons(results).len() == passed_count(results),
        forall|i: int|
            0 <= i < results.len() && (#[trigger] results[i]).passed ==> signal_reasons(
                results,
            ).contains(reason_of(results[i])),
    decreases results.len(),
{
    if results.len() > 0 {
        let before = results.drop_last();
        lemma_signal_reasons_sorted(before);
        let prev = signal_reasons(before);
        if results.last().passed {
            let reason = reason_of(results.last());
            lemma_with_reason_descends(prev, reason);
            let k = heavier_run(prev, reason.weight) as int;
            lemma_heavier_run_bounds(prev, reason.weight);
            let out = with_reason(prev, reason);
            assert forall|i: int| 0 <= i < results.len() && (#[trigger] results[i]).passed implies out.contains(
                reason_of(results[i]),
            ) by {
                if i < results.len() - 1 {
                    assert(before[i] == results[i]);
                    let at = choose|p: int| 0 <= p < prev.len() && prev[p] == reason_of(before[i]);
                    if at < k {
                        assert(out[at] == prev[at]);
                    } else {
                        assert(out[at + 1] == prev[at]);
                    }
                }
            }
        } else {
            assert forall|i: int| 0 <= i < results.len() && (#[trigger] results[i]).passed implies signal_reasons(
                results,
            ).contains(reason_of(results[i])) by {
                assert(before[i] == results[i]);
            }
        }
    }
}

/// The sum of the weighted scores of some results, where each of them can be
/// represented.
fn sum_weighted(results: &Vec<RuleResult>) -> (r: Option<i128>)
    ensures
        weighted_terms_fit(results@) ==> r is Some && r->0 == weighted_sum(results@),
        !weighted_terms_fit(results@) ==> r is None,
{
    let mut acc: i128 = 0;
    let mut i: usize = 0;
    assert(results@.take(0) =~= Seq::<RuleResult>::empty());
    while i < results.len()
        invariant
            i <= results.len(),
            acc == weighted_sum(results@.take(i as int)),
            forall|j: int| 0 <= j < i ==> fits_i64(weighted_term(#[trigger] results@[j])),
            -0x8000_0000_0000_0000 * i <= acc <= 0x8000_0000_0000_0000 * i,
        decreases results.len() - i,
    {
        proof {
            let next = results@.take(i as int + 1);
            assert(next.drop_last() =~= results@.take(i as int));
            assert(next.last() == results@[i as int]);
            assert(0x8000_0000_0000_0000 * (i + 1) <= 0x8000_0000_0000_0000
                * 0x1_0000_0000_0000_0000) by (nonlinear_arith)
                requires
                    i + 1 <= 0x1_0000_0000_0000_0000,
            ;
        }
        let term = match narrow(scaled_product(results[i].score.units, results[i].weight.units)) {
            Some(t) => t,
            None => {
                return None;
            },
        };
        acc = acc + term.units as i128;
        i = i + 1;
    }
    assert(results@.take(i as int) =~= results@);
    Some(acc)
}

/// The numbers of results with a positive and with a negative score.
fn count_signs(results: &Vec<RuleResult>) -> (r: (usize, usize))
    ensures
        r.0 == positive_count(results@),
        r.1 == negative_count(results@),
{
    let mut positive: usize = 0;
    let mut negative: usize = 0;
    let mut i: usize = 0;
    assert(results@.take(0) =~= Seq::<RuleResult>::empty());
    while i < results.len()
        invariant
            i <= results.len(),
            positive == positive_count(results@.take(i as int)),
            negative == negative_count(results@.take(i as int)),
            positive <= i,
            negative <= i,
        decreases results.len() - i,
    {
        proof {
            let next = results@.take(i as int + 1);
            assert(next.drop_last() =~= results@.take(i as int));
            assert(next.last() == results@[i as int]);
        }
        if results[i].score.units > 0 {
            positive = positive + 1;
        } else if results[i].score.units < 0 {
            negative = negative + 1;
        }
        i = i + 1;
    }
    assert(results@.take(i as int) =~= results@);
    (positive, negative)
}

/// The total score of the results under a method, where it can be
/// represented.
pub fn aggregate(results: &Vec<RuleResult>, method: AggregationMethod) -> (r: Option<Decimal>)
    ensures
        aggregate_representable(results@, method) ==> r == Some(
            Decimal { units: aggregate_score(results@, method) as i64 },
        ),
        !aggregate_representable(results@, method) ==> r is None,
{
    match method {
        AggregationMethod::Sum => narrow(sum_scores(results)),
        AggregationMethod::WeightedSum => match sum_weighted(results) {
            Some(total) => narrow(total),
            None => None,
        },
        AggregationMethod::Majority => {
            let (positive, negative) = count_signs(results);
            let vote: i128 = if positive > negative {
                positive as i128
            } else if negative > positive {
                -(negative as i128)
            } else {
                0
            };
            assert(-0x1_0000_0000_0000_0000 * 100_000_000 <= vote * 100_000_000
                <= 0x1_0000_0000_0000_0000 * 100_000_000) by (nonlinear_arith)
                requires
                    -0x1_0000_0000_0000_0000 <= vote <= 0x1_0000_0000_0000_0000,
            ;
            narrow(vote * (SCALE as i128))
        },
        AggregationMethod::All => if every_passed(results) {
            narrow(sum_scores(results))
        } else {
            Some(Decimal::zero())
        },
        AggregationMethod::Any => if some_passed(results) {
            narrow(sum_scores(results))
        } else {
            Some(Decimal::zero())
        },
    }
}

/// The sum of the absolute values of the weights of some results.
fn total_weight(results: &Vec<RuleResult>) -> (r: u128)
    ensures
        r == weight_total(results@),
{
    let mut acc: u128 = 0;
    let mut i: usize = 0;
    assert(results@.take(0) =~= Seq::<RuleResult>::empty());
    while i < results.len()
        invariant
            i <= results.len(),
            acc == weight_total(results@.take(i as int)),
            acc <= 0x8000_0000_0000_0000 * i,
        decreases results.len() - i,
    {
        proof {
            let next = results@.take(i as int + 1);
            assert(next.drop_last() =~= results@.take(i as int));
            assert(next.last() == results@[i as int]);
            assert(0x8000_0000_0000_0000 * (i + 1) <= 0x8000_0000_0000_0000
                * 0x1_0000_0000_0000_0000) by (nonlinear_arith)
                requires
                    i + 1 <= 0x1_0000_0000_0000_0000,
            ;
        }
        acc = acc + results[i].weight.abs_units() as u128;
        i = i + 1;
    }
    assert(results@.take(i as int) =~= results@);
    acc
}

/// The confidence of a total score: between zero and one.
pub fn confidence(total: Decimal, results: &Vec<RuleResult>) -> (r: Decimal)
    ensures
        r.units == confidence_units(total.units as int, results@),
        0 <= r.units <= SCALE,
{
    let weights: u128 = total_weight(results);
    let divisor: u128 = if weights > 0 {
        weights
    } else {
        SCALE as u128
    };
    let size: u128 = total.abs_units() as u128;
    assert(size * 100_000_000 <= 0x8000_0000_0000_0000 * 100_000_000) by (nonlinear_arith)
        requires
            0 <= size <= 0x8000_0000_0000_0000,
    ;
    let quotient: u128 = (size * (SCALE as u128)) / divisor;
    if quotient > SCALE as u128 {
        Decimal { units: SCALE }
    } else {
        Decimal { units: quotient as i64 }
    }
}

/// The reason that a passed rule gives.
fn make_reason(result: &RuleResult) -> (r: SignalReason)
    ensures
        r.model() == reason_of(*result),
{
    let mut description = String::from_str("Rule ");
    description.append(result.rule_id.as_str());
    description.append(" passed (score: ");
    let score = result.score.render();
    description.append(score.as_str());
    description.append(")");
    assert(description@ =~= reason_text(*result));
    SignalReason { description, weight: result.weight }
}

/// The reasons of a signal: one for each result that passed, heaviest first.
pub fn build_reasons(results: &Vec<RuleResult>) -> (r: Vec<SignalReason>)
    ensures
        reason_models(r@) == signal_reasons(results@),
{
    let mut reasons: Vec<SignalReason> = Vec::new();
    let mut i: usize = 0;
    assert(results@.take(0) =~= Seq::<RuleResult>::empty());
    assert(reason_models(reasons@) =~= Seq::<ReasonModel>::empty());
    while i < results.len()
        invariant
            i <= results.len(),
            reason_models(reasons@) == signal_reasons(results@.take(i as int)),
        decreases results.len() - i,
    {
        proof {
            let next = results@.take(i as int + 1);
            assert(next.drop_last() =~= results@.take(i as int));
            assert(next.last() == results@[i as int]);
        }
        if results[i].passed {
            let reason = make_reason(&results[i]);
            let ghost models = reason_models(reasons@);
            let mut k: usize = 0;
            while k < reasons.len() && reasons[k].weight.units >= reason.weight.units
                invariant
                    k <= reasons.len(),
                    models == reason_models(reasons@),
                    forall|j: int| 0 <= j < k ==> (#[trigger] models[j]).weight >= reason.weight.units,
                decreases reasons.len() - k,
            {
                assert(models[k as int].weight == reasons@[k as int].weight.units);
                k = k + 1;
            }
            proof {
                if k < reasons.len() {
                    assert(models[k as int].weight == reasons@[k as int].weight.units);
                }
                lemma_heavier_run(models, reason.weight.units as int, k as int);
            }
            reasons.insert(k, reason);
            assert(reason_models(reasons@) =~= models.insert(k as int, reason.model()));
        }
        i = i + 1;
    }
    assert(results@.take(i as int) =~= results@);
    reasons
}

} // verus!
