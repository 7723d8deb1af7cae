//! Weights: their sum, their normalisation and the blend they produce.
use crate::number::Number;
use vstd::prelude::*;

verus! {

/// The sum of `s`, accumulated from zero in sequence order.
pub open spec fn total<N: Number>(s: Seq<N>) -> N
    decreases s.len(),
{
    if s.len() == 0 {
        N::spec_zero()
    } else {
        total(s.drop_last()).spec_plus(s.last())
    }
}

/// `s` with every element divided by the sum of `s`.
pub open spec fn normalized<N: Number>(s: Seq<N>) -> Seq<N> {
    Seq::new(s.len(), |i: int| s[i].spec_divided_by(total(s)))
}

/// The weight of a sample at distance `distance`: `1 / distance^power`.
pub open spec fn inverse_distance_weight<N: Number>(distance: N, power: N) -> N {
    N::spec_one().spec_divided_by(distance.spec_powf(power))
}

/// The weight of every distance in `distances`.
pub open spec fn raw_weights<N: Number>(distances: Seq<N>, power: N) -> Seq<N> {
    Seq::new(distances.len(), |i: int| inverse_distance_weight(distances[i], power))
}

/// The sum of `weights[i] * values[i]` over the first `n` positions,
/// accumulated from zero in sequence order.
pub open spec fn blended_prefix<N: Number>(weights: Seq<N>, values: Seq<N>, n: int) -> N
    decreases n,
{
    if n <= 0 {
        N::spec_zero()
    } else {
        blended_prefix(weights, values, n - 1).spec_plus(
            weights[n - 1].spec_times(values[n - 1]),
        )
    }
}

/// The sum of `weights[i] * values[i]` over the positions that both
/// sequences have.
pub open spec fn blended<N: Number>(weights: Seq<N>, values: Seq<N>) -> N {
    if weights.len() <= values.len() {
        blended_prefix(weights, values, weights.len() as int)
    } else {
        blended_prefix(weights, values, values.len() as int)
    }
}

/// Adds up `weights`.
pub fn sum_weights<N: Number>(weights: &[N]) -> (sum: N)
    ensures
        sum == total(weights@),
{
    let mut sum = N::zero();
    let mut i: usize = 0;
    while i < weights.len()
        invariant
            i <= weights.len(),
            sum == total(weights@.take(i as int)),
        decreases weights.len() - i,
    {
        proof {
            let next = weights@.take(i + 1);
            assert(next.drop_last() == weights@.take(i as int));
            assert(next.last() == weights@[i as int]);
        }
        sum = sum.plus(weights[i]);
        i += 1;
    }
    proof {
        assert(weights@.take(i as int) == weights@);
    }
    sum
}

/// Divides every weight by the sum of all of them.
pub fn normalize_weights<N: Number>(weights: &[N]) -> (result: Vec<N>)
    ensures
        result@ == normalized(weights@),
{
    let weight_sum = sum_weights(weights);
    let mut result: Vec<N> = Vec::new();
    let mut i: usize = 0;
    while i < weights.len()
        invariant
            i <= weights.len(),
            weight_sum == total(weights@),
            result@.len() == i,
            forall|j: int| 0 <= j < i ==> result@[j] == normalized(weights@)[j],
        decreases weights.len() - i,
    {
        result.push(weights[i].divided_by(weight_sum));
        i += 1;
    }
    proof {
        assert(result@ =~= normalized(weights@));
    }
    result
}

/// Blends `values` with `weights`: the sum of `weights[i] * values[i]` over
/// the positions that both slices have.
pub fn blend<N: Number>(weights: &[N], values: &[N]) -> (result: N)
    ensures
        result == blended(weights@, values@),
{
    let n: usize = if weights.len() <= values.len() {
        weights.len()
    } else {
        values.len()
    };
    let mut result = N::zero();
    let mut i: usize = 0;
    while i < n
        invariant
            i <= n,
            n <= weights.len(),
            n <= values.len(),
            result == blended_prefix(weights@, values@, i as int),
        decreases n - i,
    {
        result = result.plus(weights[i].times(values[i]));
        i += 1;
    }
    result
}

/// Normalising `weights` rounds nowhere: dividing by their sum leaves zero at
/// zero and takes the sum to one, and at every step of adding the weights up
/// the quotient of the sum is the sum of the quotients.
///
/// In exact arithmetic this holds whenever the sum is not zero.
pub open spec fn normalizes_exactly<N: Number>(weights: Seq<N>) -> bool {
    let sum = total(weights);
    &&& N::spec_zero().spec_divided_by(sum) == N::spec_zero()
    &&& sum.spec_divided_by(sum) == N::spec_one()
    &&& forall|n: int|
        0 <= n < weights.len() ==> (#[trigger] total(weights.take(n))).spec_divided_by(
            sum,
        ).spec_plus(weights[n].spec_divided_by(sum)) == total(weights.take(n)).spec_plus(
            weights[n],
        ).spec_divided_by(sum)
}

/// The first `n` normalised weights add up to the sum of the first `n`
/// weights divided by the sum of all of them, where normalising rounds
/// nowhere.
proof fn lemma_normalized_prefix_total<N: Number>(weights: Seq<N>, n: int)
    requires
        0 <= n <= weights.len(),
        normalizes_exactly(weights),
    ensures
        total(normalized(weights).take(n)) == total(weights.take(n)).spec_divided_by(
            total(weights),
        ),
    decreases n,
{
    if n > 0 {
        lemma_normalized_prefix_total(weights, n - 1);
        assert(normalized(weights).take(n).drop_last() == normalized(weights).take(n - 1));
        assert(weights.take(n).drop_last() == weights.take(n - 1));
        assert(total(weights.take(n)) == total(weights.take(n - 1)).spec_plus(weights[n - 1]));
    }
}

/// Normalised weights add up to one, where normalising them rounds nowhere.
pub proof fn lemma_normalized_weights_sum_to_one<N: Number>(weights: Seq<N>)
    requires
        normalizes_exactly(weights),
    ensures
        total(normalized(weights)) == N::spec_one(),
{
    lemma_normalized_prefix_total(weights, weights.len() as int);
    assert(normalized(weights).take(weights.len() as int) == normalized(weights));
    assert(weights.take(weights.len() as int) == weights);
}

/// Normalising weights that are normalised already changes nothing, where
/// normalising them the first time rounds nowhere and division by one gives
/// back each normalised weight.
pub proof fn lemma_normalizing_again_changes_nothing<N: Number>(weights: Seq<N>)
    requires
        normalizes_exactly(weights),
        forall|i: int|
            0 <= i < weights.len() ==> (#[trigger] normalized(weights)[i]).spec_divided_by(
                N::spec_one(),
            ) == normalized(weights)[i],
    ensures
        normalized(normalized(weights)) == normalized(weights),
{
    lemma_normalized_weights_sum_to_one(weights);
    assert(normalized(normalized(weights)) =~= normalized(weights));
}

} // verus!
