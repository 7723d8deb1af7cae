//! The interpolator.
use crate::coord::Coord;
use crate::number::Number;
use crate::weights::{
    blend, blended, lemma_normalized_weights_sum_to_one, lemma_normalizing_again_changes_nothing,
    normalize_weights, normalized, normalizes_exactly, raw_weights, total,
};
use vstd::prelude::*;

verus! {

/// Why a set of samples cannot be interpolated.
#[derive(Clone, Copy, Debug, PartialEq, Eq, Structural)]
pub enum ConfigurationError {
    /// There are no points.
    EmptyPoints,
    /// There are no values.
    EmptyValues,
    /// There are not as many values as points.
    LengthMismatch,
}

impl ConfigurationError {
    /// The error that `points` points and `values` values give rise to, if
    /// any. Missing points are reported before missing values, and those
    /// before differing lengths.
    pub open spec fn of_lengths(points: nat, values: nat) -> Option<ConfigurationError> {
        if points == 0 {
            Some(ConfigurationError::EmptyPoints)
        } else if values == 0 {
            Some(ConfigurationError::EmptyValues)
        } else if points != values {
            Some(ConfigurationError::LengthMismatch)
        } else {
            None
        }
    }

    /// What is wrong, in words.
    pub open spec fn spec_message(self) -> Seq<char> {
        match self {
            ConfigurationError::EmptyPoints => "Points vector must not be empty."@,
            ConfigurationError::EmptyValues => "Values vector must not be empty."@,
            ConfigurationError::LengthMismatch => "Points and values vectors must be the same length."@,
        }
    }

    /// What is wrong, in words.
    pub fn message(&self) -> (text: &'static str)
        ensures
            text@ == self.spec_message(),
    {
        match self {
            ConfigurationError::EmptyPoints => "Points vector must not be empty.",
            ConfigurationError::EmptyValues => "Values vector must not be empty.",
            ConfigurationError::LengthMismatch => "Points and values vectors must be the same length.",
        }
    }
}

/// A function that reshapes a weight, as a value that can be stored.
trait WeightFunction<N> {
    /// Whether the function may be called on `weight`.
    spec fn accepts(&self, weight: N) -> bool;

    /// Whether the function may return `reshaped` for `weight`.
    spec fn maps(&self, weight: N, reshaped: N) -> bool;

    fn apply(&self, weight: N) -> (reshaped: N)
        requires
            self.accepts(weight),
        ensures
            self.maps(weight, reshaped),
    ;
}

impl<N, F: Fn(N) -> N> WeightFunction<N> for F {
    spec fn accepts(&self, weight: N) -> bool {
        call_requires(*self, (weight,))
    }

    spec fn maps(&self, weight: N, reshaped: N) -> bool {
        call_ensures(*self, (weight,), reshaped)
    }

    fn apply(&self, weight: N) -> (reshaped: N) {
        self(weight)
    }
}

/// An inverse distance weighting interpolator over a fixed set of samples.
///
/// Sample `i` is the point `points()[i]` with the value `values()[i]`. There
/// is at least one sample.
#[verifier::reject_recursive_types(N)]
pub struct IDW<C, N> where C: Coord<N>, N: Number {
    points: Vec<C>,
    values: Vec<N>,
    power_parameter: N,
    weighted_function: Option<Box<dyn WeightFunction<N>>>,
}

impl<C, N> IDW<C, N> where C: Coord<N>, N: Number {
    /// The sample points, in the order given at construction.
    pub closed spec fn points(&self) -> Seq<C> {
        self.points@
    }

    /// The sample values, in the order given at construction.
    pub closed spec fn values(&self) -> Seq<N> {
        self.values@
    }

    /// The exponent that distances are raised to.
    pub closed spec fn power_parameter(&self) -> N {
        self.power_parameter
    }

    /// Whether a weight function is installed.
    pub closed spec fn has_weighted_function(&self) -> bool {
        self.weighted_function is Some
    }

    /// Whether the installed weight function may return `reshaped` for
    /// `weight`. Without a weight function, weights stay as they are.
    pub closed spec fn reshapes(&self, weight: N, reshaped: N) -> bool {
        match self.weighted_function {
            Some(func) => func.maps(weight, reshaped),
            None => reshaped == weight,
        }
    }

    /// Whether the installed weight function, if there is one, can be called
    /// on every weight.
    pub closed spec fn reshapes_every_weight(&self) -> bool {
        match self.weighted_function {
            Some(func) => forall|weight: N| func.accepts(weight),
            None => true,
        }
    }

    /// There is at least one sample, every point has a value, and the weight
    /// function, if any, can be called on every weight. Every interpolator
    /// that exists at run time is well formed.
    pub open spec fn well_formed(&self) -> bool {
        &&& self.points().len() >= 1
        &&& self.points().len() == self.values().len()
        &&& self.reshapes_every_weight()
    }

    #[verifier::type_invariant]
    spec fn holds_samples(&self) -> bool {
        self.well_formed()
    }

    /// The distance from every sample point to `position`.
    pub open spec fn distances(&self, position: C) -> Seq<N> {
        Seq::new(self.points().len(), |i: int| self.points()[i].spec_distance_to(&position))
    }

    /// Sample `i` is the first one that lies exactly at `position`.
    pub open spec fn exact_match_at(&self, position: C, i: int) -> bool {
        &&& 0 <= i < self.points().len()
        &&& self.distances(position)[i].spec_is_zero()
        &&& forall|j: int| 0 <= j < i ==> !(#[trigger] self.distances(position)[j]).spec_is_zero()
    }

    /// No sample lies exactly at `position`.
    pub open spec fn no_exact_match(&self, position: C) -> bool {
        forall|j: int|
            0 <= j < self.points().len() ==> !(#[trigger] self.distances(position)[j]).spec_is_zero()
    }

    /// The inverse distance weight of every sample as seen from `position`.
    pub open spec fn raw_weights(&self, position: C) -> Seq<N> {
        raw_weights(self.distances(position), self.power_parameter())
    }

    /// `reshaped` is what the weight function may make of `weights`, weight
    /// by weight.
    pub open spec fn reshapes_all(&self, weights: Seq<N>, reshaped: Seq<N>) -> bool {
        &&& reshaped.len() == weights.len()
        &&& forall|i: int|
            0 <= i < weights.len() ==> self.reshapes(weights[i], #[trigger] reshaped[i])
    }

    /// `weights` are weights that the samples may carry at `position` before
    /// the final normalisation: the raw weights, or, with a weight function
    /// installed, what it makes of the normalised raw weights.
    pub open spec fn weighs(&self, position: C, weights: Seq<N>) -> bool {
        if self.has_weighted_function() {
            self.reshapes_all(normalized(self.raw_weights(position)), weights)
        } else {
            weights == self.raw_weights(position)
        }
    }

    /// `result` is a value of the interpolation at `position`.
    ///
    /// Where a sample lies exactly at `position`, it is the value of the
    /// first such sample. Elsewhere it is the blend of all sample values
    /// with normalised weights that [`Self::weighs`] admits.
    pub open spec fn interpolates(&self, position: C, result: N) -> bool {
        &&& forall|i: int| self.exact_match_at(position, i) ==> result == self.values()[i]
        &&& self.no_exact_match(position) ==> exists|weights: Seq<N>|
            #[trigger] self.weighs(position, weights) && result == blended(
                normalized(weights),
                self.values(),
            )
    }

    /// Creates an interpolator from `points` and the value at each of them.
    ///
    /// The power parameter is 2 and no weight function is installed.
    pub fn new(points: Vec<C>, values: Vec<N>) -> (result: Result<Self, ConfigurationError>)
        ensures
            result is Ok <==> ConfigurationError::of_lengths(points@.len(), values@.len()) is None,
            result matches Err(error) ==> ConfigurationError::of_lengths(
                points@.len(),
                values@.len(),
            ) == Some(error),
            result matches Ok(idw) ==> idw.well_formed(),
            result matches Ok(idw) ==> idw.points() == points@,
            result matches Ok(idw) ==> idw.values() == values@,
            result matches Ok(idw) ==> idw.power_parameter() == N::spec_from_u8(2),
            result matches Ok(idw) ==> !idw.has_weighted_function(),
    {
        if points.len() == 0 {
            return Err(ConfigurationError::EmptyPoints);
        }
        if values.len() == 0 {
            return Err(ConfigurationError::EmptyValues);
        }
        if points.len() != values.len() {
            return Err(ConfigurationError::LengthMismatch);
        }
        Ok(Self { points, values, power_parameter: N::from_u8(2), weighted_function: None })
    }

    /// Sets the power parameter.
    pub fn power(self, power: N) -> (result: Self)
        ensures
            result.well_formed(),
            result.points() == self.points(),
            result.values() == self.values(),
            result.power_parameter() == power,
            result.has_weighted_function() == self.has_weighted_function(),
            forall|weight: N, reshaped: N|
                result.reshapes(weight, reshaped) == self.reshapes(weight, reshaped),
    {
        proof {
            use_type_invariant(&self);
        }
        let mut result = self;
        result.power_parameter = power;
        result
    }

    /// Installs `func` as the weight function. It is applied to every
    /// normalised weight; the reshaped weights are then normalised again.
    pub fn weighted_function(self, func: impl Fn(N) -> N + 'static) -> (result: Self)
        requires
            forall|weight: N| call_requires(func, (weight,)),
        ensures
            result.well_formed(),
            result.points() == self.points(),
            result.values() == self.values(),
            result.power_parameter() == self.power_parameter(),
            result.has_weighted_function(),
            forall|weight: N, reshaped: N|
                result.reshapes(weight, reshaped) == call_ensures(func, (weight,), reshaped),
    {
        proof {
            use_type_invariant(&self);
        }
        let boxed: Box<dyn WeightFunction<N>> = Box::new(func);
        let mut result = self;
        result.weighted_function = Some(boxed);
        result
    }

    /// The weight of every sample as seen from `position`, or the index of
    /// the first sample that lies exactly there.
    fn weigh(&self, position: &C) -> (result: Result<Vec<N>, usize>)
        ensures
            result matches Ok(weights) ==> self.no_exact_match(*position),
            result matches Ok(weights) ==> weights@ == self.raw_weights(*position),
            result matches Err(index) ==> self.exact_match_at(*position, index as int),
    {
        let mut weights: Vec<N> = Vec::new();
        let mut index: usize = 0;
        while index < self.points.len()
            invariant
                index <= self.points.len(),
                weights@.len() == index,
                forall|j: int|
                    0 <= j < index ==> !(#[trigger] self.distances(*position)[j]).spec_is_zero(),
                forall|j: int|
                    0 <= j < index ==> weights@[j] == self.raw_weights(*position)[j],
            decreases self.points.len() - index,
        {
            let distance = self.points[index].distance_to(position);
            if distance.is_zero() {
                return Err(index);
            }
            weights.push(N::one().divided_by(distance.powf(self.power_parameter)));
            index += 1;
        }
        proof {
            assert(weights@ =~= self.raw_weights(*position));
        }
        Ok(weights)
    }

    /// Calculates the interpolated value at `position`.
    pub fn evaluate(&self, position: C) -> (result: N)
        ensures
            self.interpolates(position, result),
    {
        proof {
            use_type_invariant(self);
        }
        match self.weigh(&position) {
            Ok(weights) => {
                let mut normalized_weights = normalize_weights(weights.as_slice());
                if let Some(func) = &self.weighted_function {
                    let ghost base = normalized_weights@;
                    let mut i: usize = 0;
                    while i < normalized_weights.len()
                        invariant
                            i <= normalized_weights.len(),
                            normalized_weights@.len() == base.len(),
                            forall|weight: N| func.accepts(weight),
                            forall|j: int|
                                0 <= j < i ==> func.maps(base[j], #[trigger] normalized_weights@[j]),
                            forall|j: int|
                                i <= j < base.len() ==> normalized_weights@[j] == base[j],
                        decreases normalized_weights.len() - i,
                    {
                        let reshaped = func.apply(normalized_weights[i]);
                        normalized_weights.set(i, reshaped);
                        i += 1;
                    }
                    proof {
                        assert(self.weighs(position, normalized_weights@));
                    }
                    normalized_weights = normalize_weights(normalized_weights.as_slice());
                } else {
                    proof {
                        assert(self.weighs(position, weights@));
                    }
                }
                blend(normalized_weights.as_slice(), self.values.as_slice())
            },
            Err(index) => {
                proof {
                    assert forall|i: int| self.exact_match_at(position, i) implies i == index by {
                        if i < index {
                            assert(!self.distances(position)[i].spec_is_zero());
                        } else if index < i {
                            assert(!self.distances(position)[index as int].spec_is_zero());
                        }
                    }
                }
                self.values[index]
            },
        }
    }
}

impl<C, N> IDW<C, N> where C: Coord<N>, N: Number {
    /// Where sample `i` lies exactly at `position`, some sample up to `i` is
    /// the first to do so.
    proof fn lemma_first_exact_match(&self, position: C, i: int) -> (first: int)
        requires
            0 <= i < self.points().len(),
            self.distances(position)[i].spec_is_zero(),
        ensures
            0 <= first <= i,
            self.exact_match_at(position, first),
        decreases i,
    {
        if exists|j: int| 0 <= j < i && (#[trigger] self.distances(position)[j]).spec_is_zero() {
            let j = choose|j: int|
                0 <= j < i && (#[trigger] self.distances(position)[j]).spec_is_zero();
            self.lemma_first_exact_match(position, j)
        } else {
            i
        }
    }

    /// At the point of sample `i` the interpolation has the value of sample
    /// `i`, whatever the power parameter and the weight function are.
    ///
    /// This is so where the point is at distance zero from itself and no
    /// earlier sample with another value lies at the same point: of samples
    /// that coincide, the first one decides.
    pub proof fn lemma_sample_is_reproduced(&self, i: int, result: N)
        requires
            self.well_formed(),
            0 <= i < self.points().len(),
            self.distances(self.points()[i])[i].spec_is_zero(),
            forall|j: int|
                0 <= j < i && (#[trigger] self.distances(self.points()[i])[j]).spec_is_zero()
                    ==> self.values()[j] == self.values()[i],
            self.interpolates(self.points()[i], result),
        ensures
            result == self.values()[i],
    {
        let first = self.lemma_first_exact_match(self.points()[i], i);
        if first < i {
            assert(self.distances(self.points()[i])[first].spec_is_zero());
        }
    }

    /// Away from the samples, the weights that the values are blended with
    /// add up to one, whatever the power parameter and the weight function
    /// are, where the final normalisation rounds nowhere.
    pub proof fn lemma_final_weights_sum_to_one(&self, position: C, weights: Seq<N>)
        requires
            self.well_formed(),
            self.no_exact_match(position),
            self.weighs(position, weights),
            normalizes_exactly(weights),
        ensures
            total(normalized(weights)) == N::spec_one(),
    {
        lemma_normalized_weights_sum_to_one(weights);
    }

    /// The interpolation has one value at each position, where the weight
    /// function, if one is installed, has one result for each weight.
    pub proof fn lemma_interpolation_is_unique(&self, position: C, first: N, second: N)
        requires
            self.well_formed(),
            forall|weight: N, a: N, b: N|
                self.reshapes(weight, a) && self.reshapes(weight, b) ==> a == b,
            self.interpolates(position, first),
            self.interpolates(position, second),
        ensures
            first == second,
    {
        if exists|i: int|
            0 <= i < self.points().len() && (#[trigger] self.distances(position)[i]).spec_is_zero() {
            let i = choose|i: int|
                0 <= i < self.points().len() && (#[trigger] self.distances(
                    position,
                )[i]).spec_is_zero();
            let decisive = self.lemma_first_exact_match(position, i);
            assert(first == self.values()[decisive]);
        } else {
            assert(self.no_exact_match(position));
            let a = choose|weights: Seq<N>| #[trigger]
                self.weighs(position, weights) && first == blended(
                    normalized(weights),
                    self.values(),
                );
            let b = choose|weights: Seq<N>| #[trigger]
                self.weighs(position, weights) && second == blended(
                    normalized(weights),
                    self.values(),
                );
            assert(a =~= b);
        }
    }

    /// A weight function that hands every weight back unchanged leaves the
    /// interpolation as it is without a weight function, where normalising
    /// the raw weights rounds nowhere and division by one gives back each
    /// normalised weight.
    pub proof fn lemma_identity_weighted_function(
        &self,
        with_identity: Self,
        position: C,
        result: N,
    )
        requires
            self.well_formed(),
            with_identity.well_formed(),
            !self.has_weighted_function(),
            with_identity.has_weighted_function(),
            forall|weight: N, reshaped: N|
                with_identity.reshapes(weight, reshaped) ==> reshaped == weight,
            with_identity.points() == self.points(),
            with_identity.values() == self.values(),
            with_identity.power_parameter() == self.power_parameter(),
            normalizes_exactly(self.raw_weights(position)),
            forall|i: int|
                0 <= i < self.points().len() ==> (#[trigger] normalized(
                    self.raw_weights(position),
                )[i]).spec_divided_by(N::spec_one()) == normalized(self.raw_weights(position))[i],
            with_identity.interpolates(position, result),
        ensures
            self.interpolates(position, result),
    {
        assert(with_identity.distances(position) =~= self.distances(position));
        assert(with_identity.raw_weights(position) =~= self.raw_weights(position));
        assert forall|i: int| self.exact_match_at(position, i) implies result == self.values()[i] by {
            assert(with_identity.exact_match_at(position, i));
        }
        if self.no_exact_match(position) {
            assert(with_identity.no_exact_match(position));
            let reshaped = choose|weights: Seq<N>| #[trigger]
                with_identity.weighs(position, weights) && result == blended(
                    normalized(weights),
                    self.values(),
                );
            assert(reshaped =~= normalized(self.raw_weights(position)));
            lemma_normalizing_again_changes_nothing(self.raw_weights(position));
            assert(self.weighs(position, self.raw_weights(position)));
        }
    }
}

} // verus!
