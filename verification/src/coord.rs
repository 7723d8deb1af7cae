//! Positions and the distance between them.
use crate::number::{cancels, keeps_zero, mirrors, Number};
use vstd::prelude::*;

verus! {

/// A position that knows its distance to another position of the same shape.
///
/// The distance is a function of the two positions: `spec_distance_to` names
/// it, and `distance_to` returns exactly that.
pub trait Coord<N: Number>: Sized {
    /// The distance from `self` to `rhs`.
    spec fn spec_distance_to(&self, rhs: &Self) -> N;

    fn distance_to(&self, rhs: &Self) -> (d: N)
        ensures
            d == self.spec_distance_to(rhs),
    ;
}

/// The square of the difference `to - from`.
pub open spec fn squared_difference<N: Number>(from: N, to: N) -> N {
    to.spec_minus(from).spec_times(to.spec_minus(from))
}

/// A position on a line: the distance is the absolute difference.
impl<N: Number> Coord<N> for N {
    open spec fn spec_distance_to(&self, rhs: &Self) -> N {
        rhs.spec_minus(*self).spec_abs()
    }

    fn distance_to(&self, rhs: &Self) -> (d: N) {
        rhs.minus(*self).abs()
    }
}

/// A position in the plane, with the Euclidean distance.
impl<N: Number> Coord<N> for (N, N) {
    open spec fn spec_distance_to(&self, rhs: &Self) -> N {
        squared_difference(self.0, rhs.0).spec_plus(squared_difference(self.1, rhs.1)).spec_sqrt()
    }

    fn distance_to(&self, rhs: &Self) -> (d: N) {
        let dx = rhs.0.minus(self.0);
        let dy = rhs.1.minus(self.1);
        dx.times(dx).plus(dy.times(dy)).sqrt()
    }
}

/// A position in space, with the Euclidean distance.
impl<N: Number> Coord<N> for (N, N, N) {
    open spec fn spec_distance_to(&self, rhs: &Self) -> N {
        squared_difference(self.0, rhs.0).spec_plus(squared_difference(self.1, rhs.1)).spec_plus(
            squared_difference(self.2, rhs.2),
        ).spec_sqrt()
    }

    fn distance_to(&self, rhs: &Self) -> (d: N) {
        let dx = rhs.0.minus(self.0);
        let dy = rhs.1.minus(self.1);
        let dz = rhs.2.minus(self.2);
        dx.times(dx).plus(dy.times(dy)).plus(dz.times(dz)).sqrt()
    }
}

/// On a line, the distance from `a` to `b` is the distance from `b` to `a`,
/// wherever the difference of the two mirrors.
pub proof fn lemma_line_distance_is_symmetric<N: Number>(a: N, b: N)
    requires
        mirrors(a, b),
    ensures
        a.spec_distance_to(&b) == b.spec_distance_to(&a),
{
}

/// In the plane, the distance from `a` to `b` is the distance from `b` to
/// `a`, wherever the differences of the components mirror.
pub proof fn lemma_plane_distance_is_symmetric<N: Number>(a: (N, N), b: (N, N))
    requires
        mirrors(a.0, b.0),
        mirrors(a.1, b.1),
    ensures
        a.spec_distance_to(&b) == b.spec_distance_to(&a),
{
}

/// In space, the distance from `a` to `b` is the distance from `b` to `a`,
/// wherever the differences of the components mirror.
pub proof fn lemma_space_distance_is_symmetric<N: Number>(a: (N, N, N), b: (N, N, N))
    requires
        mirrors(a.0, b.0),
        mirrors(a.1, b.1),
        mirrors(a.2, b.2),
    ensures
        a.spec_distance_to(&b) == b.spec_distance_to(&a),
{
}

/// On a line, a position whose coordinate cancels is at distance zero from
/// itself, in a number type that keeps zero.
pub proof fn lemma_line_distance_to_self_is_zero<N: Number>(a: N)
    requires
        keeps_zero::<N>(),
        cancels(a),
    ensures
        a.spec_distance_to(&a) == N::spec_zero(),
        a.spec_distance_to(&a).spec_is_zero(),
{
}

/// In the plane, a position whose coordinates cancel is at distance zero from
/// itself, in a number type that keeps zero.
pub proof fn lemma_plane_distance_to_self_is_zero<N: Number>(a: (N, N))
    requires
        keeps_zero::<N>(),
        cancels(a.0),
        cancels(a.1),
    ensures
        a.spec_distance_to(&a) == N::spec_zero(),
        a.spec_distance_to(&a).spec_is_zero(),
{
}

/// In space, a position whose coordinates cancel is at distance zero from
/// itself, in a number type that keeps zero.
pub proof fn lemma_space_distance_to_self_is_zero<N: Number>(a: (N, N, N))
    requires
        keeps_zero::<N>(),
        cancels(a.0),
        cancels(a.1),
        cancels(a.2),
    ensures
        a.spec_distance_to(&a) == N::spec_zero(),
        a.spec_distance_to(&a).spec_is_zero(),
{
}

} // verus!
