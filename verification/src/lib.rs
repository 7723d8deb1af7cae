//! Inverse distance weighting: estimate a value at a position as the
//! distance-weighted average of known samples.
//!
//! The interpolator is written once over two capabilities: a [`Number`] the
//! arithmetic is carried out in, and a [`Coord`] that measures the distance
//! between two positions. Scalars, pairs and triples of a `Number` are
//! coordinates out of the box.
//!
//! The weight of a sample is `1 / distance(point, position)^p`, with `p`
//! the power parameter (2 unless set by [`IDW::power`]). Weights are
//! normalised, optionally reshaped by a function installed with
//! [`IDW::weighted_function`] and normalised again, and then blended with the
//! sample values. A position that coincides with a sample yields that
//! sample's value unchanged.
pub mod coord;
pub mod idw;
pub mod number;
pub mod weights;

pub use coord::Coord;
pub use idw::{ConfigurationError, IDW};
pub use number::Number;
