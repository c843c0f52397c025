//! The pseudo-random stream that a chain draws its choices from.
//!
//! The generator is `rand_pcg`'s PCG32. Nothing is assumed about the values it
//! yields beyond the range that was asked for.

use rand::Rng;
use rand_pcg::Pcg32;
use vstd::prelude::*;

verus! {

/// `rand_pcg::Pcg32`, the generator, under the name of the struct that the
/// alias stands for. Nothing is assumed of its state.
#[verifier::external_type_specification]
#[verifier::external_body]
pub struct ExPcg32(rand_pcg::Lcg64Xsh32);

/// `rand::Rng::gen_range` on `usize`: some value of the half-open range
/// `low..high`. The call panics on an empty range, which `requires` rules out.
#[verifier::external_body]
pub(crate) fn draw_usize(rng: &mut Pcg32, low: usize, high: usize) -> (value: usize)
    requires
        low < high,
    ensures
        low <= value < high,
{
    rng.gen_range(low, high)
}

/// `rand::Rng::gen_range` on `i32`: some value of the half-open range
/// `low..high`. The call panics on an empty range, which `requires` rules out.
#[verifier::external_body]
pub(crate) fn draw_i32(rng: &mut Pcg32, low: i32, high: i32) -> (value: i32)
    requires
        low < high,
    ensures
        low <= value < high,
{
    rng.gen_range(low, high)
}

/// The vertex of the anchor triangle that the next triangle grows from.
///
/// A triangle is laid out from its first vertex, so growth continues at the
/// second or the third. The second turns the chain one way, the third the
/// other, which makes a chain meander.
#[derive(Clone, Copy, Debug, PartialEq, Eq, Structural)]
pub enum Pivot {
    Second,
    Third,
}

impl Pivot {
    /// The pivot that a draw from `0..2` stands for.
    pub open spec fn spec_from_draw(draw: i32) -> Pivot {
        if draw == 0 {
            Pivot::Second
        } else {
            Pivot::Third
        }
    }

    /// Maps a draw from `0..2` to a pivot: zero is the second vertex, anything
    /// else the third.
    pub fn from_draw(draw: i32) -> (pivot: Pivot)
        ensures
            pivot == Self::spec_from_draw(draw),
    {
        if draw == 0 {
            Pivot::Second
        } else {
            Pivot::Third
        }
    }

    /// Draws a pivot, each of the two with the same chance.
    pub fn draw(rng: &mut Pcg32) -> (pivot: Pivot) {
        Pivot::from_draw(draw_i32(rng, 0, 2))
    }

    pub open spec fn spec_vertex(&self) -> usize {
        match self {
            Pivot::Second => 1,
            Pivot::Third => 2,
        }
    }

    /// Index of the pivot among the three vertices of the anchor.
    #[verifier::when_used_as_spec(spec_vertex)]
    pub fn vertex(&self) -> (ix: usize)
        ensures
            ix == self.spec_vertex(),
    {
        match self {
            Pivot::Second => 1,
            Pivot::Third => 2,
        }
    }

    pub open spec fn spec_negates_offset(&self) -> bool {
        *self == Pivot::Third
    }

    /// Whether growth at this pivot turns by the negated rotation offset
    /// rather than by the offset itself.
    #[verifier::when_used_as_spec(spec_negates_offset)]
    pub fn negates_offset(&self) -> (negated: bool)
        ensures
            negated == self.spec_negates_offset(),
    {
        match self {
            Pivot::Second => false,
            Pivot::Third => true,
        }
    }
}

} // verus!
