//! Trusted boundary to the `random` crate: the seeded pseudo-random source
//! that initial grids are drawn from. Verus believes only what is stated
//! here, and nothing is stated about the values drawn.

use vstd::prelude::*;

verus! {

/// The pseudo-random source of the `random` crate, used for the initial
/// seeding of a universe. The type is opaque here: nothing is assumed
/// about its internal state.
#[verifier::external_type_specification]
#[verifier::external_body]
pub struct ExDefaultSource(random::Default);

/// Relies on random::default: it hands out the calling thread's instance of
/// the Xorshift128+ source. Nothing is assumed of the state it arrives in.
#[verifier::external_body]
pub(crate) fn fresh_source() -> random::Default {
    random::default()
}

/// Relies on random::Default::seed: it resets the source to the given state.
/// The crate asks that at least one bit of the seed be nonzero, hence the
/// precondition. Nothing is assumed of the values the source will produce.
#[verifier::external_body]
pub(crate) fn seed_source(source: random::Default, seed: u64) -> random::Default
    requires
        seed != 0,
{
    source.seed([seed, 0])
}

/// Relies on random::Source::read_u64: one draw, uniformly distributed over
/// all of u64. No particular value is assumed: callers must cope with every
/// outcome.
#[verifier::external_body]
pub(crate) fn next_u64(source: &mut random::Default) -> u64 {
    random::Source::read_u64(source)
}

} // verus!
