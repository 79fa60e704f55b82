use vstd::prelude::*;

verus! {

/// Relies on `rand::thread_rng` and `rand::Rng::gen_ratio`: true with
/// probability `numerator / denominator`, never true when the numerator is
/// zero, always true when it equals the denominator. `gen_ratio` panics when
/// the denominator is zero or below the numerator.
#[verifier::external_body]
pub(crate) fn draw_ratio(numerator: u32, denominator: u32) -> (r: bool)
    requires
        0 < denominator,
        numerator <= denominator,
    ensures
        numerator == 0 ==> !r,
        numerator == denominator ==> r,
{
    rand::Rng::gen_ratio(&mut rand::thread_rng(), numerator, denominator)
}

/// Relies on `rand::thread_rng` and `rand::Rng::gen_range` over `0..bound`:
/// a value drawn uniformly below `bound`. `gen_range` panics on an empty
/// range.
#[verifier::external_body]
pub(crate) fn draw_below(bound: usize) -> (r: usize)
    requires
        0 < bound,
    ensures
        r < bound,
{
    rand::Rng::gen_range(&mut rand::thread_rng(), 0..bound)
}

} // verus!
