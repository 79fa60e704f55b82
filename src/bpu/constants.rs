use vstd::prelude::*;

verus! {

/// A child's tape may be at most this many times as long as its parent's.
pub const OFFSPRING_MAX_GROWTH: usize = 2;

/// No tape is ever longer than this.
pub const MAX_TAPE_SIZE: usize = 2048;

/// A point mutation fires with probability
/// `POINT_MUTATION_NUMERATOR / POINT_MUTATION_DENOMINATOR`.
pub const POINT_MUTATION_NUMERATOR: u32 = 1;

pub const POINT_MUTATION_DENOMINATOR: u32 = 10;

/// A frameshift mutation fires with probability
/// `FRAMESHIFT_NUMERATOR / FRAMESHIFT_DENOMINATOR`.
pub const FRAMESHIFT_NUMERATOR: u32 = 1;

pub const FRAMESHIFT_DENOMINATOR: u32 = 10;

} // verus!
