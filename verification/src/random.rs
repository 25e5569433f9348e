//! What the library takes from outside: pseudo-random numbers and shuffles
//! from `quad_rand`, and the interleaving of two sequences from `itertools`.
//!
//! Nothing in this file is proved. Each item says what it takes on trust.

use vstd::prelude::*;
use itertools::Itertools;
use quad_rand::{ChooseRandom, RandGenerator};
use crate::ball::{Ball, Probe};

verus! {

/// The generator of `quad_rand`, a value that Verus cannot look into.
#[verifier::external_type_specification]
#[verifier::external_body]
pub struct ExRandGenerator(quad_rand::RandGenerator);

/// `RandGenerator::new` makes a generator; nothing is claimed of it.
pub assume_specification[ quad_rand::RandGenerator::new ]() -> (generator: RandGenerator)
;

/// `RandGenerator::srand` seeds a generator; nothing is claimed of it.
pub assume_specification[ quad_rand::RandGenerator::srand ](generator: &RandGenerator, seed: u64)
;

/// `a` and `b` taken in turn, starting with `a`; once one has run out, the
/// rest of the other.
pub open spec fn interleaved<T>(a: Seq<T>, b: Seq<T>) -> Seq<T>
    decreases a.len() + b.len(),
{
    if a.len() == 0 {
        b
    } else {
        seq![a[0]] + interleaved(b, a.drop_first())
    }
}

/// `RandGenerator::gen_range` on `i64`: a number from `low` up to `high`.
///
/// The outside function scales a 32-bit draw into the range in `f64` and cuts
/// the fraction off. For bounds of at most 2^20 in size that arithmetic is
/// exact, so the number before the cut is at least `low` and less than
/// `high`. The cut is towards zero: the result is at least `low` and at most
/// `high`, and it is less than `high` where `high` is positive.
#[verifier::external_body]
pub(crate) fn draw_between(generator: &RandGenerator, low: i64, high: i64) -> (drawn: i64)
    requires
        -1_048_576 <= low < high <= 1_048_576,
    ensures
        low <= drawn <= high,
        0 < high ==> drawn < high,
{
    generator.gen_range(low, high)
}

/// `ChooseRandom::shuffle_with_state` on a slice of probes: the outside
/// function only swaps items, so the same probes come out in some order.
#[verifier::external_body]
pub(crate) fn shuffle_probes(generator: &RandGenerator, probes: &mut [Probe; 4])
    ensures
        final(probes)@.to_multiset() == old(probes)@.to_multiset(),
{
    probes.shuffle_with_state(generator);
}

/// `Itertools::interleave` on two vectors of balls: the balls of `first` and
/// `second` in turn, starting with `first`, then the rest of the longer.
#[verifier::external_body]
pub(crate) fn interleave_balls(first: Vec<Ball>, second: Vec<Ball>) -> (mixed: Vec<Ball>)
    ensures
        mixed@ == interleaved(first@, second@),
{
    first.into_iter().interleave(second.into_iter()).collect()
}

} // verus!
