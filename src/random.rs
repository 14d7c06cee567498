use vstd::prelude::*;
use macroquad::rand::ChooseRandom;

verus! {

/// How many times `k` occurs in `s`.
pub open spec fn count_of(s: Seq<usize>, k: usize) -> nat
    decreases s.len(),
{
    if s.len() == 0 {
        0
    } else {
        count_of(s.drop_last(), k) + if s.last() == k {
            1nat
        } else {
            0nat
        }
    }
}

/// Relies on macroquad::rand::gen_range: on integers it computes
/// `low + (high - low) * r` in f64 for a draw `r` of at most `1 - 2^-32`,
/// and truncates. For `0 <= low` and `high <= 2^20` the sum cannot round up
/// to `high`, so the result lies in [low, high); it is `low` when the two
/// bounds meet.
#[verifier::external_body]
pub(crate) fn gen_range(low: i32, high: i32) -> (r: i32)
    requires
        0 <= low <= high <= 1048576,
    ensures
        low == high ==> r == low,
        low < high ==> low <= r < high,
{
    macroquad::rand::gen_range(low, high)
}

/// Relies on macroquad's ChooseRandom::shuffle (a Fisher-Yates pass that
/// only swaps items): the result is a permutation of the input.
#[verifier::external_body]
pub(crate) fn shuffle(v: &mut Vec<usize>)
    ensures
        final(v)@.len() == old(v)@.len(),
        forall|k: usize| count_of(final(v)@, k) == count_of(old(v)@, k),
{
    v.shuffle();
}

} // verus!
