use vstd::prelude::*;
use crate::random::gen_range;

verus! {

/// A fresh bucket holds between 1 and `MAX_BUCKET_CAP - 1`.
pub const MAX_BUCKET_CAP: i32 = 30;

/// Falling numbers carry values from 1 to `MAX_NUMBER - 1`.
pub const MAX_NUMBER: i32 = 40;

/// A number falls on a frame whose roll from `0..100` is at least this.
pub const SPAWN_PERCENT: i32 = 95;

#[derive(Clone, Copy, Debug, PartialEq, Eq, Structural)]
pub enum RainOutcome {
    /// The bucket was filled exactly.
    Won,
    /// The bucket overflowed.
    Lost,
}

/// Whether a frame's roll from `0..100` lets a new number fall: it does
/// for the top `100 - SPAWN_PERCENT` rolls.
pub fn spawns(roll: i32) -> (r: bool)
    ensures
        r == (roll >= SPAWN_PERCENT),
{
    roll >= SPAWN_PERCENT
}

/// The value of a new falling number, if one falls this frame: a roll from
/// `0..100` decides, as `spawns` says, and the value is drawn from
/// `1..MAX_NUMBER`.
pub fn spawn_number() -> (r: Option<i32>)
    ensures
        r matches Some(v) ==> 1 <= v < MAX_NUMBER,
{
    let roll = gen_range(0, 100);
    if spawns(roll) {
        Some(gen_range(1, MAX_NUMBER))
    } else {
        None
    }
}

/// The bucket of the number-rain game and the room left in it.
pub struct Bucket {
    pub cap: i32,
}

impl Bucket {
    /// A bucket with room for `cap`.
    pub fn with_cap(cap: i32) -> (b: Bucket)
        ensures
            b.cap == cap,
    {
        Bucket { cap }
    }

    /// A bucket whose room is drawn from `1..MAX_BUCKET_CAP`.
    pub fn new() -> (b: Bucket)
        ensures
            1 <= b.cap < MAX_BUCKET_CAP,
    {
        Bucket { cap: gen_range(1, MAX_BUCKET_CAP) }
    }

    /// A number that fell into the bucket takes up its value in room.
    pub fn catch(&mut self, value: i32)
        requires
            i32::MIN <= old(self).cap - value <= i32::MAX,
        ensures
            final(self).cap == old(self).cap - value,
    {
        self.cap = self.cap - value;
    }

    /// Whether the game has ended: no room is left.
    pub fn is_over(&self) -> (r: bool)
        ensures
            r == (self.cap <= 0),
    {
        self.cap <= 0
    }

    /// How the game ended, if it has: won when the bucket is exactly full,
    /// lost when it overflowed.
    pub fn outcome(&self) -> (r: Option<RainOutcome>)
        ensures
            r == if self.cap == 0 {
                Some(RainOutcome::Won)
            } else if self.cap < 0 {
                Some(RainOutcome::Lost)
            } else {
                None::<RainOutcome>
            },
    {
        if self.cap == 0 {
            Some(RainOutcome::Won)
        } else if self.cap < 0 {
            Some(RainOutcome::Lost)
        } else {
            None
        }
    }
}

} // verus!
