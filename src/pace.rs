use vstd::prelude::*;
use crate::TICKS_PER_BEAT;

verus! {

/// Tempo class of a note, by the gap to the next note: under one beat is
/// fast, under two beats medium, the rest slow.
#[derive(Clone, Copy, Debug, PartialEq, Eq, Structural)]
pub enum PaceBucket {
    Fast,
    Medium,
    Slow,
}

/// A change of tempo class, at the time of the note where it happens.
#[derive(Clone, Copy, Debug, PartialEq, Eq, Structural)]
pub struct PaceMarker {
    pub bucket: PaceBucket,
    pub time: i64,
}

pub open spec fn bucket_of(padding: int) -> PaceBucket {
    if padding >= 2 * TICKS_PER_BEAT {
        PaceBucket::Slow
    } else if padding >= TICKS_PER_BEAT {
        PaceBucket::Medium
    } else {
        PaceBucket::Fast
    }
}

/// The tempo class of a padding in ticks.
pub fn classify(padding: i128) -> (r: PaceBucket)
    ensures
        r == bucket_of(padding as int),
{
    if padding >= 2 * TICKS_PER_BEAT as i128 {
        PaceBucket::Slow
    } else if padding >= TICKS_PER_BEAT as i128 {
        PaceBucket::Medium
    } else {
        PaceBucket::Fast
    }
}

} // verus!
