//! Automatic lighting for rhythm-game beatmaps: from the timing of the notes
//! alone, synthesize back-light, laser, ring and road-light events.
//!
//! Times are whole ticks, `TICKS_PER_BEAT` to a beat.
use vstd::prelude::*;

pub mod beatmap;
pub mod laser;
pub mod laws;
pub mod padding;
pub mod pace;
pub mod ring;
pub mod synth;

verus! {

/// Ticks in one beat: 2^7 * 3 * 5^3, so halves down to 1/128, thirds and
/// thousandths of a beat are whole numbers of ticks.
pub const TICKS_PER_BEAT: i64 = 48000;

/// Note kind of a bomb.
pub const BOMB: i32 = 3;

/// Cut direction that accepts a cut from any side.
pub const ANY_DIRECTION: i32 = 8;

// Event channels.
pub const BACK_LIGHT: i32 = 0;
pub const RING_LIGHT: i32 = 1;
pub const LEFT_LASER: i32 = 2;
pub const RIGHT_LASER: i32 = 3;
pub const ROAD_LIGHT: i32 = 4;
pub const RING_ROTATION: i32 = 8;
pub const RING_ZOOM: i32 = 9;
pub const LEFT_LASER_SPEED: i32 = 12;
pub const RIGHT_LASER_SPEED: i32 = 13;

/// A note placed by the mapper: its time in ticks, its kind (left, right,
/// bomb, ...) and its cut direction.
#[derive(Clone, Copy, Debug, PartialEq, Eq, Structural)]
pub struct Note {
    pub time: i64,
    pub kind: i32,
    pub cut_direction: i32,
}

/// A lighting event: its time in ticks, its channel and its value.
#[derive(Clone, Copy, Debug, PartialEq, Eq, Structural)]
pub struct Event {
    pub time: i64,
    pub channel: i32,
    pub value: i32,
}

pub open spec fn event(time: i64, channel: i32, value: i32) -> Event {
    Event { time, channel, value }
}

impl Note {
    pub open spec fn is_bomb(self) -> bool {
        self.kind == BOMB
    }

    pub open spec fn is_any_direction(self) -> bool {
        self.cut_direction == ANY_DIRECTION
    }
}

} // verus!
