use vstd::prelude::*;
use crate::{Event, Note};
use crate::ring::{fill_ring_lights, ring_fill};
use crate::synth::{synthesize, synthesized};

verus! {

/// A level: an opaque version string, the notes, and the lighting events.
pub struct BeatMap {
    pub version: String,
    pub notes: Vec<Note>,
    pub events: Vec<Event>,
}

/// All lighting events for a note timeline: those of the per-note pass, then
/// the ring fill of its pace markers.
pub open spec fn lighting_events(notes: Seq<Note>) -> Seq<Event> {
    let s = synthesized(notes, notes.len() as int);
    s.0 + ring_fill(s.1)
}

/// Replaces the beatmap's events with the lighting events of its notes; the
/// version and the notes are kept.
pub fn add_lighting_events(beatmap: BeatMap) -> (r: BeatMap)
    ensures
        r.version@ == beatmap.version@,
        r.notes@ == beatmap.notes@,
        r.events@ == lighting_events(beatmap.notes@),
{
    let BeatMap { version, notes, events: _ } = beatmap;
    let s = synthesize(&notes);
    let mut events = s.events;
    fill_ring_lights(&s.markers, &mut events);
    BeatMap { version, notes, events }
}

} // verus!
