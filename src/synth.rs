use vstd::prelude::*;
use crate::{
    event, Event, Note, TICKS_PER_BEAT, BACK_LIGHT, LEFT_LASER, LEFT_LASER_SPEED, RIGHT_LASER,
    RIGHT_LASER_SPEED, RING_ROTATION, RING_ZOOM, ROAD_LIGHT, BOMB, ANY_DIRECTION,
};
use crate::laser::{
    calculate_laser_speed, flash_value, flash_value_of, laser_color, laser_color_of,
    laser_speed_of,
};
use crate::pace::{bucket_of, classify, PaceBucket, PaceMarker};
use crate::padding::{padded_note_of, resolve_padding, starts_stack, PaddedNote};

verus! {

/// What the synthesizer carries from one note to the next.
#[derive(Clone, Copy, Debug)]
pub struct PaceState {
    pub previous_padding: Option<i128>,
    pub previous_time: Option<i64>,
    pub left_laser_next: bool,
}

pub open spec fn initial_state() -> PaceState {
    PaceState { previous_padding: None, previous_time: None, left_laser_next: true }
}

/// The note stands at the time of the last note processed.
pub open spec fn is_repeat(st: PaceState, p: PaddedNote) -> bool {
    st.previous_time == Some(p.note.time)
}

/// The note's tempo class differs from the last processed note's, or it is
/// the first note processed.
pub open spec fn pace_changes(st: PaceState, p: PaddedNote) -> bool {
    match st.previous_padding {
        None => true,
        Some(prev) => bucket_of(prev as int) != bucket_of(p.padding as int),
    }
}

/// Both lasers fire together: a stacked note in a slow stretch.
pub open spec fn double_lasers(p: PaddedNote) -> bool {
    p.stacked && p.padding >= 2 * TICKS_PER_BEAT
}

pub open spec fn light_value_of(b: PaceBucket) -> i32 {
    match b {
        PaceBucket::Slow => 3,
        PaceBucket::Medium => 2,
        PaceBucket::Fast => 6,
    }
}

/// Back light and road reset of a bomb or an any-direction note.
pub open spec fn flash_events(p: PaddedNote) -> Seq<Event> {
    seq![
        event(p.note.time, BACK_LIGHT, flash_value_of(p.padding as int)),
        event(p.note.time, ROAD_LIGHT, 0),
    ]
}

/// A ring zoom on a change of tempo, then the road light by tempo class and a
/// back-light reset.
pub open spec fn pace_light_events(st: PaceState, p: PaddedNote) -> Seq<Event> {
    let t = p.note.time;
    let zoom = if pace_changes(st, p) {
        seq![event(t, RING_ZOOM, 0)]
    } else {
        Seq::<Event>::empty()
    };
    zoom + seq![
        event(t, ROAD_LIGHT, light_value_of(bucket_of(p.padding as int))),
        event(t, BACK_LIGHT, 0),
    ]
}

pub open spec fn laser_events(p: PaddedNote, left_next: bool) -> Seq<Event> {
    let t = p.note.time;
    let c = laser_color_of(p.padding as int);
    let s = laser_speed_of(p.padding as int) as i32;
    if double_lasers(p) {
        seq![
            event(t, RIGHT_LASER, c),
            event(t, LEFT_LASER, c),
            event(t, LEFT_LASER_SPEED, s),
            event(t, RIGHT_LASER_SPEED, s),
        ]
    } else if left_next {
        seq![event(t, RIGHT_LASER, 0), event(t, LEFT_LASER_SPEED, s), event(t, LEFT_LASER, c)]
    } else {
        seq![event(t, LEFT_LASER, 0), event(t, RIGHT_LASER_SPEED, s), event(t, RIGHT_LASER, c)]
    }
}

/// Events of one note, given the state before it.
pub open spec fn note_events(st: PaceState, p: PaddedNote) -> Seq<Event> {
    if is_repeat(st, p) {
        Seq::empty()
    } else if p.note.is_bomb() {
        flash_events(p)
    } else if p.note.is_any_direction() {
        flash_events(p) + laser_events(p, st.left_laser_next)
    } else {
        pace_light_events(st, p) + laser_events(p, st.left_laser_next)
    }
}

/// Pace markers of one note: one where its tempo class changes.
pub open spec fn note_markers(st: PaceState, p: PaddedNote) -> Seq<PaceMarker> {
    if !is_repeat(st, p) && !p.note.is_bomb() && !p.note.is_any_direction() && pace_changes(
        st,
        p,
    ) {
        seq![PaceMarker { bucket: bucket_of(p.padding as int), time: p.note.time }]
    } else {
        Seq::empty()
    }
}

/// The note picks one laser side, the one `left_laser_next` names.
pub open spec fn picks_side(st: PaceState, p: PaddedNote) -> bool {
    !is_repeat(st, p) && !p.note.is_bomb() && !double_lasers(p)
}

pub open spec fn next_state(st: PaceState, p: PaddedNote) -> PaceState {
    if is_repeat(st, p) || p.note.is_bomb() {
        st
    } else {
        PaceState {
            previous_padding: Some(p.padding),
            previous_time: Some(p.note.time),
            left_laser_next: if double_lasers(p) {
                st.left_laser_next
            } else {
                !st.left_laser_next
            },
        }
    }
}

/// A ring rotation at the first note of each stack.
pub open spec fn rotation_events(notes: Seq<Note>, i: int) -> Seq<Event> {
    if starts_stack(notes, i) {
        seq![event(notes[i].time, RING_ROTATION, 0)]
    } else {
        Seq::empty()
    }
}

/// Events, pace markers and state after the first `n` notes.
pub open spec fn synthesized(notes: Seq<Note>, n: int) -> (Seq<Event>, Seq<PaceMarker>, PaceState)
    decreases n,
{
    if n <= 0 {
        (Seq::empty(), Seq::empty(), initial_state())
    } else {
        let prev = synthesized(notes, n - 1);
        let p = padded_note_of(notes, n - 1);
        (
            prev.0 + rotation_events(notes, n - 1) + note_events(prev.2, p),
            prev.1 + note_markers(prev.2, p),
            next_state(prev.2, p),
        )
    }
}

pub open spec fn state_before(notes: Seq<Note>, i: int) -> PaceState {
    synthesized(notes, i).2
}

/// The per-note pass: its state, and the events and markers so far.
pub struct Synthesizer {
    pub state: PaceState,
    pub events: Vec<Event>,
    pub markers: Vec<PaceMarker>,
}

impl Synthesizer {
    pub fn new() -> (r: Synthesizer)
        ensures
            r.state == initial_state(),
            r.events@ == Seq::<Event>::empty(),
            r.markers@ == Seq::<PaceMarker>::empty(),
    {
        Synthesizer {
            state: PaceState { previous_padding: None, previous_time: None, left_laser_next: true },
            events: Vec::new(),
            markers: Vec::new(),
        }
    }

    fn push(&mut self, time: i64, channel: i32, value: i32)
        ensures
            final(self).events@ == old(self).events@.push(event(time, channel, value)),
            final(self).markers == old(self).markers,
            final(self).state == old(self).state,
    {
        self.events.push(Event { time, channel, value });
    }

    /// Emits the events of one note and moves the state on.
    pub fn process(&mut self, p: &PaddedNote)
        ensures
            final(self).events@ == old(self).events@ + note_events(old(self).state, *p),
            final(self).markers@ == old(self).markers@ + note_markers(old(self).state, *p),
            final(self).state == next_state(old(self).state, *p),
    {
        let ghost st = self.state;
        let ghost ev0 = self.events@;
        let t = p.note.time;
        if let Some(prev) = self.state.previous_time {
            if prev == t {
                assert(self.events@ =~= ev0 + note_events(st, *p));
                assert(self.markers@ =~= self.markers@ + note_markers(st, *p));
                return;
            }
        }
        let bomb = p.note.kind == BOMB;
        let any = p.note.cut_direction == ANY_DIRECTION;
        if bomb || any {
            self.push(t, BACK_LIGHT, flash_value(p.padding));
            self.push(t, ROAD_LIGHT, 0);
            if bomb {
                assert(self.events@ =~= ev0 + note_events(st, *p));
                assert(self.markers@ =~= self.markers@ + note_markers(st, *p));
                return;
            }
            assert(self.events@ =~= ev0 + flash_events(*p));
        } else {
            let bucket = classify(p.padding);
            let changes = match self.state.previous_padding {
                None => true,
                Some(prev) => classify(prev) != bucket,
            };
            if changes {
                self.push(t, RING_ZOOM, 0);
                self.markers.push(PaceMarker { bucket, time: t });
            }
            let light = match bucket {
                PaceBucket::Slow => 3,
                PaceBucket::Medium => 2,
                PaceBucket::Fast => 6,
            };
            self.push(t, ROAD_LIGHT, light);
            self.push(t, BACK_LIGHT, 0);
            assert(self.events@ =~= ev0 + pace_light_events(st, *p));
        }
        let ghost ev1 = self.events@;
        let color = laser_color(p.padding);
        let speed = calculate_laser_speed(p.padding);
        let double = p.stacked && p.padding >= 2 * TICKS_PER_BEAT as i128;
        if double {
            self.push(t, RIGHT_LASER, color);
            self.push(t, LEFT_LASER, color);
            self.push(t, LEFT_LASER_SPEED, speed);
            self.push(t, RIGHT_LASER_SPEED, speed);
        } else if self.state.left_laser_next {
            self.push(t, RIGHT_LASER, 0);
            self.push(t, LEFT_LASER_SPEED, speed);
            self.push(t, LEFT_LASER, color);
            self.state.left_laser_next = false;
        } else {
            self.push(t, LEFT_LASER, 0);
            self.push(t, RIGHT_LASER_SPEED, speed);
            self.push(t, RIGHT_LASER, color);
            self.state.left_laser_next = true;
        }
        assert(self.events@ =~= ev1 + laser_events(*p, st.left_laser_next));
        assert(self.events@ =~= ev0 + note_events(st, *p));
        assert(self.markers@ =~= old(self).markers@ + note_markers(st, *p));
        self.state.previous_padding = Some(p.padding);
        self.state.previous_time = Some(t);
    }
}

/// The per-note pass over a whole timeline.
pub fn synthesize(notes: &Vec<Note>) -> (r: Synthesizer)
    ensures
        r.events@ == synthesized(notes@, notes.len() as int).0,
        r.markers@ == synthesized(notes@, notes.len() as int).1,
        r.state == synthesized(notes@, notes.len() as int).2,
{
    let mut s = Synthesizer::new();
    let n = notes.len();
    let mut i: usize = 0;
    while i < n
        invariant
            n == notes.len(),
            i <= n,
            s.events@ == synthesized(notes@, i as int).0,
            s.markers@ == synthesized(notes@, i as int).1,
            s.state == synthesized(notes@, i as int).2,
        decreases n - i,
    {
        let p = resolve_padding(notes, i);
        let ghost ev0 = s.events@;
        let t = notes[i].time;
        if i + 1 < n && notes[i + 1].time == t && (i == 0 || notes[i - 1].time != t) {
            s.push(t, RING_ROTATION, 0);
        }
        assert(s.events@ =~= ev0 + rotation_events(notes@, i as int));
        s.process(&p);
        i += 1;
    }
    s
}

} // verus!
