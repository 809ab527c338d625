use vstd::prelude::*;
use crate::{Event, Note, RING_ROTATION};
use crate::pace::PaceMarker;
use crate::beatmap::lighting_events;
use crate::padding::{padded_note_of, padding_of, next_note_from, PaddedNote, NextNote};
use crate::synth::{
    flash_events, is_repeat, next_state, note_events, note_markers, picks_side, rotation_events,
    state_before, synthesized, PaceState,
};

verus! {

/// How many of the events are on channel `c`.
pub open spec fn count_channel(evs: Seq<Event>, c: i32) -> nat
    decreases evs.len(),
{
    if evs.len() == 0 {
        0
    } else {
        count_channel(evs.drop_last(), c) + if evs.last().channel == c {
            1nat
        } else {
            0nat
        }
    }
}

/// Events of note `i`: the stack's ring rotation, then the note's own.
pub open spec fn step_events(notes: Seq<Note>, i: int) -> Seq<Event> {
    rotation_events(notes, i) + note_events(state_before(notes, i), padded_note_of(notes, i))
}

/// Events that notes `s` to `e - 1` emit in the per-note pass.
pub open spec fn emitted(notes: Seq<Note>, s: int, e: int) -> Seq<Event>
    decreases e - s,
{
    if e <= s {
        Seq::empty()
    } else {
        emitted(notes, s, e - 1) + step_events(notes, e - 1)
    }
}

pub proof fn lemma_count_concat(a: Seq<Event>, b: Seq<Event>, c: i32)
    ensures
        count_channel(a + b, c) == count_channel(a, c) + count_channel(b, c),
    decreases b.len(),
{
    if b.len() > 0 {
        assert((a + b).drop_last() =~= a + b.drop_last());
        lemma_count_concat(a, b.drop_last(), c);
    } else {
        assert(a + b =~= a);
    }
}

pub proof fn lemma_count_none(evs: Seq<Event>, c: i32)
    requires
        forall|j: int| 0 <= j < evs.len() ==> evs[j].channel != c,
    ensures
        count_channel(evs, c) == 0,
    decreases evs.len(),
{
    if evs.len() > 0 {
        lemma_count_none(evs.drop_last(), c);
    }
}

/// The per-note events of a note are never ring rotations.
pub proof fn lemma_note_events_no_rotation(st: PaceState, p: PaddedNote)
    ensures
        count_channel(note_events(st, p), RING_ROTATION) == 0,
{
    let evs = note_events(st, p);
    assert forall|j: int| 0 <= j < evs.len() implies evs[j].channel != RING_ROTATION by {}
    lemma_count_none(evs, RING_ROTATION);
}

/// The output of the per-note pass after `e` notes is its output after `s`
/// notes followed by what notes `s` to `e - 1` emit.
pub proof fn lemma_emitted_extends(notes: Seq<Note>, s: int, e: int)
    requires
        0 <= s <= e,
    ensures
        synthesized(notes, e).0 == synthesized(notes, s).0 + emitted(notes, s, e),
    decreases e - s,
{
    if e == s {
        assert(synthesized(notes, s).0 + emitted(notes, s, e) =~= synthesized(notes, s).0);
    } else {
        lemma_emitted_extends(notes, s, e - 1);
        assert(synthesized(notes, e).0 =~= synthesized(notes, s).0 + emitted(notes, s, e));
    }
}

/// No notes, no events.
pub proof fn lemma_no_notes_no_events(notes: Seq<Note>)
    requires
        notes.len() == 0,
    ensures
        lighting_events(notes) == Seq::<Event>::empty(),
{
    assert(lighting_events(notes) =~= Seq::<Event>::empty());
}

/// A note at the same time as the note before it, where that one is no
/// bomb, is skipped: it emits nothing and leaves the state as it was.
pub proof fn lemma_repeat_skipped(notes: Seq<Note>, i: int)
    requires
        0 <= i,
        i + 1 < notes.len(),
        notes[i + 1].time == notes[i].time,
        !notes[i].is_bomb(),
    ensures
        step_events(notes, i + 1) == Seq::<Event>::empty(),
        note_markers(state_before(notes, i + 1), padded_note_of(notes, i + 1)) == Seq::<PaceMarker>::empty(),
        state_before(notes, i + 2) == state_before(notes, i + 1),
{
    let st = state_before(notes, i + 1);
    assert(is_repeat(st, padded_note_of(notes, i + 1)));
    assert(step_events(notes, i + 1) =~= Seq::<Event>::empty());
}

/// Consecutive notes at one time, where the first does not follow a note at
/// that time, give exactly one ring rotation between them.
pub proof fn lemma_stack_one_rotation(notes: Seq<Note>, s: int, e: int)
    requires
        0 <= s,
        s + 2 <= e <= notes.len(),
        forall|k: int| s <= k < e ==> notes[k].time == notes[s].time,
        s == 0 || notes[s - 1].time != notes[s].time,
    ensures
        count_channel(emitted(notes, s, e), RING_ROTATION) == 1,
{
    lemma_stack_rotations(notes, s, e);
}

proof fn lemma_stack_rotations(notes: Seq<Note>, s: int, m: int)
    requires
        0 <= s < m <= notes.len(),
        s + 1 < notes.len(),
        notes[s + 1].time == notes[s].time,
        forall|k: int| s <= k < m ==> notes[k].time == notes[s].time,
        s == 0 || notes[s - 1].time != notes[s].time,
    ensures
        count_channel(emitted(notes, s, m), RING_ROTATION) == 1,
    decreases m - s,
{
    let ev = step_events(notes, m - 1);
    lemma_count_concat(emitted(notes, s, m - 1), ev, RING_ROTATION);
    lemma_count_concat(
        rotation_events(notes, m - 1),
        note_events(state_before(notes, m - 1), padded_note_of(notes, m - 1)),
        RING_ROTATION,
    );
    lemma_note_events_no_rotation(state_before(notes, m - 1), padded_note_of(notes, m - 1));
    if m - 1 == s {
        assert(emitted(notes, s, m - 1) =~= Seq::<Event>::empty());
        assert(count_channel(rotation_events(notes, s), RING_ROTATION) == 1) by {
            let r = rotation_events(notes, s);
            assert(r.drop_last() =~= Seq::<Event>::empty());
        }
    } else {
        lemma_stack_rotations(notes, s, m - 1);
        assert(rotation_events(notes, m - 1) =~= Seq::<Event>::empty());
    }
}

/// Where no later note stands at another time, the padding is the note's
/// own time: the virtual next note stands at twice the time.
pub proof fn lemma_tail_padding(notes: Seq<Note>, i: int)
    requires
        0 <= i < notes.len(),
        forall|j: int| i < j < notes.len() ==> notes[j].time == notes[i].time,
    ensures
        padding_of(notes, i) == notes[i].time,
        padded_note_of(notes, i).padding == notes[i].time,
{
    lemma_tail_next(notes, i, i + 1);
}

proof fn lemma_tail_next(notes: Seq<Note>, i: int, j: int)
    requires
        0 <= i < j,
        i < notes.len(),
        forall|k: int| i < k < notes.len() ==> notes[k].time == notes[i].time,
    ensures
        next_note_from(notes, i, j) == NextNote::Synthesized((2 * notes[i].time) as i128),
    decreases notes.len() - j,
{
    if j < notes.len() {
        lemma_tail_next(notes, i, j + 1);
    }
}

/// The last note's padding is its own time.
pub proof fn lemma_last_padding(notes: Seq<Note>)
    requires
        notes.len() > 0,
    ensures
        padding_of(notes, notes.len() - 1) == notes[notes.len() - 1].time,
{
    lemma_tail_padding(notes, notes.len() - 1);
}

pub open spec fn picks_side_at(notes: Seq<Note>, i: int) -> bool {
    picks_side(state_before(notes, i), padded_note_of(notes, i))
}

/// The side that note `i` fires when it picks one: left when true.
pub open spec fn side_at(notes: Seq<Note>, i: int) -> bool {
    state_before(notes, i).left_laser_next
}

/// Of two notes that each fire one laser side, with no such note between
/// them, the second fires the other side.
pub proof fn lemma_sides_alternate(notes: Seq<Note>, i: int, j: int)
    requires
        0 <= i < j < notes.len(),
        picks_side_at(notes, i),
        picks_side_at(notes, j),
        forall|k: int| i < k < j ==> !picks_side_at(notes, k),
    ensures
        side_at(notes, j) != side_at(notes, i),
{
    lemma_side_toggled(notes, i, j);
}

proof fn lemma_side_toggled(notes: Seq<Note>, i: int, m: int)
    requires
        0 <= i < m <= notes.len(),
        picks_side_at(notes, i),
        forall|k: int| i < k < m ==> !picks_side_at(notes, k),
    ensures
        side_at(notes, m) != side_at(notes, i),
    decreases m - i,
{
    if m - 1 > i {
        lemma_side_toggled(notes, i, m - 1);
        assert(!picks_side_at(notes, m - 1));
    }
}

/// A bomb emits its back light and road reset, or nothing where it repeats
/// the last note's time, and leaves the state and the pace markers alone.
pub proof fn lemma_bomb_flash_only(st: PaceState, p: PaddedNote)
    requires
        p.note.is_bomb(),
    ensures
        !is_repeat(st, p) ==> note_events(st, p) == flash_events(p),
        !is_repeat(st, p) ==> note_events(st, p).len() == 2,
        is_repeat(st, p) ==> note_events(st, p).len() == 0,
        note_markers(st, p) == Seq::<PaceMarker>::empty(),
        next_state(st, p) == st,
{
}

} // verus!
