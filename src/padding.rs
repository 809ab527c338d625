use vstd::prelude::*;
use crate::Note;

verus! {

/// The note after a note at a different time; past the end of the
/// timeline, a virtual note at twice the time.
#[derive(Clone, Copy, Debug, PartialEq, Eq, Structural)]
pub enum NextNote {
    Distinct(Note),
    Synthesized(i128),
}

impl NextNote {
    pub open spec fn time_of(self) -> int {
        match self {
            NextNote::Distinct(n) => n.time as int,
            NextNote::Synthesized(t) => t as int,
        }
    }

    pub fn time(&self) -> (r: i128)
        ensures
            r as int == self.time_of(),
    {
        match self {
            NextNote::Distinct(n) => n.time as i128,
            NextNote::Synthesized(t) => *t,
        }
    }
}

/// A note with the gap to the next note at another time, and whether the
/// note that follows it stands at the same time.
#[derive(Clone, Copy, Debug, PartialEq, Eq, Structural)]
pub struct PaddedNote {
    pub note: Note,
    pub padding: i128,
    pub stacked: bool,
}

/// From index `j` on, the first note whose time differs from note `i`'s.
pub open spec fn next_note_from(notes: Seq<Note>, i: int, j: int) -> NextNote
    decreases notes.len() - j,
{
    if j >= notes.len() {
        NextNote::Synthesized((2 * notes[i].time) as i128)
    } else if notes[j].time == notes[i].time {
        next_note_from(notes, i, j + 1)
    } else {
        NextNote::Distinct(notes[j])
    }
}

pub open spec fn next_note_of(notes: Seq<Note>, i: int) -> NextNote {
    next_note_from(notes, i, i + 1)
}

/// The note right after note `i` stands at the same time.
pub open spec fn stacked_at(notes: Seq<Note>, i: int) -> bool {
    i + 1 < notes.len() && notes[i + 1].time == notes[i].time
}

/// Note `i` is the first of two or more consecutive notes at one time.
pub open spec fn starts_stack(notes: Seq<Note>, i: int) -> bool {
    stacked_at(notes, i) && (i == 0 || notes[i - 1].time != notes[i].time)
}

pub open spec fn padding_of(notes: Seq<Note>, i: int) -> int {
    next_note_of(notes, i).time_of() - notes[i].time
}

pub open spec fn padded_note_of(notes: Seq<Note>, i: int) -> PaddedNote {
    PaddedNote {
        note: notes[i],
        padding: padding_of(notes, i) as i128,
        stacked: stacked_at(notes, i),
    }
}

pub proof fn lemma_next_note_bounds(notes: Seq<Note>, i: int, j: int)
    requires
        0 <= i < notes.len(),
    ensures
        -0x1_0000_0000_0000_0000 <= next_note_from(notes, i, j).time_of() <= 0x1_0000_0000_0000_0000,
    decreases notes.len() - j,
{
    if j < notes.len() && notes[j].time == notes[i].time {
        lemma_next_note_bounds(notes, i, j + 1);
    }
}

/// Scans forward from note `i` for the next note at another time.
pub fn next_note(notes: &Vec<Note>, i: usize) -> (r: NextNote)
    requires
        i < notes.len(),
    ensures
        r == next_note_of(notes@, i as int),
{
    let t = notes[i].time;
    let mut j: usize = i + 1;
    while j < notes.len()
        invariant
            i < j <= notes.len(),
            t == notes@[i as int].time,
            next_note_from(notes@, i as int, j as int) == next_note_of(notes@, i as int),
        decreases notes.len() - j,
    {
        if notes[j].time != t {
            return NextNote::Distinct(notes[j]);
        }
        j += 1;
    }
    NextNote::Synthesized(2 * (t as i128))
}

impl PaddedNote {
    pub fn new(note: Note, next: &NextNote, stacked: bool) -> (r: PaddedNote)
        requires
            -0x1_0000_0000_0000_0000 <= next.time_of() <= 0x1_0000_0000_0000_0000,
        ensures
            r == (PaddedNote {
                note,
                padding: (next.time_of() - note.time) as i128,
                stacked,
            }),
    {
        let padding = next.time() - note.time as i128;
        PaddedNote { note, padding, stacked }
    }
}

/// Note `i` with its padding and its stacked flag.
pub fn resolve_padding(notes: &Vec<Note>, i: usize) -> (r: PaddedNote)
    requires
        i < notes.len(),
    ensures
        r == padded_note_of(notes@, i as int),
        r.padding as int == padding_of(notes@, i as int),
{
    let next = next_note(notes, i);
    proof {
        lemma_next_note_bounds(notes@, i as int, i + 1);
    }
    let stacked = i + 1 < notes.len() && notes[i + 1].time == notes[i].time;
    PaddedNote::new(notes[i], &next, stacked)
}

} // verus!
