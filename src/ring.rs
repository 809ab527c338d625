use vstd::prelude::*;
use vstd::arithmetic::div_mod::{lemma_fundamental_div_mod, lemma_fundamental_div_mod_converse};
use vstd::arithmetic::mul::lemma_mul_inequality;
use crate::{event, Event, TICKS_PER_BEAT, RING_LIGHT};
use crate::pace::{PaceBucket, PaceMarker};

verus! {

/// The first whole beat at or after `t` ticks.
pub open spec fn ceil_beat(t: int) -> int {
    (t + TICKS_PER_BEAT - 1) / (TICKS_PER_BEAT as int)
}

/// Ring-light value of a stretch: 3 for medium, 7 for fast, none for slow.
pub open spec fn ring_value_of(b: PaceBucket) -> i32 {
    match b {
        PaceBucket::Medium => 3,
        PaceBucket::Fast => 7,
        PaceBucket::Slow => 0,
    }
}

/// Ring pulses on the whole beats `lo`, `lo + 1`, ... below `hi`.
pub open spec fn beat_pulses(lo: int, hi: int, value: i32) -> Seq<Event> {
    Seq::new(
        if hi > lo {
            (hi - lo) as nat
        } else {
            0
        },
        |k: int| event(((lo + k) * TICKS_PER_BEAT) as i64, RING_LIGHT, value),
    )
}

/// Ring pulses of the stretch from marker `m` up to `next_time`: one at
/// `m.time` when it is off the beat, then one on each whole beat from
/// `ceil(m.time)` up to but excluding `next_time`. Slow stretches get none.
pub open spec fn fill_between(m: PaceMarker, next_time: int) -> Seq<Event> {
    if m.bucket == PaceBucket::Slow {
        Seq::empty()
    } else {
        let v = ring_value_of(m.bucket);
        let off_beat = if ceil_beat(m.time as int) * TICKS_PER_BEAT != m.time {
            seq![event(m.time, RING_LIGHT, v)]
        } else {
            Seq::<Event>::empty()
        };
        off_beat + beat_pulses(ceil_beat(m.time as int), ceil_beat(next_time), v)
    }
}

/// The fill of the stretches that start at the first `k` markers.
pub open spec fn fill_upto(markers: Seq<PaceMarker>, k: int) -> Seq<Event>
    decreases k,
{
    if k <= 0 {
        Seq::empty()
    } else {
        fill_upto(markers, k - 1) + fill_between(markers[k - 1], markers[k].time as int)
    }
}

/// The fill between consecutive markers; none after the last.
pub open spec fn ring_fill(markers: Seq<PaceMarker>) -> Seq<Event> {
    if markers.len() < 2 {
        Seq::empty()
    } else {
        fill_upto(markers, markers.len() - 1)
    }
}

/// `ceil_beat(t)` is the least beat whose tick is at or after `t`.
pub proof fn lemma_ceil_beat(t: int, k: int)
    ensures
        ceil_beat(t) * TICKS_PER_BEAT >= t,
        (ceil_beat(t) - 1) * TICKS_PER_BEAT < t,
        k * TICKS_PER_BEAT >= t <==> k >= ceil_beat(t),
{
    let c = ceil_beat(t);
    lemma_fundamental_div_mod(t + TICKS_PER_BEAT - 1, TICKS_PER_BEAT as int);
    if k >= c {
        lemma_mul_inequality(c, k, TICKS_PER_BEAT as int);
    } else {
        lemma_mul_inequality(k, c - 1, TICKS_PER_BEAT as int);
    }
}

fn ceil_beat_exec(t: i64) -> (r: i128)
    ensures
        r == ceil_beat(t as int),
{
    let tb: i128 = TICKS_PER_BEAT as i128;
    if t >= 0 {
        (((t as i128 + tb - 1) as u128) / (tb as u128)) as i128
    } else {
        let u: u128 = (-(t as i128)) as u128;
        let a: u128 = u / (tb as u128);
        let r: u128 = u % (tb as u128);
        proof {
            lemma_fundamental_div_mod(u as int, tb as int);
            lemma_fundamental_div_mod_converse(
                t + tb - 1,
                tb as int,
                -(a as int),
                tb - 1 - r,
            );
        }
        -(a as i128)
    }
}

/// Appends the ring pulses of the stretch from `m` up to `next_time`.
pub fn fill_stretch(m: &PaceMarker, next_time: i64, out: &mut Vec<Event>)
    ensures
        final(out)@ == old(out)@ + fill_between(*m, next_time as int),
{
    let value: i32 = match m.bucket {
        PaceBucket::Medium => 3,
        PaceBucket::Fast => 7,
        PaceBucket::Slow => {
            assert(old(out)@ =~= old(out)@ + fill_between(*m, next_time as int));
            return;
        },
    };
    let tb: i128 = TICKS_PER_BEAT as i128;
    let lo = ceil_beat_exec(m.time);
    let ghost base = old(out)@;
    if lo * tb != m.time as i128 {
        out.push(Event { time: m.time, channel: RING_LIGHT, value });
    }
    let ghost start = out@;
    let ghost hi = ceil_beat(next_time as int);
    proof {
        lemma_ceil_beat(m.time as int, lo as int);
    }
    let mut k: i128 = lo;
    while k * tb < next_time as i128
        invariant
            tb == TICKS_PER_BEAT,
            lo == ceil_beat(m.time as int),
            hi == ceil_beat(next_time as int),
            lo <= k,
            k <= hi || k == lo,
            k * tb >= m.time,
            k * tb <= i64::MAX as int + tb,
            out@ == start + beat_pulses(lo as int, k as int, value),
        decreases hi - k,
    {
        proof {
            lemma_ceil_beat(next_time as int, k as int);
            assert(k < hi);
        }
        out.push(Event { time: (k * tb) as i64, channel: RING_LIGHT, value });
        assert(out@ =~= start + beat_pulses(lo as int, (k + 1) as int, value));
        k = k + 1;
    }
    proof {
        lemma_ceil_beat(next_time as int, k as int);
        lemma_ceil_beat(next_time as int, lo as int);
        assert(beat_pulses(lo as int, k as int, value) =~= beat_pulses(
            lo as int,
            hi,
            value,
        ));
    }
    assert(out@ =~= base + fill_between(*m, next_time as int));
}

/// Appends the ring fill of a list of pace markers.
pub fn fill_ring_lights(markers: &Vec<PaceMarker>, out: &mut Vec<Event>)
    ensures
        final(out)@ == old(out)@ + ring_fill(markers@),
{
    let ghost base = old(out)@;
    if markers.len() < 2 {
        assert(out@ =~= base + ring_fill(markers@));
        return;
    }
    let mut i: usize = 0;
    while i + 1 < markers.len()
        invariant
            i + 1 <= markers.len(),
            out@ == base + fill_upto(markers@, i as int),
        decreases markers.len() - i,
    {
        fill_stretch(&markers[i], markers[i + 1].time, out);
        assert(out@ =~= base + fill_upto(markers@, (i + 1) as int));
        i += 1;
    }
}

/// The ring fill of a list of pace markers.
pub fn ring_light_events(markers: &Vec<PaceMarker>) -> (r: Vec<Event>)
    ensures
        r@ == ring_fill(markers@),
{
    let mut out: Vec<Event> = Vec::new();
    fill_ring_lights(markers, &mut out);
    assert(out@ =~= ring_fill(markers@));
    out
}

} // verus!
