use autolight::beatmap::{add_lighting_events, BeatMap};
use autolight::laser::{calculate_laser_speed, flash_value, laser_color};
use autolight::pace::{classify, PaceBucket, PaceMarker};
use autolight::padding::{next_note, resolve_padding, NextNote, PaddedNote};
use autolight::ring::ring_light_events;
use autolight::synth::{synthesize, Synthesizer};
use autolight::{
    Event, Note, BACK_LIGHT, BOMB, LEFT_LASER, LEFT_LASER_SPEED, RIGHT_LASER, RIGHT_LASER_SPEED,
    RING_LIGHT, RING_ROTATION, RING_ZOOM, ROAD_LIGHT, TICKS_PER_BEAT,
};

const T: i64 = TICKS_PER_BEAT;

fn note(time: i64, kind: i32) -> Note {
    Note { time, kind, cut_direction: 1 }
}

fn ev(time: i64, channel: i32, value: i32) -> Event {
    Event { time, channel, value }
}

fn light(notes: Vec<Note>) -> Vec<Event> {
    let map = BeatMap { version: "2.0.0".to_string(), notes, events: vec![ev(0, 0, 5)] };
    add_lighting_events(map).events
}

fn padded(time: i64, padding: i64) -> PaddedNote {
    PaddedNote { note: note(time, 0), padding: padding as i128, stacked: false }
}

#[test]
fn empty_notes_give_no_events() {
    assert!(light(vec![]).is_empty());
}

#[test]
fn version_and_notes_are_kept_and_events_replaced() {
    let notes = vec![note(T, 0)];
    let map = BeatMap { version: "2.0.0".to_string(), notes: notes.clone(), events: vec![ev(7, 7, 7)] };
    let out = add_lighting_events(map);
    assert_eq!(out.version, "2.0.0");
    assert_eq!(out.notes, notes);
    assert!(!out.events.contains(&ev(7, 7, 7)));
}

#[test]
fn pair_at_one_time_is_lit_once_with_one_rotation() {
    let out = light(vec![note(T, 0), note(T, 1)]);
    assert_eq!(
        out,
        vec![
            ev(T, RING_ROTATION, 0),
            ev(T, RING_ZOOM, 0),
            ev(T, ROAD_LIGHT, 2),
            ev(T, BACK_LIGHT, 0),
            ev(T, RIGHT_LASER, 0),
            ev(T, LEFT_LASER_SPEED, 2),
            ev(T, LEFT_LASER, 3),
        ]
    );
}

#[test]
fn stack_of_three_gives_one_rotation() {
    let out = light(vec![note(T, 0), note(T, 1), note(T, 0), note(3 * T, 1)]);
    let rotations = out.iter().filter(|e| e.channel == RING_ROTATION).count();
    assert_eq!(rotations, 1);
    let zooms_at_t = out.iter().filter(|e| e.channel == RING_ZOOM && e.time == T).count();
    assert_eq!(zooms_at_t, 1);
}

#[test]
fn full_timeline() {
    let b = 4 * T + T / 2;
    let out = light(vec![note(T, 0), note(2 * T, 1), note(2 * T, 0), note(b, 1)]);
    assert_eq!(
        out,
        vec![
            ev(T, RING_ZOOM, 0),
            ev(T, ROAD_LIGHT, 2),
            ev(T, BACK_LIGHT, 0),
            ev(T, RIGHT_LASER, 0),
            ev(T, LEFT_LASER_SPEED, 2),
            ev(T, LEFT_LASER, 3),
            ev(2 * T, RING_ROTATION, 0),
            ev(2 * T, RING_ZOOM, 0),
            ev(2 * T, ROAD_LIGHT, 3),
            ev(2 * T, BACK_LIGHT, 0),
            ev(2 * T, RIGHT_LASER, 3),
            ev(2 * T, LEFT_LASER, 3),
            ev(2 * T, LEFT_LASER_SPEED, 0),
            ev(2 * T, RIGHT_LASER_SPEED, 0),
            ev(b, ROAD_LIGHT, 3),
            ev(b, BACK_LIGHT, 0),
            ev(b, LEFT_LASER, 0),
            ev(b, RIGHT_LASER_SPEED, 0),
            ev(b, RIGHT_LASER, 3),
            ev(T, RING_LIGHT, 3),
        ]
    );
}

#[test]
fn last_note_padding_is_its_time() {
    let notes = vec![note(T, 0), note(3 * T, 1)];
    assert_eq!(resolve_padding(&notes, 1).padding, (3 * T) as i128);
    assert_eq!(next_note(&notes, 1), NextNote::Synthesized((6 * T) as i128));
    let stacked = vec![note(5 * T, 0), note(5 * T, 1)];
    let p = resolve_padding(&stacked, 0);
    assert_eq!(p.padding, (5 * T) as i128);
    assert!(p.stacked);
}

#[test]
fn padding_skips_notes_at_the_same_time() {
    let notes = vec![note(T, 0), note(T, 1), note(T + T / 2, 0)];
    assert_eq!(next_note(&notes, 0), NextNote::Distinct(note(T + T / 2, 0)));
    let p = resolve_padding(&notes, 0);
    assert_eq!(p.padding, (T / 2) as i128);
    assert!(p.stacked);
    assert!(!resolve_padding(&notes, 1).stacked);
}

#[test]
fn laser_sides_alternate() {
    let out = light(vec![note(T, 0), note(2 * T, 1), note(3 * T, 0), note(4 * T, 1)]);
    let sides: Vec<i32> = out
        .iter()
        .filter(|e| e.channel == LEFT_LASER_SPEED || e.channel == RIGHT_LASER_SPEED)
        .map(|e| e.channel)
        .collect();
    assert_eq!(sides, vec![LEFT_LASER_SPEED, RIGHT_LASER_SPEED, LEFT_LASER_SPEED, RIGHT_LASER_SPEED]);
}

#[test]
fn double_lasers_keep_the_side() {
    let mut s = Synthesizer::new();
    let first = PaddedNote { note: note(T, 0), padding: (3 * T) as i128, stacked: true };
    s.process(&first);
    assert!(s.state.left_laser_next);
    s.process(&padded(4 * T, 3 * T));
    assert!(!s.state.left_laser_next);
}

#[test]
fn laser_speed_values() {
    assert_eq!(calculate_laser_speed((T / 2) as i128), 6);
    assert_eq!(calculate_laser_speed((2 * T) as i128), 1);
    assert_eq!(calculate_laser_speed(T as i128), 2);
    assert_eq!(calculate_laser_speed((T / 4) as i128), 20);
    assert_eq!(calculate_laser_speed((3 * T) as i128), 0);
}

#[test]
fn laser_speed_saturates() {
    assert_eq!(calculate_laser_speed(0), i32::MAX);
    assert_eq!(calculate_laser_speed(-5), i32::MAX);
    assert_eq!(calculate_laser_speed(1), i32::MAX);
    assert_eq!(calculate_laser_speed(2), 576_024_000);
}

#[test]
fn colours_and_buckets() {
    assert_eq!(laser_color((T - 1) as i128), 7);
    assert_eq!(laser_color(T as i128), 3);
    assert_eq!(flash_value((T - 1) as i128), 6);
    assert_eq!(flash_value(T as i128), 2);
    assert_eq!(classify((T - 1) as i128), PaceBucket::Fast);
    assert_eq!(classify(T as i128), PaceBucket::Medium);
    assert_eq!(classify((2 * T - 1) as i128), PaceBucket::Medium);
    assert_eq!(classify((2 * T) as i128), PaceBucket::Slow);
}

#[test]
fn pace_markers_on_bucket_changes() {
    let mut s = Synthesizer::new();
    s.process(&padded(T, 5 * T / 2));
    s.process(&padded(2 * T, 5 * T / 2));
    s.process(&padded(3 * T, T / 2));
    assert_eq!(
        s.markers,
        vec![
            PaceMarker { bucket: PaceBucket::Slow, time: T },
            PaceMarker { bucket: PaceBucket::Fast, time: 3 * T },
        ]
    );
}

#[test]
fn ring_fill_between_medium_markers() {
    let a = 13 * T / 10;
    let markers = vec![
        PaceMarker { bucket: PaceBucket::Medium, time: a },
        PaceMarker { bucket: PaceBucket::Medium, time: 4 * T },
    ];
    assert_eq!(
        ring_light_events(&markers),
        vec![ev(a, RING_LIGHT, 3), ev(2 * T, RING_LIGHT, 3), ev(3 * T, RING_LIGHT, 3)]
    );
}

#[test]
fn ring_fill_values_and_slow_stretches() {
    let markers = vec![
        PaceMarker { bucket: PaceBucket::Fast, time: 0 },
        PaceMarker { bucket: PaceBucket::Slow, time: 2 * T },
        PaceMarker { bucket: PaceBucket::Medium, time: 5 * T },
        PaceMarker { bucket: PaceBucket::Fast, time: 6 * T },
    ];
    assert_eq!(
        ring_light_events(&markers),
        vec![ev(0, RING_LIGHT, 7), ev(T, RING_LIGHT, 7), ev(5 * T, RING_LIGHT, 3)]
    );
    assert!(ring_light_events(&vec![PaceMarker { bucket: PaceBucket::Fast, time: 0 }]).is_empty());
}

#[test]
fn ring_fill_before_zero() {
    let markers = vec![
        PaceMarker { bucket: PaceBucket::Fast, time: -3 * T / 2 },
        PaceMarker { bucket: PaceBucket::Slow, time: T / 2 },
    ];
    assert_eq!(
        ring_light_events(&markers),
        vec![ev(-3 * T / 2, RING_LIGHT, 7), ev(-T, RING_LIGHT, 7), ev(0, RING_LIGHT, 7)]
    );
}

#[test]
fn bomb_emits_two_events_and_keeps_state() {
    let out = light(vec![note(T, BOMB)]);
    assert_eq!(out, vec![ev(T, BACK_LIGHT, 2), ev(T, ROAD_LIGHT, 0)]);
    let mut s = Synthesizer::new();
    let bomb = PaddedNote { note: note(T, BOMB), padding: (T / 2) as i128, stacked: false };
    s.process(&bomb);
    assert_eq!(s.events, vec![ev(T, BACK_LIGHT, 6), ev(T, ROAD_LIGHT, 0)]);
    assert!(s.markers.is_empty());
    assert!(s.state.left_laser_next);
    assert_eq!(s.state.previous_time, None);
    assert_eq!(s.state.previous_padding, None);
}

#[test]
fn any_direction_note_flashes_and_fires_a_laser() {
    let n = Note { time: T, kind: 0, cut_direction: 8 };
    let s = synthesize(&vec![n]);
    assert_eq!(
        s.events,
        vec![
            ev(T, BACK_LIGHT, 2),
            ev(T, ROAD_LIGHT, 0),
            ev(T, RIGHT_LASER, 0),
            ev(T, LEFT_LASER_SPEED, 2),
            ev(T, LEFT_LASER, 3),
        ]
    );
    assert!(s.markers.is_empty());
    assert!(!s.state.left_laser_next);
}
