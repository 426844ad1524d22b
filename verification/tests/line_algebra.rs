use symphoxy::note::length::{InvalidDuration, NoteLength};
use symphoxy::note::timbre::{piano, Timbre};
use symphoxy::note::{Note, NoteKind, NotePitch};
use symphoxy::piece::line::Line;

fn pitched(length: u16, frequency: f32) -> Note {
    Note(
        NoteLength(length),
        NoteKind::Pitched {
            pitch: NotePitch(frequency.to_bits()),
            timbre: Timbre::Piano,
            volume: 1.0f32.to_bits(),
        },
    )
}

fn rest(length: u16) -> Note {
    Note(NoteLength(length), NoteKind::Rest)
}

fn with_pickup(notes: Vec<Note>, pickup: Vec<Note>, hold_pickup: bool) -> Line {
    Line { notes, pickup, hold_pickup }
}

#[test]
fn new_line_is_empty() {
    let line = Line::new();
    assert_eq!(line.notes.len(), 0);
    assert_eq!(line.pickup.len(), 0);
    assert!(!line.hold_pickup);
    assert_eq!(line.length(), 0);
}

#[test]
fn length_sums_main_notes_only() {
    let line = with_pickup(vec![pitched(4, 261.626), pitched(8, 440.0)], vec![pitched(2, 440.0)], false);
    assert_eq!(line.length(), 12);
    assert_eq!(line.pickup_length(), 2);
}

#[test]
fn concat_without_pickup_appends() {
    let a = Line::from_notes(vec![pitched(4, 261.626), pitched(4, 293.66)]);
    let b = Line::from_notes(vec![pitched(8, 329.63)]);
    let joined = a.concat(&b).unwrap();
    assert_eq!(joined.notes, vec![pitched(4, 261.626), pitched(4, 293.66), pitched(8, 329.63)]);
    assert_eq!(joined.pickup, vec![]);
    assert!(!joined.hold_pickup);
}

#[test]
fn concat_pickup_drops_whole_trailing_note() {
    let a = Line::from_notes(vec![pitched(4, 261.626), pitched(2, 293.66)]);
    let b = with_pickup(vec![pitched(4, 329.63)], vec![pitched(2, 440.0)], false);
    let joined = a.concat(&b).unwrap();
    assert_eq!(joined.notes, vec![pitched(4, 261.626), pitched(2, 440.0), pitched(4, 329.63)]);
    assert_eq!(joined.length(), 10);
}

#[test]
fn concat_pickup_shortens_note_on_the_boundary() {
    let a = Line::from_notes(vec![pitched(4, 261.626), pitched(8, 293.66)]);
    let b = with_pickup(vec![pitched(4, 329.63)], vec![pitched(2, 440.0)], false);
    let joined = a.concat(&b).unwrap();
    assert_eq!(
        joined.notes,
        vec![pitched(4, 261.626), pitched(6, 293.66), pitched(2, 440.0), pitched(4, 329.63)]
    );
    assert_eq!(joined.length(), 16);
}

#[test]
fn concat_pickup_spans_several_notes() {
    let a = Line::from_notes(vec![pitched(4, 261.626), pitched(2, 293.66), pitched(2, 329.63)]);
    let b = with_pickup(vec![rest(4)], vec![pitched(2, 440.0), pitched(3, 493.88)], false);
    let joined = a.concat(&b).unwrap();
    assert_eq!(
        joined.notes,
        vec![pitched(3, 261.626), pitched(2, 440.0), pitched(3, 493.88), rest(4)]
    );
}

#[test]
fn concat_pickup_longer_than_line_leaves_nothing_of_it() {
    let a = Line::from_notes(vec![pitched(2, 261.626)]);
    let b = with_pickup(vec![pitched(4, 329.63)], vec![pitched(8, 440.0)], false);
    let joined = a.concat(&b).unwrap();
    assert_eq!(joined.notes, vec![pitched(8, 440.0), pitched(4, 329.63)]);
    assert_eq!(joined.length(), 12);
}

#[test]
fn concat_keeps_zero_length_notes_before_the_cut() {
    let a = Line::from_notes(vec![pitched(4, 261.626), rest(0), pitched(4, 293.66)]);
    let b = with_pickup(vec![], vec![pitched(4, 440.0)], false);
    let joined = a.concat(&b).unwrap();
    assert_eq!(joined.notes, vec![pitched(4, 261.626), rest(0), pitched(4, 440.0)]);
}

#[test]
fn concat_hold_ties_pickup_into_first_note() {
    let a = Line::from_notes(vec![pitched(8, 261.626)]);
    let b = with_pickup(
        vec![pitched(4, 329.63), pitched(4, 349.23)],
        vec![pitched(1, 440.0), pitched(1, 493.88)],
        true,
    );
    let joined = a.concat(&b).unwrap();
    assert_eq!(
        joined.notes,
        vec![pitched(6, 261.626), pitched(1, 440.0), pitched(5, 493.88), pitched(4, 349.23)]
    );
    assert_eq!(joined.length(), 16);
}

#[test]
fn concat_hold_without_pickup_ties_last_note_of_first_line() {
    let a = Line::from_notes(vec![pitched(4, 261.626)]);
    let b = with_pickup(vec![pitched(4, 329.63), rest(2)], vec![], true);
    let joined = a.concat(&b).unwrap();
    assert_eq!(joined.notes, vec![pitched(8, 261.626), rest(2)]);
}

#[test]
fn concat_hold_with_nothing_before_ties_nothing() {
    let a = Line::new();
    let b = with_pickup(vec![pitched(4, 329.63)], vec![], true);
    let joined = a.concat(&b).unwrap();
    assert_eq!(joined.notes, vec![pitched(4, 329.63)]);
}

#[test]
fn concat_hold_with_nothing_after_ties_nothing() {
    let a = Line::from_notes(vec![pitched(4, 261.626)]);
    let b = with_pickup(vec![], vec![pitched(2, 440.0)], true);
    let joined = a.concat(&b).unwrap();
    assert_eq!(joined.notes, vec![pitched(2, 261.626), pitched(2, 440.0)]);
}

#[test]
fn concat_fails_when_tie_is_too_long() {
    let a = Line::from_notes(vec![pitched(60000, 261.626)]);
    let b = with_pickup(vec![pitched(6000, 329.63)], vec![], true);
    assert_eq!(a.concat(&b), Err(InvalidDuration));
}

#[test]
fn concat_tie_of_longest_note_that_fits() {
    let a = Line::from_notes(vec![pitched(60000, 261.626)]);
    let b = with_pickup(vec![pitched(5535, 329.63)], vec![], true);
    let joined = a.concat(&b).unwrap();
    assert_eq!(joined.notes, vec![pitched(65535, 261.626)]);
}

#[test]
fn concat_result_has_pickup_of_first_line() {
    let a = with_pickup(vec![pitched(4, 261.626)], vec![pitched(1, 246.94)], true);
    let b = with_pickup(vec![pitched(4, 329.63)], vec![pitched(2, 440.0)], false);
    let joined = a.concat(&b).unwrap();
    assert_eq!(joined.pickup, vec![pitched(1, 246.94)]);
    assert!(joined.hold_pickup);
}

#[test]
fn concat_length_formula_on_values() {
    // length(A) - min(length(A), pickup(B)) + pickup(B) + length(B)
    let a = Line::from_notes(vec![pitched(4, 261.626), pitched(8, 293.66)]);
    let b = with_pickup(vec![pitched(4, 329.63), pitched(2, 349.23)], vec![pitched(5, 440.0)], true);
    let joined = a.concat(&b).unwrap();
    assert_eq!(joined.length(), 12 - 5 + 5 + 6);
    let short = Line::from_notes(vec![pitched(3, 261.626)]);
    let joined_short = short.concat(&b).unwrap();
    assert_eq!(joined_short.length(), 3 - 3 + 5 + 6);
}

#[test]
fn chaining_three_lines_resolves_pickups_pairwise() {
    let a = Line::from_notes(vec![pitched(4, 261.626)]);
    let b = with_pickup(vec![pitched(4, 293.66)], vec![pitched(1, 440.0)], false);
    let c = with_pickup(vec![pitched(4, 329.63)], vec![pitched(2, 493.88)], false);
    let joined = a.concat(&b).unwrap().concat(&c).unwrap();
    assert_eq!(
        joined.notes,
        vec![
            pitched(3, 261.626),
            pitched(1, 440.0),
            pitched(2, 293.66),
            pitched(2, 493.88),
            pitched(4, 329.63)
        ]
    );
}

#[test]
fn repeat_with_two_note_pickup_three_times() {
    let line = with_pickup(
        vec![pitched(4, 261.626), pitched(4, 293.66)],
        vec![pitched(1, 440.0), pitched(1, 493.88)],
        false,
    );
    let repeated = line.repeat(3).unwrap();
    assert_eq!(repeated.length(), 3 * 8);
    assert_eq!(
        repeated.notes,
        vec![
            pitched(4, 261.626),
            pitched(2, 293.66),
            pitched(1, 440.0),
            pitched(1, 493.88),
            pitched(4, 261.626),
            pitched(2, 293.66),
            pitched(1, 440.0),
            pitched(1, 493.88),
            pitched(4, 261.626),
            pitched(4, 293.66),
        ]
    );
    assert_eq!(repeated.pickup, line.pickup);
}

#[test]
fn repeat_once_is_the_line() {
    let line = with_pickup(vec![pitched(4, 261.626)], vec![pitched(1, 440.0)], true);
    assert_eq!(line.repeat(1).unwrap(), line);
}

#[test]
fn repeat_with_pickup_longer_than_line() {
    let line = with_pickup(vec![pitched(2, 261.626)], vec![pitched(3, 440.0)], false);
    let repeated = line.repeat(3).unwrap();
    // max(2, 3) + 2 * 2
    assert_eq!(repeated.length(), 7);
}

#[test]
fn repeat_fails_when_a_tie_grows_too_long() {
    let line = with_pickup(vec![pitched(40000, 261.626)], vec![], true);
    assert_eq!(line.repeat(2), Err(InvalidDuration));
}

#[test]
fn extend_appends_rest() {
    let line = Line::from_notes(vec![pitched(4, 261.626)]);
    let extended = line.extend(4);
    assert_eq!(extended.notes, vec![pitched(4, 261.626), rest(4)]);
    assert_eq!(extended.length(), 8);
}

#[test]
fn extend_by_nothing_is_a_copy() {
    let line = with_pickup(vec![pitched(4, 261.626)], vec![pitched(1, 440.0)], true);
    assert_eq!(line.extend(0), line);
}

#[test]
fn concat_note_appends() {
    let line = Line::from_notes(vec![pitched(4, 261.626)]);
    let longer = line.concat_note(rest(2));
    assert_eq!(longer.notes, vec![pitched(4, 261.626), rest(2)]);
}

#[test]
fn as_pickup_moves_notes() {
    let line = Line::from_notes(vec![pitched(2, 261.626), pitched(2, 293.66)]);
    let pickup = line.as_pickup();
    assert_eq!(pickup.notes, vec![]);
    assert_eq!(pickup.pickup, vec![pitched(2, 261.626), pitched(2, 293.66)]);
    assert!(!pickup.hold_pickup);
    assert_eq!(pickup.length(), 0);
}

#[test]
fn hold_into_sets_flag_only() {
    let line = Line::from_notes(vec![pitched(2, 261.626)]);
    let held = line.hold_into();
    assert!(held.hold_pickup);
    assert_eq!(held.notes, vec![pitched(2, 261.626)]);
}

#[test]
fn pickup_line_spliced_like_the_operators() {
    // -!(pickup) + main, onto a line before it
    let before = Line::from_notes(vec![pitched(8, 261.626)]);
    let pickup = Line::from_notes(vec![pitched(1, 440.0), pitched(1, 493.88)]).hold_into().as_pickup();
    let phrase = pickup.concat(&Line::from_notes(vec![pitched(4, 523.25)])).unwrap();
    assert_eq!(phrase.notes, vec![pitched(4, 523.25)]);
    assert_eq!(phrase.pickup, vec![pitched(1, 440.0), pitched(1, 493.88)]);
    assert!(phrase.hold_pickup);
    let joined = before.concat(&phrase).unwrap();
    assert_eq!(joined.notes, vec![pitched(6, 261.626), pitched(1, 440.0), pitched(5, 493.88)]);
}

#[test]
fn volume_sets_pitched_notes_in_main_and_pickup() {
    let line = with_pickup(vec![pitched(4, 261.626), rest(2)], vec![pitched(1, 440.0)], false);
    let quiet = line.volume(0.5f32.to_bits());
    let expect = |length: u16, frequency: f32| {
        Note(
            NoteLength(length),
            NoteKind::Pitched {
                pitch: NotePitch(frequency.to_bits()),
                timbre: Timbre::Piano,
                volume: 0.5f32.to_bits(),
            },
        )
    };
    assert_eq!(quiet.notes, vec![expect(4, 261.626), rest(2)]);
    assert_eq!(quiet.pickup, vec![expect(1, 440.0)]);
}

#[test]
fn note_volume_replaces_and_leaves_rests() {
    let note = pitched(4, 440.0).volume(0.5f32.to_bits());
    let louder = note.volume(2.0f32.to_bits());
    assert!(matches!(louder.1, NoteKind::Pitched { volume, .. } if volume == 2.0f32.to_bits()));
    assert_eq!(rest(4).volume(0.5f32.to_bits()), rest(4));
}

#[test]
fn timbre_applies_to_main_and_pickup() {
    let sine = Note(
        NoteLength(4),
        NoteKind::Pitched { pitch: NotePitch(440.0f32.to_bits()), timbre: Timbre::Sine, volume: 1.0f32.to_bits() },
    );
    let line = with_pickup(vec![sine, rest(2)], vec![sine], true);
    let played = piano(line);
    assert_eq!(played.notes, vec![pitched(4, 440.0), rest(2)]);
    assert_eq!(played.pickup, vec![pitched(4, 440.0)]);
    assert!(played.hold_pickup);
}

#[test]
fn notes_at_instant_of_line() {
    let line = Line::from_notes(vec![pitched(4, 261.626), pitched(8, 440.0)]);
    assert_eq!(line.get_notes_at_instant(0), Some(pitched(4, 261.626)));
    assert_eq!(line.get_notes_at_instant(4), Some(pitched(8, 440.0)));
    assert_eq!(line.get_notes_at_instant(2), None);
    assert_eq!(line.get_notes_at_instant(12), None);
}

#[test]
fn notes_at_instant_takes_first_of_notes_that_start_together() {
    let line = Line::from_notes(vec![rest(0), pitched(4, 261.626)]);
    assert_eq!(line.get_notes_at_instant(0), Some(rest(0)));
    assert_eq!(line.index_at_instant(0), Some(0));
}

#[test]
fn note_during_instant_of_line() {
    let line = Line::from_notes(vec![pitched(4, 261.626), rest(0), pitched(8, 440.0)]);
    assert_eq!(line.get_note_during_instant(0), Some(pitched(4, 261.626)));
    assert_eq!(line.get_note_during_instant(3), Some(pitched(4, 261.626)));
    assert_eq!(line.get_note_during_instant(4), Some(pitched(8, 440.0)));
    assert_eq!(line.get_note_during_instant(11), Some(pitched(8, 440.0)));
    assert_eq!(line.get_note_during_instant(12), None);
    assert_eq!(line.index_during_instant(4), Some(2));
}

#[test]
fn line_in_words() {
    let plain = Line::from_notes(vec![rest(1), rest(1), rest(1)]);
    assert_eq!(plain.to_text(), "Line[3 notes]");
    let picked = with_pickup(vec![rest(1); 12], vec![rest(1), rest(1)], false);
    assert_eq!(picked.to_text(), "Line[12 notes, 2 pickup]");
}

#[test]
fn note_then_note_and_repeat() {
    let line = pitched(4, 261.626).then(rest(2));
    assert_eq!(line, Line::from_notes(vec![pitched(4, 261.626), rest(2)]));
    assert_eq!(rest(2).repeat(3), Line::from_notes(vec![rest(2), rest(2), rest(2)]));
    assert_eq!(rest(2).repeat(0), Line::new());
    let b = with_pickup(vec![rest(4)], vec![pitched(1, 440.0)], false);
    assert_eq!(
        pitched(4, 261.626).then_line(&b).unwrap().notes,
        vec![pitched(3, 261.626), pitched(1, 440.0), rest(4)]
    );
}
