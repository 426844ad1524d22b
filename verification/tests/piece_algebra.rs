use symphoxy::note::length::{HasNoteLength, InvalidDuration, NoteLength};
use symphoxy::note::timbre::{bass, Timbre};
use symphoxy::note::{Note, NoteKind, NotePitch};
use symphoxy::piece::line::Line;
use symphoxy::piece::Piece;

fn pitched(length: u16, frequency: f32) -> Note {
    Note(
        NoteLength(length),
        NoteKind::Pitched {
            pitch: NotePitch(frequency.to_bits()),
            timbre: Timbre::Sine,
            volume: 1.0f32.to_bits(),
        },
    )
}

fn rest(length: u16) -> Note {
    Note(NoteLength(length), NoteKind::Rest)
}

fn line(notes: Vec<Note>) -> Line {
    Line::from_notes(notes)
}

#[test]
fn new_piece_is_empty() {
    let piece = Piece::new();
    assert_eq!(piece.0.len(), 0);
    assert_eq!(piece.length(), 0);
}

#[test]
fn piece_length_is_longest_track() {
    let piece = Piece(vec![line(vec![pitched(4, 261.626)]), line(vec![pitched(16, 261.626)])]);
    assert_eq!(piece.length(), 16);
}

#[test]
fn stack_makes_two_tracks_as_they_are() {
    let piece = line(vec![pitched(4, 261.626)]).stack(line(vec![pitched(16, 440.0)]));
    assert_eq!(piece.0, vec![line(vec![pitched(4, 261.626)]), line(vec![pitched(16, 440.0)])]);
    let with_note = line(vec![pitched(4, 261.626)]).stack_note(rest(2));
    assert_eq!(with_note.0, vec![line(vec![pitched(4, 261.626)]), line(vec![rest(2)])]);
    assert_eq!(rest(1).stack(rest(2)).0, vec![line(vec![rest(1)]), line(vec![rest(2)])]);
}

#[test]
fn concat_pairs_tracks_by_position() {
    let p = Piece(vec![line(vec![pitched(4, 261.626)]), line(vec![pitched(4, 329.63)])]);
    let q = Piece(vec![line(vec![pitched(8, 293.66)]), line(vec![pitched(8, 349.23)])]);
    let joined = p.concat(&q).unwrap();
    assert_eq!(
        joined.0,
        vec![
            line(vec![pitched(4, 261.626), pitched(8, 293.66)]),
            line(vec![pitched(4, 329.63), pitched(8, 349.23)]),
        ]
    );
    assert_eq!(joined.length(), 12);
}

#[test]
fn concat_common_tracks_are_as_long_as_both_pieces() {
    let p = Piece(vec![line(vec![pitched(4, 261.626)]), line(vec![pitched(2, 329.63), rest(2)])]);
    let q = Piece(vec![line(vec![pitched(8, 293.66)]), line(vec![rest(8)])]);
    let joined = p.concat(&q).unwrap();
    assert_eq!(joined.0[0].length(), p.length() + q.length());
    assert_eq!(joined.0[1].length(), p.length() + q.length());
}

#[test]
fn concat_pads_track_only_in_first_on_the_right() {
    let p = Piece(vec![line(vec![pitched(4, 261.626)]), line(vec![pitched(4, 329.63)])]);
    let q = Piece(vec![line(vec![pitched(8, 293.66)])]);
    let joined = p.concat(&q).unwrap();
    assert_eq!(
        joined.0,
        vec![
            line(vec![pitched(4, 261.626), pitched(8, 293.66)]),
            line(vec![pitched(4, 329.63), rest(8)]),
        ]
    );
}

#[test]
fn concat_pads_track_only_in_second_on_the_left() {
    let p = Piece(vec![line(vec![pitched(4, 261.626)])]);
    let q = Piece(vec![line(vec![pitched(8, 293.66)]), line(vec![pitched(8, 349.23)])]);
    let joined = p.concat(&q).unwrap();
    assert_eq!(
        joined.0,
        vec![
            line(vec![pitched(4, 261.626), pitched(8, 293.66)]),
            line(vec![rest(4), pitched(8, 349.23)]),
        ]
    );
}

#[test]
fn concat_pickup_of_new_track_eats_into_the_rest() {
    let p = Piece(vec![line(vec![pitched(4, 261.626)])]);
    let picked = Line { notes: vec![pitched(8, 349.23)], pickup: vec![pitched(1, 440.0)], hold_pickup: false };
    let q = Piece(vec![line(vec![pitched(8, 293.66)]), picked]);
    let joined = p.concat(&q).unwrap();
    assert_eq!(joined.0[1], line(vec![rest(3), pitched(1, 440.0), pitched(8, 349.23)]));
}

#[test]
fn concat_with_empty_pieces() {
    let p = Piece(vec![line(vec![pitched(4, 261.626)])]);
    assert_eq!(p.concat(&Piece::new()).unwrap(), p);
    assert_eq!(Piece::new().concat(&p).unwrap(), p);
    assert_eq!(Piece::new().concat(&Piece::new()).unwrap(), Piece::new());
}

#[test]
fn concat_fails_when_rest_on_the_right_is_too_long() {
    let long = Piece(vec![line(vec![rest(40000), rest(40000)])]);
    let two = Piece(vec![line(vec![rest(1)]), line(vec![rest(1)])]);
    assert_eq!(two.concat(&long), Err(InvalidDuration));
}

#[test]
fn concat_fails_when_rest_on_the_left_is_too_long() {
    let long = Piece(vec![line(vec![rest(40000), rest(40000)])]);
    let two = Piece(vec![line(vec![rest(1)]), line(vec![rest(1)])]);
    assert_eq!(long.concat(&two), Err(InvalidDuration));
}

#[test]
fn concat_of_long_pieces_with_equal_tracks_needs_no_rest() {
    let long = Piece(vec![line(vec![rest(40000), rest(40000)])]);
    let joined = long.concat(&long).unwrap();
    assert_eq!(joined.length(), 160000);
}

#[test]
fn concat_fails_when_a_tie_is_too_long() {
    let p = Piece(vec![line(vec![pitched(60000, 261.626)])]);
    let held = Line { notes: vec![pitched(6000, 261.626)], pickup: vec![], hold_pickup: true };
    assert_eq!(p.concat(&Piece(vec![held])), Err(InvalidDuration));
}

#[test]
fn concat_note_joins_first_track() {
    let p = Piece(vec![line(vec![pitched(4, 261.626)]), line(vec![pitched(4, 329.63)])]);
    let joined = p.concat_note(pitched(2, 440.0)).unwrap();
    assert_eq!(
        joined.0,
        vec![
            line(vec![pitched(4, 261.626), pitched(2, 440.0)]),
            line(vec![pitched(4, 329.63), rest(2)]),
        ]
    );
}

#[test]
fn line_before_piece_leads_the_first_track() {
    let lead = line(vec![pitched(4, 261.626)]);
    let q = Piece(vec![line(vec![pitched(8, 293.66)]), line(vec![pitched(8, 349.23)])]);
    let joined = lead.concat_piece(&q).unwrap();
    assert_eq!(
        joined.0,
        vec![
            line(vec![pitched(4, 261.626), pitched(8, 293.66)]),
            line(vec![rest(4), pitched(8, 349.23)]),
        ]
    );
    assert_eq!(lead.concat_piece(&Piece::new()).unwrap().0, vec![lead]);
}

#[test]
fn layer_keeps_tracks_as_they_are() {
    let p = Piece(vec![line(vec![pitched(4, 261.626)])]);
    let q = Piece(vec![line(vec![pitched(16, 293.66)]), line(vec![rest(1)])]);
    let layered = p.layer(q);
    assert_eq!(
        layered.0,
        vec![line(vec![pitched(4, 261.626)]), line(vec![pitched(16, 293.66)]), line(vec![rest(1)])]
    );
}

#[test]
fn layer_note_adds_a_track() {
    let p = Piece(vec![line(vec![pitched(4, 261.626)])]);
    let layered = p.layer_note(pitched(16, 440.0));
    assert_eq!(layered.0, vec![line(vec![pitched(4, 261.626)]), line(vec![pitched(16, 440.0)])]);
}

#[test]
fn layer_line_pads_the_line() {
    let p = Piece(vec![line(vec![pitched(8, 261.626)])]);
    let layered = p.layer_line(&line(vec![pitched(2, 440.0)])).unwrap();
    assert_eq!(layered.0, vec![line(vec![pitched(8, 261.626)]), line(vec![pitched(2, 440.0), rest(6)])]);
}

#[test]
fn layer_line_pads_every_track_to_the_common_length() {
    let p = Piece(vec![line(vec![pitched(8, 261.626)]), line(vec![pitched(4, 329.63)])]);
    let layered = p.layer_line(&line(vec![pitched(12, 440.0)])).unwrap();
    assert_eq!(
        layered.0,
        vec![
            line(vec![pitched(8, 261.626), rest(4)]),
            line(vec![pitched(4, 329.63), rest(8)]),
            line(vec![pitched(12, 440.0)]),
        ]
    );
    for track in &layered.0 {
        assert_eq!(track.length(), 12);
    }
}

#[test]
fn layer_line_fails_when_padding_is_too_long() {
    let p = Piece(vec![line(vec![rest(40000), rest(40000)])]);
    assert_eq!(p.layer_line(&line(vec![rest(1)])), Err(InvalidDuration));
}

#[test]
fn repeat_zero_times_is_empty() {
    let p = Piece(vec![line(vec![pitched(4, 261.626)])]);
    assert_eq!(p.repeat(0).unwrap(), Piece::new());
}

#[test]
fn repeat_joins_the_piece_onto_itself() {
    let p = Piece(vec![line(vec![pitched(4, 261.626)]), line(vec![rest(2)])]);
    assert_eq!(p.repeat(1).unwrap(), p);
    let thrice = p.repeat(3).unwrap();
    assert_eq!(
        thrice.0,
        vec![
            line(vec![pitched(4, 261.626), pitched(4, 261.626), pitched(4, 261.626)]),
            line(vec![rest(2), rest(2), rest(2)]),
        ]
    );
}

#[test]
fn repeat_fails_when_a_join_fails() {
    let held = Line { notes: vec![pitched(40000, 261.626)], pickup: vec![], hold_pickup: true };
    assert_eq!(Piece(vec![held]).repeat(2), Err(InvalidDuration));
}

#[test]
fn join_all_joins_in_order() {
    let a = Piece(vec![line(vec![pitched(4, 261.626)])]);
    let b = Piece(vec![line(vec![pitched(2, 293.66)]), line(vec![pitched(2, 329.63)])]);
    let c = Piece(vec![line(vec![rest(1)])]);
    let joined = Piece::join_all(&vec![a.clone(), b, c]).unwrap();
    assert_eq!(
        joined.0,
        vec![
            line(vec![pitched(4, 261.626), pitched(2, 293.66), rest(1)]),
            line(vec![rest(4), pitched(2, 329.63), rest(1)]),
        ]
    );
    assert_eq!(Piece::join_all(&vec![]).unwrap(), Piece::new());
    assert_eq!(Piece::join_all(&vec![a.clone()]).unwrap(), a);
}

#[test]
fn notes_at_instant_of_piece() {
    let piece = Piece(vec![
        line(vec![pitched(4, 261.626), pitched(4, 293.66)]),
        line(vec![pitched(8, 440.0)]),
        line(vec![rest(4), pitched(4, 329.63)]),
    ]);
    assert_eq!(piece.get_notes_at_instant(0), vec![pitched(4, 261.626), pitched(8, 440.0), rest(4)]);
    assert_eq!(piece.get_notes_at_instant(4), vec![pitched(4, 293.66), pitched(4, 329.63)]);
    assert_eq!(piece.get_notes_at_instant(2), vec![]);
    assert_eq!(piece.get_notes_at_instant(8), vec![]);
}

#[test]
fn notes_during_instant_of_piece() {
    let piece = Piece(vec![
        line(vec![pitched(4, 261.626), pitched(4, 293.66)]),
        line(vec![pitched(6, 440.0)]),
    ]);
    assert_eq!(piece.get_notes_during_instant(0), vec![pitched(4, 261.626), pitched(6, 440.0)]);
    assert_eq!(piece.get_notes_during_instant(5), vec![pitched(4, 293.66), pitched(6, 440.0)]);
    assert_eq!(piece.get_notes_during_instant(6), vec![pitched(4, 293.66)]);
    assert_eq!(piece.get_notes_during_instant(8), vec![]);
}

#[test]
fn volume_and_timbre_reach_every_track() {
    let piece = Piece(vec![line(vec![pitched(4, 261.626)]), line(vec![rest(2), pitched(2, 440.0)])]);
    let quiet = piece.volume(0.25f32.to_bits());
    for track in &quiet.0 {
        for note in &track.notes {
            if let NoteKind::Pitched { volume, .. } = note.1 {
                assert_eq!(volume, 0.25f32.to_bits());
            }
        }
    }
    assert_eq!(quiet.0[1].notes[0], rest(2));
    let low = bass(piece);
    assert!(matches!(low.0[0].notes[0].1, NoteKind::Pitched { timbre: Timbre::Bass, .. }));
    assert!(matches!(low.0[1].notes[1].1, NoteKind::Pitched { timbre: Timbre::Bass, .. }));
    assert_eq!(low.0[1].notes[0], rest(2));
}

#[test]
fn note_length_of_piece() {
    let piece = Piece(vec![line(vec![pitched(4, 261.626)]), line(vec![pitched(16, 261.626)])]);
    assert_eq!(HasNoteLength::length(&piece), Ok(NoteLength(16)));
    let long = Piece(vec![line(vec![rest(40000), rest(40000)])]);
    assert_eq!(HasNoteLength::length(&long), Err(InvalidDuration));
}
