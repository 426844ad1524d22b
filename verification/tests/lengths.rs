use symphoxy::note::chord::Chord;
use symphoxy::note::length::{
    dotted, double_whole, eighth, half, quarter, sixteenth, tie, whole, HasNoteLength,
    InvalidDuration, LengthFluid, NoteLength,
};
use symphoxy::note::timbre::{bass, drums, electric_guitar, piano, sine, Timbre};
use symphoxy::note::{a4, c4, Note, NoteKind, NotePitch, REST, UNIT_VOLUME};
use symphoxy::piece::line::Line;

#[test]
fn note_length_round_trip() {
    let quarter_len = NoteLength::new(4);
    assert_eq!(quarter_len.duration(), 4);
    assert_eq!(NoteLength::new(0).duration(), 0);
    assert_eq!(NoteLength::new(65535), NoteLength(65535));
}

#[test]
fn note_length_in_words() {
    assert_eq!(NoteLength(6).to_text(), "6 beats");
    assert_eq!(NoteLength(0).to_text(), "0 beats");
    assert_eq!(NoteLength(65535).to_text(), "65535 beats");
}

#[test]
fn reference_pitches() {
    assert_eq!(f32::from_bits(a4().frequency()), 440.0);
    assert_eq!(f32::from_bits(c4().frequency()), 261.626);
    assert_eq!(NotePitch::new(880.0f32.to_bits()).frequency(), 880.0f32.to_bits());
    assert_eq!(f32::from_bits(UNIT_VOLUME), 1.0);
}

#[test]
fn length_functions_give_their_lengths() {
    assert_eq!(sixteenth(REST), Note(NoteLength(1), NoteKind::Rest));
    assert_eq!(eighth(REST), Note(NoteLength(2), NoteKind::Rest));
    assert_eq!(quarter(REST), Note(NoteLength(4), NoteKind::Rest));
    assert_eq!(half(REST), Note(NoteLength(8), NoteKind::Rest));
    assert_eq!(whole(REST), Note(NoteLength(16), NoteKind::Rest));
    assert_eq!(double_whole(REST), Note(NoteLength(32), NoteKind::Rest));
}

#[test]
fn pitch_becomes_pure_tone_at_full_volume() {
    let note = quarter(a4());
    assert_eq!(
        note,
        Note(NoteLength(4), NoteKind::Pitched { pitch: a4(), timbre: Timbre::Sine, volume: UNIT_VOLUME })
    );
    assert_eq!(NoteKind::from_pitch(a4()), note.1);
}

#[test]
fn note_gets_another_length() {
    let note = piano(quarter(a4()));
    let longer = whole(note);
    assert_eq!(
        longer,
        Note(NoteLength(16), NoteKind::Pitched { pitch: a4(), timbre: Timbre::Piano, volume: UNIT_VOLUME })
    );
    assert_eq!(HasNoteLength::length(&longer), Ok(NoteLength(16)));
}

#[test]
fn chord_with_length_is_one_track_for_each_pitch() {
    let chord = Chord::new(vec![c4(), a4()]);
    let piece = half(chord);
    assert_eq!(piece.0, vec![Line::from_note(half(c4())), Line::from_note(half(a4()))]);
    assert_eq!(piece.length(), 8);
    assert_eq!(whole(Chord::new(vec![])).0, vec![]);
}

#[test]
fn dotted_is_one_and_a_half_times() {
    assert_eq!(dotted(quarter)(REST), Ok(Note(NoteLength(6), NoteKind::Rest)));
    assert_eq!(dotted(half)(REST), Ok(Note(NoteLength(12), NoteKind::Rest)));
    assert_eq!(dotted(sixteenth)(REST), Ok(Note(NoteLength(1), NoteKind::Rest)));
    assert_eq!(dotted(quarter)(c4()), Ok(Note(NoteLength(6), NoteKind::from_pitch(c4()))));
}

#[test]
fn dotted_of_chord() {
    let piece = dotted(quarter)(Chord::new(vec![c4(), a4()])).unwrap();
    assert_eq!(piece.length(), 6);
    assert_eq!(piece.0.len(), 2);
}

#[test]
fn dotted_fails_when_too_long() {
    let long = |kind: NoteKind| kind.with_length(NoteLength(50000));
    assert_eq!(dotted(long)(REST), Err(InvalidDuration));
    let fits = |kind: NoteKind| kind.with_length(NoteLength(43690));
    assert_eq!(dotted(fits)(REST), Ok(Note(NoteLength(65535), NoteKind::Rest)));
    let just_over = |kind: NoteKind| kind.with_length(NoteLength(43691));
    assert_eq!(dotted(just_over)(REST), Err(InvalidDuration));
}

#[test]
fn tie_adds_lengths() {
    assert_eq!(tie(quarter, eighth)(REST), Ok(Note(NoteLength(6), NoteKind::Rest)));
    assert_eq!(tie(half, half)(a4()), Ok(Note(NoteLength(16), NoteKind::from_pitch(a4()))));
}

#[test]
fn tie_fails_when_too_long() {
    let long = |kind: NoteKind| kind.with_length(NoteLength(40000));
    assert_eq!(tie(long, long)(REST), Err(InvalidDuration));
    let most = |kind: NoteKind| kind.with_length(NoteLength(65531));
    assert_eq!(tie(most, quarter)(REST), Ok(Note(NoteLength(65535), NoteKind::Rest)));
    assert_eq!(tie(most, half)(REST), Err(InvalidDuration));
}

#[test]
fn timbre_functions_set_the_voice() {
    let note = quarter(a4());
    let voice = |note: Note| match note.1 {
        NoteKind::Pitched { timbre, .. } => Some(timbre),
        NoteKind::Rest => None,
    };
    assert_eq!(voice(sine(note)), Some(Timbre::Sine));
    assert_eq!(voice(bass(note)), Some(Timbre::Bass));
    assert_eq!(voice(piano(note)), Some(Timbre::Piano));
    assert_eq!(voice(electric_guitar(note)), Some(Timbre::ElectricGuitar));
    assert_eq!(voice(drums(note)), Some(Timbre::Drums));
    assert_eq!(piano(quarter(REST)), quarter(REST));
    assert_eq!(piano(REST), REST);
    assert_eq!(Timbre::default(), Timbre::Sine);
}

#[test]
fn timbre_keeps_pitch_and_volume() {
    let note = quarter(a4()).volume(0.5f32.to_bits());
    assert_eq!(
        bass(note),
        Note(
            NoteLength(4),
            NoteKind::Pitched { pitch: a4(), timbre: Timbre::Bass, volume: 0.5f32.to_bits() }
        )
    );
}

#[test]
fn conversions_between_lengths_and_numbers() {
    let length: NoteLength = 4.into();
    assert_eq!(length.duration(), 4);
    assert_eq!(u16::from(NoteLength(12)), 12);
    let kind: NoteKind = a4().into();
    assert_eq!(kind, NoteKind::from_pitch(a4()));
}
