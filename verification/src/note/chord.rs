//! Chords: pitches that sound together.

use vstd::prelude::*;

use crate::note::length::{LengthFluid, NoteLength};
use crate::note::timbre::Timbre;
use crate::note::{Note, NoteKind, NotePitch, UNIT_VOLUME};
use crate::piece::line::{Line, LineView};
use crate::piece::Piece;
use crate::scales::tet12::{pitch_class, pitch_class_name, push_pitch_class_name};
use crate::scales::Scale;
use crate::text::{push_signed_decimal, push_str, signed_decimal, string_of};

verus! {

/// A chord: a list of pitches, in the order in which they were given. A
/// pitch may occur more than once.
#[derive(Clone, Debug, Default, PartialEq, Eq, Hash)]
pub struct Chord(pub Vec<NotePitch>);

impl View for Chord {
    type V = Seq<NotePitch>;

    open spec fn view(&self) -> Seq<NotePitch> {
        self.0@
    }
}

/// The names of the first `upto` pitches that lie at `places`, with a comma
/// and a space between one and the next.
pub open spec fn listed_names(places: Seq<(i16, i16)>, upto: int) -> Seq<char>
    decreases upto,
{
    if upto <= 0 {
        Seq::empty()
    } else {
        listed_names(places, upto - 1) + if upto - 1 > 0 {
            ", "@
        } else {
            Seq::<char>::empty()
        } + pitch_class_name(places[upto - 1].1 as int % 12) + signed_decimal(
            places[upto - 1].0 + 4,
        )
    }
}

/// The note of duration `length` that a bare pitch becomes: a pure tone at
/// full volume.
pub open spec fn plain_note(pitch: NotePitch, length: NoteLength) -> Note {
    Note(length, NoteKind::Pitched { pitch, timbre: Timbre::Sine, volume: UNIT_VOLUME })
}

/// The tracks of a chord held for `length`: one for each pitch, in order,
/// holding just that pitch as a plain note.
pub open spec fn held_tracks(pitches: Seq<NotePitch>, length: NoteLength) -> Seq<LineView> {
    Seq::new(pitches.len(), |i: int| LineView::of(seq![plain_note(pitches[i], length)]))
}

/// The tracks of the note `note` sounded on `pitches`: for a rest, one
/// track with the rest; for a pitched note, one track for each pitch, in
/// order, holding the note moved to that pitch.
pub open spec fn voiced_tracks(note: Note, pitches: Seq<NotePitch>) -> Seq<LineView> {
    match note.1 {
        NoteKind::Rest => seq![LineView::of(seq![note])],
        NoteKind::Pitched { pitch: _, timbre, volume } => Seq::new(
            pitches.len(),
            |i: int|
                LineView::of(
                    seq![Note(note.0, NoteKind::Pitched { pitch: pitches[i], timbre, volume })],
                ),
        ),
    }
}

impl Chord {
    /// The chord of the given pitches.
    pub fn new(pitches: Vec<NotePitch>) -> (chord: Chord)
        ensures
            chord@ == pitches@,
    {
        Chord(pitches)
    }

    /// The chord of one pitch.
    pub fn from_pitch(pitch: NotePitch) -> (chord: Chord)
        ensures
            chord@ == seq![pitch],
    {
        let mut pitches: Vec<NotePitch> = Vec::new();
        pitches.push(pitch);
        Chord(pitches)
    }

    /// The chord of the pitches that stand at `degrees` in `scale`, in the
    /// order of `degrees`: pitch `i` is what the scale gave for degree `i`.
    pub fn from_degrees<S: Scale>(scale: &S, degrees: &Vec<isize>) -> (chord: Chord)
        ensures
            chord@.len() == degrees@.len(),
            forall|i: int|
                0 <= i < degrees@.len() ==> call_ensures(
                    S::get_degree,
                    (scale, degrees@[i]),
                    #[trigger] chord@[i],
                ),
    {
        let mut pitches: Vec<NotePitch> = Vec::new();
        let mut i: usize = 0;
        while i < degrees.len()
            invariant
                i <= degrees.len(),
                pitches@.len() == i,
                forall|j: int|
                    0 <= j < i ==> call_ensures(
                        S::get_degree,
                        (scale, degrees@[j]),
                        #[trigger] pitches@[j],
                    ),
            decreases degrees.len() - i,
        {
            pitches.push(scale.get_degree(degrees[i]));
            i = i + 1;
        }
        Chord(pitches)
    }

    /// The lowest pitch of the chord, if it has any: a pitch of the chord
    /// that none of its pitches lies below. Pitches are compared as positive
    /// frequencies.
    pub fn lowest(&self) -> (found: Option<NotePitch>)
        ensures
            match found {
                Some(pitch) => self@.contains(pitch) && forall|i: int|
                    0 <= i < self@.len() ==> !pitch.spec_is_above(#[trigger] self@[i]),
                None => self@.len() == 0,
            },
    {
        if self.0.len() == 0 {
            return None;
        }
        let mut lowest: NotePitch = self.0[0];
        let mut i: usize = 1;
        while i < self.0.len()
            invariant
                1 <= i <= self.0.len(),
                self@.contains(lowest),
                forall|j: int| 0 <= j < i ==> !lowest.spec_is_above(#[trigger] self@[j]),
            decreases self.0.len() - i,
        {
            if lowest.is_above(self.0[i]) {
                lowest = self.0[i];
            }
            i = i + 1;
        }
        Some(lowest)
    }

    /// A chord in words: `Empty chord` for no pitch, else the names of the
    /// pitches between brackets, with a comma and a space between one and
    /// the next. Each pitch is given by where it lies from middle C, in
    /// whole octaves and in semitones, and is named with its octave.
    pub fn text_of(places: &Vec<(i16, i16)>) -> (text: String)
        ensures
            text@ == if places@.len() == 0 {
                "Empty chord"@
            } else {
                "Chord["@ + listed_names(places@, places@.len() as int) + "]"@
            },
    {
        let mut chars: Vec<char> = Vec::new();
        if places.len() == 0 {
            push_str(&mut chars, "Empty chord");
            return string_of(&chars);
        }
        push_str(&mut chars, "Chord[");
        let mut i: usize = 0;
        proof {
            assert(chars@ =~= "Chord["@ + listed_names(places@, 0));
        }
        while i < places.len()
            invariant
                i <= places.len(),
                chars@ == "Chord["@ + listed_names(places@, i as int),
            decreases places.len() - i,
        {
            let ghost before = chars@;
            if i > 0 {
                push_str(&mut chars, ", ");
            }
            let place: (i16, i16) = places[i];
            push_pitch_class_name(&mut chars, pitch_class(place.1));
            push_signed_decimal(&mut chars, place.0 as i32 + 4);
            proof {
                assert(chars@ =~= "Chord["@ + listed_names(places@, i + 1));
            }
            i = i + 1;
        }
        push_str(&mut chars, "]");
        string_of(&chars)
    }

    /// The piece in which every pitch of the chord is played at once, each
    /// in the way `striker` plays a pitch: track `i` is what `striker` made
    /// of pitch `i`.
    pub fn strike<F: Fn(NotePitch) -> Line>(&self, striker: F) -> (piece: Piece)
        requires
            forall|i: int| 0 <= i < self@.len() ==> call_requires(striker, (self@[i],)),
        ensures
            piece.0@.len() == self@.len(),
            forall|i: int|
                0 <= i < self@.len() ==> call_ensures(striker, (self@[i],), #[trigger] piece.0@[i]),
    {
        let mut tracks: Vec<Line> = Vec::new();
        let mut i: usize = 0;
        while i < self.0.len()
            invariant
                i <= self.0.len(),
                tracks@.len() == i,
                forall|j: int| 0 <= j < self@.len() ==> call_requires(striker, (self@[j],)),
                forall|j: int|
                    0 <= j < i ==> call_ensures(striker, (self@[j],), #[trigger] tracks@[j]),
            decreases self.0.len() - i,
        {
            assert(call_requires(striker, (self@[i as int],)));
            tracks.push(striker(self.0[i]));
            i = i + 1;
        }
        Piece(tracks)
    }
}

impl LengthFluid for Chord {
    type Output = Piece;

    open spec fn length_applied(self, length: NoteLength, out: Piece) -> bool {
        out@.tracks == held_tracks(self@, length)
    }

    fn with_length(self, length: NoteLength) -> (out: Piece) {
        let mut tracks: Vec<Line> = Vec::new();
        let mut i: usize = 0;
        while i < self.0.len()
            invariant
                i <= self.0.len(),
                tracks@.len() == i,
                forall|j: int|
                    0 <= j < i ==> (#[trigger] tracks@[j])@ == LineView::of(
                        seq![plain_note(self@[j], length)],
                    ),
            decreases self.0.len() - i,
        {
            tracks.push(Line::from_note(self.0[i].with_length(length)));
            i = i + 1;
        }
        let out = Piece(tracks);
        proof {
            assert(out@.tracks =~= held_tracks(self@, length));
        }
        out
    }
}

impl Note {
    /// This note sounded on every pitch of `chord` at once. A rest gives
    /// one track with the rest. A pitched note gives one track for each
    /// pitch of the chord, holding the note at that pitch with its own
    /// duration, voice and volume.
    pub fn over_chord(&self, chord: &Chord) -> (piece: Piece)
        ensures
            piece@.tracks == voiced_tracks(*self, chord@),
    {
        match self.1 {
            NoteKind::Rest => Piece::from_note(*self),
            NoteKind::Pitched { pitch: _, timbre, volume } => {
                let mut tracks: Vec<Line> = Vec::new();
                let mut i: usize = 0;
                while i < chord.0.len()
                    invariant
                        i <= chord.0.len(),
                        tracks@.len() == i,
                        forall|j: int|
                            0 <= j < i ==> (#[trigger] tracks@[j])@ == LineView::of(
                                seq![
                                    Note(
                                        self.0,
                                        NoteKind::Pitched { pitch: chord@[j], timbre, volume },
                                    ),
                                ],
                            ),
                    decreases chord.0.len() - i,
                {
                    tracks.push(
                        Line::from_note(
                            Note(self.0, NoteKind::Pitched { pitch: chord.0[i], timbre, volume }),
                        ),
                    );
                    i = i + 1;
                }
                let piece = Piece(tracks);
                proof {
                    assert(piece@.tracks =~= voiced_tracks(*self, chord@));
                }
                piece
            },
        }
    }
}

} // verus!
