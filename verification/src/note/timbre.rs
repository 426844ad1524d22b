//! Voices: what makes the same pitch sound like one instrument or another.

use vstd::prelude::*;

use crate::note::{Note, NoteKind};

verus! {

/// The voice in which a pitched note sounds.
#[derive(Clone, Copy, Debug, PartialEq, Eq, Hash, Default)]
pub enum Timbre {
    /// A pure tone with no harmonics.
    #[default]
    Sine,
    /// A bass guitar.
    Bass,
    /// A piano.
    Piano,
    /// An electric guitar.
    ElectricGuitar,
    /// A drum kit: the pitch of the note selects the drum.
    Drums,
    /// An audio file played at its own pitch and speed, whatever the note's
    /// pitch.
    CustomSourceUnpitched(&'static str),
    /// An audio file taken to be recorded at middle C and shifted to the
    /// note's pitch.
    CustomSourcePitched(&'static str),
}

/// Elements whose voice can be set: a note, and whatever is made of notes.
pub trait TimbreFluid: Sized {
    /// Whether `out` is this element with every pitched note in the voice
    /// `timbre` and nothing else changed.
    spec fn timbre_applied(self, timbre: Timbre, out: Self) -> bool;

    /// Puts every pitched note of this element in the voice `timbre`.
    fn with_timbre(self, timbre: Timbre) -> (out: Self)
        ensures
            self.timbre_applied(timbre, out),
    ;
}

impl NoteKind {
    /// The same sound in another voice; a rest stays a rest.
    pub open spec fn spec_with_timbre(self, timbre: Timbre) -> NoteKind {
        match self {
            NoteKind::Pitched { pitch, timbre: _, volume } => NoteKind::Pitched {
                pitch,
                timbre,
                volume,
            },
            NoteKind::Rest => NoteKind::Rest,
        }
    }
}

impl Note {
    /// The same note in another voice; a rest stays a rest.
    pub open spec fn spec_with_timbre(self, timbre: Timbre) -> Note {
        Note(self.0, self.1.spec_with_timbre(timbre))
    }
}

impl TimbreFluid for NoteKind {
    open spec fn timbre_applied(self, timbre: Timbre, out: NoteKind) -> bool {
        out == self.spec_with_timbre(timbre)
    }

    fn with_timbre(self, timbre: Timbre) -> (out: NoteKind) {
        match self {
            NoteKind::Pitched { pitch, timbre: _, volume } => NoteKind::Pitched {
                pitch,
                timbre,
                volume,
            },
            NoteKind::Rest => NoteKind::Rest,
        }
    }
}

impl TimbreFluid for Note {
    open spec fn timbre_applied(self, timbre: Timbre, out: Note) -> bool {
        out == self.spec_with_timbre(timbre)
    }

    fn with_timbre(self, timbre: Timbre) -> (out: Note) {
        Note(self.0, self.1.with_timbre(timbre))
    }
}

/// Gives the element the voice of a pure tone.
pub fn sine<T: TimbreFluid>(timbre_haver: T) -> (out: T)
    ensures
        timbre_haver.timbre_applied(Timbre::Sine, out),
{
    timbre_haver.with_timbre(Timbre::Sine)
}

/// Gives the element the voice of a bass guitar.
pub fn bass<T: TimbreFluid>(timbre_haver: T) -> (out: T)
    ensures
        timbre_haver.timbre_applied(Timbre::Bass, out),
{
    timbre_haver.with_timbre(Timbre::Bass)
}

/// Gives the element the voice of a piano.
pub fn piano<T: TimbreFluid>(timbre_haver: T) -> (out: T)
    ensures
        timbre_haver.timbre_applied(Timbre::Piano, out),
{
    timbre_haver.with_timbre(Timbre::Piano)
}

/// Gives the element the voice of an electric guitar.
pub fn electric_guitar<T: TimbreFluid>(timbre_haver: T) -> (out: T)
    ensures
        timbre_haver.timbre_applied(Timbre::ElectricGuitar, out),
{
    timbre_haver.with_timbre(Timbre::ElectricGuitar)
}

/// Gives the element the voice of the drum kit.
pub fn drums<T: TimbreFluid>(timbre_haver: T) -> (out: T)
    ensures
        timbre_haver.timbre_applied(Timbre::Drums, out),
{
    timbre_haver.with_timbre(Timbre::Drums)
}

} // verus!
