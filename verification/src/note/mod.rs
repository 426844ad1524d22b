//! Notes: a duration together with either silence or a pitched sound.

use vstd::prelude::*;

pub mod chord;
pub mod drums;
pub mod length;
pub mod timbre;

use crate::note::length::NoteLength;
use crate::note::timbre::Timbre;

verus! {

/// The bit pattern of the volume 1.0, which a freshly made pitched note has.
pub const UNIT_VOLUME: u32 = 0x3f80_0000;

/// A pitch: a frequency in hertz, held as its IEEE 754 single-precision bit
/// pattern.
#[derive(Clone, Copy, Debug, PartialEq, Eq, Hash)]
pub struct NotePitch(pub u32);

/// The bit pattern of 440 Hz, the A above middle C.
pub const A4_FREQUENCY: u32 = 0x43dc_0000;

/// The bit pattern of 261.626 Hz, middle C.
pub const C4_FREQUENCY: u32 = 0x4382_d021;

/// The A above middle C, the usual tuning reference.
pub fn a4() -> (r: NotePitch)
    ensures
        r == NotePitch(A4_FREQUENCY),
{
    NotePitch(A4_FREQUENCY)
}

/// Middle C.
pub fn c4() -> (r: NotePitch)
    ensures
        r == NotePitch(C4_FREQUENCY),
{
    NotePitch(C4_FREQUENCY)
}

impl NotePitch {
    /// A pitch from the bit pattern of its frequency.
    pub fn new(frequency: u32) -> (r: NotePitch)
        ensures
            r.0 == frequency,
    {
        NotePitch(frequency)
    }

    /// The bit pattern of the frequency.
    pub fn frequency(&self) -> (r: u32)
        ensures
            r == self.0,
    {
        self.0
    }
}

/// What sounds for the duration of a note: nothing, or a pitch in some voice.
#[derive(Clone, Copy, Debug, PartialEq, Eq, Hash, Default)]
pub enum NoteKind {
    /// Silence.
    #[default]
    Rest,
    /// A pitched sound.
    Pitched {
        /// The fundamental frequency.
        pitch: NotePitch,
        /// The voice in which it sounds.
        timbre: Timbre,
        /// The bit pattern of the volume: 0.0 is silent, 1.0 is full volume.
        volume: u32,
    },
}

impl NoteKind {
    /// The sound of a bare pitch: a pure tone at full volume.
    pub fn from_pitch(pitch: NotePitch) -> (kind: NoteKind)
        ensures
            kind == (NoteKind::Pitched { pitch, timbre: Timbre::Sine, volume: UNIT_VOLUME }),
    {
        NoteKind::Pitched { pitch, timbre: Timbre::Sine, volume: UNIT_VOLUME }
    }
}

impl From<NotePitch> for NoteKind {
    fn from(pitch: NotePitch) -> (kind: NoteKind) {
        NoteKind::Pitched { pitch, timbre: Timbre::Sine, volume: UNIT_VOLUME }
    }
}

impl vstd::std_specs::convert::FromSpecImpl<NotePitch> for NoteKind {
    open spec fn obeys_from_spec() -> bool {
        true
    }

    open spec fn from_spec(pitch: NotePitch) -> NoteKind {
        NoteKind::Pitched { pitch, timbre: Timbre::Sine, volume: UNIT_VOLUME }
    }
}

/// Silence, for use where a `NoteKind` is wanted.
pub const REST: NoteKind = NoteKind::Rest;

/// A timed event: a duration and what sounds for that long.
#[derive(Clone, Copy, Debug, PartialEq, Eq, Hash, Default)]
pub struct Note(pub NoteLength, pub NoteKind);

impl Note {
    /// The duration in time units, as a number of the model.
    pub open spec fn spec_duration(self) -> nat {
        self.0.0 as nat
    }

    /// The same note at another volume; a rest stays a rest.
    pub open spec fn spec_volume(self, volume: u32) -> Note {
        match self.1 {
            NoteKind::Pitched { pitch, timbre, volume: _ } => Note(
                self.0,
                NoteKind::Pitched { pitch, timbre, volume },
            ),
            NoteKind::Rest => self,
        }
    }

    /// Sets the volume of a pitched note, replacing the one it had. A rest is
    /// returned unchanged.
    pub fn volume(&self, volume: u32) -> (r: Note)
        ensures
            r == self.spec_volume(volume),
    {
        match self.1 {
            NoteKind::Pitched { pitch, timbre, volume: _ } => Note(
                self.0,
                NoteKind::Pitched { pitch, timbre, volume },
            ),
            NoteKind::Rest => Note(self.0, NoteKind::Rest),
        }
    }
}

} // verus!
