//! Music as values: notes, lines of notes played one after another, and pieces
//! of lines played together, with the rules by which they are spliced in time.
//!
//! Frequencies and volumes are carried as IEEE 754 single-precision bit
//! patterns: the composition rules never look inside them, so every rule is
//! stated and proved over plain integers and sequences.

pub mod instrument_tools;
pub mod note;
pub mod piece;
pub mod play;
pub mod scales;
pub mod text;

pub use instrument_tools::strings::{Frets, GuitarFrets, GuitarTuning, StringTuning};
pub use note::chord::Chord;
pub use note::drums::{DrumKind, DrumRanges};
pub use note::length::{
    dotted, double_whole, eighth, half, quarter, sixteenth, tie, whole, HasNoteLength,
    InvalidDuration, LengthFluid, NoteLength,
};
pub use note::timbre::{bass, drums, electric_guitar, piano, sine, Timbre, TimbreFluid};
pub use note::{a4, c4, Note, NoteKind, NotePitch, A4_FREQUENCY, C4_FREQUENCY, REST, UNIT_VOLUME};
pub use piece::line::Line;
pub use piece::score::Placement;
pub use piece::Piece;
pub use play::render::{RenderPlan, Voice};
pub use play::{FileOutputConfig, MusicOutput, MusicPlayer, Normalization, Playable};
pub use scales::tet12::modes::ScaleMode;
pub use scales::tet12::{get_note_name, get_note_name_with_octave};
pub use scales::Scale;
