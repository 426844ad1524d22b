//! Playing music: the tempo, the output settings, and what can be played.

use vstd::prelude::*;

pub mod render;
pub mod voices;

use crate::note::Note;
use crate::piece::line::{Line, LineView};
use crate::piece::{lemma_single_track, longest, onsets_at, Piece};

verus! {

/// The bit pattern of the output gain 1.0.
pub const UNIT_GAIN: u32 = 0x3f80_0000;

/// The sample rate of a compact disc, in hertz.
pub const CD_SAMPLE_RATE: u32 = 44100;

/// The number of milliseconds in a minute.
pub const MS_PER_MINUTE: u64 = 60000;

/// Where the music goes: the settings of one kind of output.
pub trait MusicOutput {

}

/// How the output is brought to full scale.
#[derive(Clone, Copy, Debug, PartialEq, Eq, Default)]
pub enum Normalization {
    /// Each channel by its own loudest sample. Channels of very different
    /// loudness come out equally loud.
    #[default]
    PerChannel,
    /// All channels by the loudest sample of any of them. Channels keep
    /// their loudness relative to one another.
    Global,
}

/// The settings for rendering to a file of samples.
#[derive(Clone, Copy, Debug, PartialEq, Eq)]
pub struct FileOutputConfig {
    /// The bit pattern of the gain applied to the normalized output; 1.0
    /// leaves the loudest sample at full scale.
    pub output_gain: u32,
    /// The sample rate of the output in hertz.
    pub sample_rate: u32,
    /// How the output is brought to full scale.
    pub normalization: Normalization,
}

impl MusicOutput for FileOutputConfig {

}

impl Default for FileOutputConfig {
    /// Gain 1.0 at 44100 Hz, each channel brought to full scale by itself.
    fn default() -> (config: FileOutputConfig)
        ensures
            config == (FileOutputConfig {
                output_gain: UNIT_GAIN,
                sample_rate: CD_SAMPLE_RATE,
                normalization: Normalization::PerChannel,
            }),
    {
        FileOutputConfig {
            output_gain: UNIT_GAIN,
            sample_rate: CD_SAMPLE_RATE,
            normalization: Normalization::PerChannel,
        }
    }
}

/// A player: a tempo and the settings of an output.
pub struct MusicPlayer<O: MusicOutput + Clone> {
    /// The tempo in time units per minute. At 300 a time unit lasts 200 ms.
    pub tempo_bpm: u32,
    /// The settings of the output.
    pub output_config: O,
}

/// The number of whole milliseconds that one time unit lasts at the tempo
/// `tempo_bpm`; the longest time there is at tempo 0.
pub open spec fn spec_beat_duration_ms(tempo_bpm: u32) -> u64 {
    if tempo_bpm == 0 {
        u64::MAX
    } else {
        (MS_PER_MINUTE / tempo_bpm as u64) as u64
    }
}

impl<O: MusicOutput + Clone> MusicPlayer<O> {
    /// The number of whole milliseconds that one time unit lasts: 60000
    /// divided by the tempo, or `u64::MAX` at tempo 0.
    pub fn beat_duration_ms(&self) -> (ms: u64)
        ensures
            ms == spec_beat_duration_ms(self.tempo_bpm),
    {
        if self.tempo_bpm == 0 {
            u64::MAX
        } else {
            MS_PER_MINUTE / (self.tempo_bpm as u64)
        }
    }
}

impl MusicPlayer<FileOutputConfig> {
    /// A player that renders to a file of samples, each channel brought to
    /// full scale by itself.
    pub fn new_file(tempo_bpm: u32, output_gain: u32, sample_rate: u32) -> (player: Self)
        ensures
            player.tempo_bpm == tempo_bpm,
            player.output_config == (FileOutputConfig {
                output_gain,
                sample_rate,
                normalization: Normalization::PerChannel,
            }),
    {
        MusicPlayer {
            tempo_bpm,
            output_config: FileOutputConfig {
                output_gain,
                sample_rate,
                normalization: Normalization::PerChannel,
            },
        }
    }
}

/// A length in time units as a machine number: itself where it fits, else
/// the largest there is.
pub open spec fn capped(length: nat) -> usize {
    if length > usize::MAX {
        usize::MAX
    } else {
        length as usize
    }
}

/// What can be played: a piece, a line, or a single note.
pub trait Playable {
    /// The tracks that sound together when this is played.
    spec fn tracks(&self) -> Seq<LineView>;

    /// The length in time units: that of the longest track.
    fn length(&self) -> (length: usize)
        ensures
            length == capped(longest(self.tracks())),
    ;

    /// The notes that start exactly at time `instant`, track by track.
    fn get_notes_at_instant(&self, instant: usize) -> (notes: Vec<Note>)
        ensures
            notes@ == onsets_at(self.tracks(), instant as nat),
    ;
}

impl Playable for Piece {
    open spec fn tracks(&self) -> Seq<LineView> {
        self@.tracks
    }

    fn length(&self) -> (length: usize) {
        Piece::length(self)
    }

    fn get_notes_at_instant(&self, instant: usize) -> (notes: Vec<Note>) {
        Piece::get_notes_at_instant(self, instant)
    }
}

impl Playable for Line {
    open spec fn tracks(&self) -> Seq<LineView> {
        seq![self@]
    }

    fn length(&self) -> (length: usize) {
        proof {
            lemma_single_track(self@, 0);
        }
        Line::length(self)
    }

    fn get_notes_at_instant(&self, instant: usize) -> (notes: Vec<Note>) {
        let mut notes: Vec<Note> = Vec::new();
        proof {
            lemma_single_track(self@, instant as nat);
        }
        match Line::get_notes_at_instant(self, instant) {
            Some(note) => {
                notes.push(note);
                proof {
                    assert(notes@ =~= seq![note]);
                }
            },
            None => {},
        }
        notes
    }
}

impl Playable for Note {
    open spec fn tracks(&self) -> Seq<LineView> {
        seq![LineView::of(seq![*self])]
    }

    fn length(&self) -> (length: usize) {
        Playable::length(&Line::from_note(*self))
    }

    fn get_notes_at_instant(&self, instant: usize) -> (notes: Vec<Note>) {
        Playable::get_notes_at_instant(&Line::from_note(*self), instant)
    }
}

} // verus!
