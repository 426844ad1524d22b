//! Voices: how the sound of each timbre is put together.
//!
//! The sounds themselves are made in floating point. Here is what goes into
//! them: which harmonics a voice has and how loud each is, how long it fades
//! in and out, and how its loudness depends on its pitch.

use vstd::prelude::*;

use crate::note::drums::{DrumKind, DrumRanges};
use crate::note::timbre::Timbre;
use crate::note::NotePitch;

verus! {

/// The time in milliseconds over which a pure tone fades in and out.
pub const SINE_FADE_MS: u64 = 40;

/// The time in milliseconds over which a piano note fades in.
pub const PIANO_FADE_IN_MS: u64 = 5;

/// The frequency in hertz below which a tone is at its full loudness, for
/// all voices but the piano: a tone above it is softer in proportion.
pub const LOUDNESS_REFERENCE: u16 = 132;

/// The frequency in hertz below which a piano tone is at its full loudness.
pub const PIANO_LOUDNESS_REFERENCE: u16 = 528;

/// The factor by which the bass is louder than the other voices.
pub const BASS_BOOST: u8 = 12;

/// How loud a part of a sound is, as a factor on its amplitude.
#[derive(Clone, Copy, Debug, PartialEq, Eq)]
pub enum Gain {
    /// The fraction `numerator / denominator`.
    Ratio {
        /// The numerator.
        numerator: u8,
        /// The denominator, not 0.
        denominator: u8,
    },
    /// So many decibels: the factor is 10 to the power of a twentieth of
    /// the number.
    Decibels(i8),
}

/// One partial of a tone: a multiple of the fundamental frequency and how
/// loud it is.
#[derive(Clone, Copy, Debug, PartialEq, Eq)]
pub struct Harmonic {
    /// The multiple of the fundamental frequency: 1 is the fundamental.
    pub multiple: u8,
    /// How loud the partial is.
    pub gain: Gain,
}

/// How the sound of a note is put together.
#[derive(Clone, Debug, PartialEq, Eq)]
pub enum Voicing {
    /// A pure tone in two parts: a body that fades in, and after it a tail
    /// that fades out.
    Pure {
        /// The time in milliseconds that the body lasts.
        body_ms: u64,
        /// The time over which the body fades in and the tail fades out.
        fade_ms: u64,
        /// The frequency below which the tone is at full loudness.
        reference: u16,
    },
    /// A tone made of the fundamental and its harmonics.
    Additive {
        /// The partials, the fundamental first.
        harmonics: Vec<Harmonic>,
        /// The frequency below which the tone is at full loudness.
        reference: u16,
        /// The factor by which the whole tone is made louder.
        boost: u8,
        /// The time over which the tone fades in, 0 for none.
        fade_in_ms: u64,
        /// The time over which the tone fades out.
        fade_out_ms: u64,
    },
    /// A recorded drum.
    Drum {
        /// Which drum.
        kind: DrumKind,
        /// How loud it is played.
        gain: Gain,
    },
    /// A recording from a file.
    File {
        /// The path of the file.
        path: &'static str,
        /// Whether the recording, taken to be at middle C, is shifted to
        /// the pitch of the note.
        pitched: bool,
    },
}

/// The fraction `numerator / denominator`.
pub open spec fn ratio(numerator: u8, denominator: u8) -> Gain {
    Gain::Ratio { numerator, denominator }
}

/// Partial `multiple` at the loudness `gain`.
pub open spec fn partial(multiple: u8, gain: Gain) -> Harmonic {
    Harmonic { multiple, gain }
}

/// The partials of the electric guitar: the fundamental, and seven
/// harmonics given in decibels.
pub open spec fn guitar_harmonics() -> Seq<Harmonic> {
    seq![
        partial(1, ratio(1, 1)),
        partial(2, Gain::Decibels(0i8)),
        partial(3, Gain::Decibels(8i8)),
        partial(4, Gain::Decibels(3i8)),
        partial(5, Gain::Decibels(-7i8)),
        partial(6, Gain::Decibels(-12i8)),
        partial(7, Gain::Decibels(-8i8)),
        partial(8, Gain::Decibels(-10i8)),
    ]
}

/// The partials of the bass: a strong third harmonic, and the fifth and
/// sixth as loud as the fundamental.
pub open spec fn bass_harmonics() -> Seq<Harmonic> {
    seq![
        partial(1, ratio(1, 1)),
        partial(2, ratio(1, 10)),
        partial(3, ratio(2, 1)),
        partial(4, ratio(1, 5)),
        partial(5, ratio(1, 1)),
        partial(6, ratio(1, 1)),
        partial(7, ratio(1, 3)),
        partial(8, ratio(1, 10)),
    ]
}

/// The partials of the piano: harmonics that fall off quickly.
pub open spec fn piano_harmonics() -> Seq<Harmonic> {
    seq![
        partial(1, ratio(1, 1)),
        partial(2, ratio(1, 4)),
        partial(3, ratio(1, 6)),
        partial(4, ratio(1, 10)),
        partial(5, ratio(1, 12)),
        partial(6, ratio(1, 12)),
        partial(7, ratio(1, 36)),
        partial(8, ratio(1, 72)),
    ]
}

/// How loud a drum is played: the snare five times, every other drum two
/// and a half times as loud as it was recorded.
pub open spec fn drum_gain(kind: DrumKind) -> Gain {
    match kind {
        DrumKind::Snare => ratio(5, 1),
        _ => ratio(5, 2),
    }
}

/// Whether `voicing` is how a note of the voice `timbre` at `pitch` that
/// lasts `duration_ms` is put together.
pub open spec fn is_voicing_of(
    voicing: Voicing,
    timbre: Timbre,
    pitch: NotePitch,
    duration_ms: u64,
    ranges: DrumRanges,
) -> bool {
    match timbre {
        Timbre::Sine => voicing == (Voicing::Pure {
            body_ms: if duration_ms >= SINE_FADE_MS {
                (duration_ms - SINE_FADE_MS) as u64
            } else {
                0
            },
            fade_ms: SINE_FADE_MS,
            reference: LOUDNESS_REFERENCE,
        }),
        Timbre::ElectricGuitar => voicing matches Voicing::Additive {
            harmonics,
            reference,
            boost,
            fade_in_ms,
            fade_out_ms,
        } && harmonics@ == guitar_harmonics() && reference == LOUDNESS_REFERENCE && boost == 1
            && fade_in_ms == 0 && fade_out_ms == duration_ms,
        Timbre::Bass => voicing matches Voicing::Additive {
            harmonics,
            reference,
            boost,
            fade_in_ms,
            fade_out_ms,
        } && harmonics@ == bass_harmonics() && reference == LOUDNESS_REFERENCE && boost
            == BASS_BOOST && fade_in_ms == 0 && fade_out_ms == duration_ms,
        Timbre::Piano => voicing matches Voicing::Additive {
            harmonics,
            reference,
            boost,
            fade_in_ms,
            fade_out_ms,
        } && harmonics@ == piano_harmonics() && reference == PIANO_LOUDNESS_REFERENCE && boost == 1
            && fade_in_ms == PIANO_FADE_IN_MS && fade_out_ms == duration_ms,
        Timbre::Drums => voicing == (Voicing::Drum {
            kind: DrumKind::spec_for_sound(pitch, ranges),
            gain: drum_gain(DrumKind::spec_for_sound(pitch, ranges)),
        }),
        Timbre::CustomSourceUnpitched(path) => voicing == (Voicing::File { path, pitched: false }),
        Timbre::CustomSourcePitched(path) => voicing == (Voicing::File { path, pitched: true }),
    }
}

/// Eight partials from the fundamental up, at the given loudnesses.
fn harmonics_of(gains: [Gain; 8]) -> (harmonics: Vec<Harmonic>)
    ensures
        harmonics@ == Seq::new(8, |i: int| partial((i + 1) as u8, gains@[i])),
{
    let mut harmonics: Vec<Harmonic> = Vec::new();
    let mut i: usize = 0;
    while i < 8
        invariant
            i <= 8,
            harmonics@ == Seq::new(i as nat, |k: int| partial((k + 1) as u8, gains@[k])),
        decreases 8 - i,
    {
        harmonics.push(Harmonic { multiple: (i + 1) as u8, gain: gains[i] });
        proof {
            assert(harmonics@ =~= Seq::new(
                (i + 1) as nat,
                |k: int| partial((k + 1) as u8, gains@[k]),
            ));
        }
        i = i + 1;
    }
    harmonics
}

/// The fraction `numerator / denominator`.
fn fraction(numerator: u8, denominator: u8) -> (gain: Gain)
    ensures
        gain == ratio(numerator, denominator),
{
    Gain::Ratio { numerator, denominator }
}

/// How the sound of a note of the voice `timbre` at `pitch` that lasts
/// `duration_ms` is put together.
pub fn voicing(timbre: Timbre, pitch: NotePitch, duration_ms: u64, ranges: &DrumRanges) -> (made:
    Voicing)
    ensures
        is_voicing_of(made, timbre, pitch, duration_ms, *ranges),
{
    match timbre {
        Timbre::Sine => Voicing::Pure {
            body_ms: if duration_ms >= SINE_FADE_MS {
                duration_ms - SINE_FADE_MS
            } else {
                0
            },
            fade_ms: SINE_FADE_MS,
            reference: LOUDNESS_REFERENCE,
        },
        Timbre::ElectricGuitar => {
            let harmonics = harmonics_of(
                [
                    fraction(1, 1),
                    Gain::Decibels(0),
                    Gain::Decibels(8),
                    Gain::Decibels(3),
                    Gain::Decibels(-7),
                    Gain::Decibels(-12),
                    Gain::Decibels(-8),
                    Gain::Decibels(-10),
                ],
            );
            proof {
                assert(harmonics@ =~= guitar_harmonics());
            }
            Voicing::Additive {
                harmonics,
                reference: LOUDNESS_REFERENCE,
                boost: 1,
                fade_in_ms: 0,
                fade_out_ms: duration_ms,
            }
        },
        Timbre::Bass => {
            let harmonics = harmonics_of(
                [
                    fraction(1, 1),
                    fraction(1, 10),
                    fraction(2, 1),
                    fraction(1, 5),
                    fraction(1, 1),
                    fraction(1, 1),
                    fraction(1, 3),
                    fraction(1, 10),
                ],
            );
            proof {
                assert(harmonics@ =~= bass_harmonics());
            }
            Voicing::Additive {
                harmonics,
                reference: LOUDNESS_REFERENCE,
                boost: BASS_BOOST,
                fade_in_ms: 0,
                fade_out_ms: duration_ms,
            }
        },
        Timbre::Piano => {
            let harmonics = harmonics_of(
                [
                    fraction(1, 1),
                    fraction(1, 4),
                    fraction(1, 6),
                    fraction(1, 10),
                    fraction(1, 12),
                    fraction(1, 12),
                    fraction(1, 36),
                    fraction(1, 72),
                ],
            );
            proof {
                assert(harmonics@ =~= piano_harmonics());
            }
            Voicing::Additive {
                harmonics,
                reference: PIANO_LOUDNESS_REFERENCE,
                boost: 1,
                fade_in_ms: PIANO_FADE_IN_MS,
                fade_out_ms: duration_ms,
            }
        },
        Timbre::Drums => {
            let kind = DrumKind::for_sound(pitch, ranges);
            let gain = match kind {
                DrumKind::Snare => fraction(5, 1),
                _ => fraction(5, 2),
            };
            Voicing::Drum { kind, gain }
        },
        Timbre::CustomSourceUnpitched(path) => Voicing::File { path, pitched: false },
        Timbre::CustomSourcePitched(path) => Voicing::File { path, pitched: true },
    }
}

} // verus!
