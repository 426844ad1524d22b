//! String instruments: which fret is pressed on which string, and how the
//! strings are tuned.

use vstd::prelude::*;

use crate::note::NotePitch;

verus! {

/// The frets pressed on an instrument with `N` strings: for each string the
/// number of the fret, 0 for the open string, or nothing where the string is
/// muted.
#[derive(Clone, Copy, Debug, PartialEq, Eq, Hash)]
pub struct Frets<const N: usize>(pub [Option<i16>; N]);

/// The frets pressed on a guitar.
pub type GuitarFrets = Frets<6>;

impl<const N: usize> Frets<N> {
    /// The frets where every string sounds: string `i` is pressed at
    /// `frets[i]`.
    pub fn new_full(frets: [i16; N]) -> (made: Self)
        ensures
            forall|i: int| 0 <= i < N ==> made.0@[i] == Some(frets@[i]),
    {
        let mut pressed: [Option<i16>; N] = [None; N];
        let mut i: usize = 0;
        while i < N
            invariant
                i <= N,
                forall|j: int| 0 <= j < i ==> pressed@[j] == Some(frets@[j]),
            decreases N - i,
        {
            pressed[i] = Some(frets[i]);
            i = i + 1;
        }
        Frets(pressed)
    }

    /// The strings that sound, in order, each with the fret at which it is
    /// pressed. Muted strings are left out.
    pub fn sounding(&self) -> (strings: Vec<(usize, i16)>)
        ensures
            strings@ == sounding_strings(self.0@, N as int),
    {
        let mut strings: Vec<(usize, i16)> = Vec::new();
        let mut i: usize = 0;
        while i < N
            invariant
                i <= N,
                strings@ == sounding_strings(self.0@, i as int),
            decreases N - i,
        {
            match self.0[i] {
                Some(fret) => {
                    strings.push((i, fret));
                },
                None => {},
            }
            i = i + 1;
        }
        strings
    }
}

/// Of the first `upto` strings, those that sound, in order, each with the
/// fret at which it is pressed.
pub open spec fn sounding_strings(frets: Seq<Option<i16>>, upto: int) -> Seq<(usize, i16)>
    decreases upto,
{
    if upto <= 0 {
        Seq::empty()
    } else {
        match frets[upto - 1] {
            Some(fret) => sounding_strings(frets, upto - 1).push(((upto - 1) as usize, fret)),
            None => sounding_strings(frets, upto - 1),
        }
    }
}

impl GuitarFrets {
    /// The frets of a guitar where the first four strings are pressed at
    /// `frets` and the last two are muted.
    pub fn new_four_string(frets: [i16; 4]) -> (made: Self)
        ensures
            forall|i: int| 0 <= i < 4 ==> made.0@[i] == Some(frets@[i]),
            made.0@[4] == None::<i16>,
            made.0@[5] == None::<i16>,
    {
        Frets([Some(frets[0]), Some(frets[1]), Some(frets[2]), Some(frets[3]), None, None])
    }
}

/// The tuning of an instrument with `N` strings: the pitch of each open
/// string.
#[derive(Clone, Copy, Debug, PartialEq, Eq)]
pub struct StringTuning<const N: usize>(pub [NotePitch; N]);

/// The tuning of a guitar.
pub type GuitarTuning = StringTuning<6>;

/// The bit pattern of 329.6 Hz, the high E string of a guitar.
pub const GUITAR_HIGH_E: u32 = 0x43a4_cccd;

/// The bit pattern of 246.9 Hz, the B string of a guitar.
pub const GUITAR_B: u32 = 0x4376_e666;

/// The bit pattern of 196.0 Hz, the G string of a guitar.
pub const GUITAR_G: u32 = 0x4344_0000;

/// The bit pattern of 146.8 Hz, the D string of a guitar.
pub const GUITAR_D: u32 = 0x4312_cccd;

/// The bit pattern of 110.0 Hz, the A string of a guitar.
pub const GUITAR_A: u32 = 0x42dc_0000;

/// The bit pattern of 82.41 Hz, the low E string of a guitar.
pub const GUITAR_LOW_E: u32 = 0x42a4_d1ec;

impl<const N: usize> StringTuning<N> {
    /// The tuning in which string `i` sounds `tuning[i]` when open.
    pub fn new(tuning: [NotePitch; N]) -> (made: Self)
        ensures
            made.0 == tuning,
    {
        StringTuning(tuning)
    }
}

impl GuitarTuning {
    /// The usual tuning of a guitar, from the highest string to the lowest:
    /// E, B, G, D, A, E.
    pub fn default_guitar_tuning() -> (tuning: Self)
        ensures
            tuning.0@ == seq![
                NotePitch(GUITAR_HIGH_E),
                NotePitch(GUITAR_B),
                NotePitch(GUITAR_G),
                NotePitch(GUITAR_D),
                NotePitch(GUITAR_A),
                NotePitch(GUITAR_LOW_E),
            ],
    {
        let tuning = StringTuning(
            [
                NotePitch(GUITAR_HIGH_E),
                NotePitch(GUITAR_B),
                NotePitch(GUITAR_G),
                NotePitch(GUITAR_D),
                NotePitch(GUITAR_A),
                NotePitch(GUITAR_LOW_E),
            ],
        );
        proof {
            assert(tuning.0@ =~= seq![
                NotePitch(GUITAR_HIGH_E),
                NotePitch(GUITAR_B),
                NotePitch(GUITAR_G),
                NotePitch(GUITAR_D),
                NotePitch(GUITAR_A),
                NotePitch(GUITAR_LOW_E),
            ]);
        }
        tuning
    }
}

} // verus!
