//! Twelve-tone equal temperament: twelve semitones to the octave. Here are
//! the names of the twelve pitch classes and the place of each scale degree,
//! counted in octaves and semitones from the root.

use vstd::prelude::*;

pub mod modes;

use crate::text::{push_signed_decimal, signed_decimal, string_of};

verus! {

/// The number of semitones in an octave.
pub const SEMITONES_PER_OCTAVE: u8 = 12;

/// The number of degrees in an octave of a scale.
pub const DEGREES_PER_OCTAVE: isize = 7;

/// The number of the octave that starts at middle C.
pub const MIDDLE_OCTAVE: i32 = 4;

/// The name of the pitch class `class` semitones above C.
pub open spec fn pitch_class_name(class: int) -> Seq<char> {
    if class == 0 {
        seq!['C']
    } else if class == 1 {
        seq!['C', '#']
    } else if class == 2 {
        seq!['D']
    } else if class == 3 {
        seq!['D', '#']
    } else if class == 4 {
        seq!['E']
    } else if class == 5 {
        seq!['F']
    } else if class == 6 {
        seq!['F', '#']
    } else if class == 7 {
        seq!['G']
    } else if class == 8 {
        seq!['G', '#']
    } else if class == 9 {
        seq!['A']
    } else if class == 10 {
        seq!['A', '#']
    } else {
        seq!['B']
    }
}

/// The pitch class of a pitch that lies `semitones` semitones above middle
/// C, or below it if `semitones` is negative: 0 for C up to 11 for B.
pub fn pitch_class(semitones: i16) -> (class: u8)
    ensures
        class == semitones as int % 12,
{
    // 32772 is a multiple of 12 that lifts every `i16` above zero.
    let lifted: i32 = semitones as i32 + 32772;
    proof {
        vstd::arithmetic::div_mod::lemma_mod_multiples_vanish(2731, semitones as int, 12);
    }
    (lifted % 12) as u8
}

/// Appends the name of the pitch class `class` to `text`.
pub fn push_pitch_class_name(text: &mut Vec<char>, class: u8)
    requires
        class < 12,
    ensures
        final(text)@ == old(text)@ + pitch_class_name(class as int),
{
    let letter: char = if class <= 1 {
        'C'
    } else if class <= 3 {
        'D'
    } else if class == 4 {
        'E'
    } else if class <= 6 {
        'F'
    } else if class <= 8 {
        'G'
    } else if class <= 10 {
        'A'
    } else {
        'B'
    };
    text.push(letter);
    if class == 1 || class == 3 || class == 6 || class == 8 || class == 10 {
        text.push('#');
        assert(text@ =~= old(text)@ + pitch_class_name(class as int));
    } else {
        assert(text@ =~= old(text)@ + pitch_class_name(class as int));
    }
}

/// The name of a pitch with the number of its octave, such as `A#4`, in
/// which middle C is `C4`.
///
/// The pitch is given by where it lies: `octaves` whole octaves above
/// middle C, rounded down, and `semitones` semitones above middle C,
/// rounded to the nearest. The name is that of the pitch class of
/// `semitones`, followed by the number `octaves + 4`.
pub fn get_note_name_with_octave(octaves: i16, semitones: i16) -> (name: String)
    ensures
        name@ == pitch_class_name(semitones as int % 12) + signed_decimal(octaves + 4),
{
    let mut text: Vec<char> = Vec::new();
    push_pitch_class_name(&mut text, pitch_class(semitones));
    push_signed_decimal(&mut text, octaves as i32 + MIDDLE_OCTAVE);
    string_of(&text)
}

/// The name of a pitch without the number of its octave: the name with the
/// octave, less the digits at its end. Below octave 0 the minus sign of the
/// number stays.
pub fn get_note_name(octaves: i16, semitones: i16) -> (name: String)
    ensures
        name@ == pitch_class_name(semitones as int % 12) + if octaves + 4 < 0 {
            seq!['-']
        } else {
            Seq::<char>::empty()
        },
{
    let mut text: Vec<char> = Vec::new();
    push_pitch_class_name(&mut text, pitch_class(semitones));
    if octaves as i32 + MIDDLE_OCTAVE < 0 {
        text.push('-');
        proof {
            assert(text@ =~= pitch_class_name(semitones as int % 12) + seq!['-']);
        }
    } else {
        proof {
            assert(text@ =~= pitch_class_name(semitones as int % 12) + Seq::<char>::empty());
        }
    }
    string_of(&text)
}

/// Where a degree of a scale lies: so many whole octaves from the root, and
/// so many steps of the scale above that.
#[derive(Clone, Copy, Debug, PartialEq, Eq)]
pub struct DegreePlace {
    /// The number of whole octaves above the root, negative below it.
    pub octaves: isize,
    /// The number of steps of the scale above that octave: 0 to 6.
    pub steps: usize,
}

/// The degree counted from 0 at the root: degrees 1 and 0 both name the
/// root, degree 2 is one step above it and degree -1 one step below.
pub open spec fn steps_from_root(degree: isize) -> int {
    if degree > 0 {
        degree - 1
    } else {
        degree as int
    }
}

/// Where the degree `degree` of a seven-note scale lies. Degree 1 is the
/// root, and so is degree 0; degree 8 is the root an octave higher, and
/// degree -1 is the seventh step of the octave below.
pub fn degree_place(degree: isize) -> (place: DegreePlace)
    ensures
        place.octaves == steps_from_root(degree) / 7,
        place.steps == steps_from_root(degree) % 7,
        0 <= place.steps < 7,
        steps_from_root(degree) == place.octaves * 7 + place.steps,
{
    let from_root: isize = if degree > 0 {
        degree - 1
    } else {
        degree
    };
    if from_root >= 0 {
        let octaves: isize = from_root / DEGREES_PER_OCTAVE;
        let steps: isize = from_root % DEGREES_PER_OCTAVE;
        proof {
            vstd::arithmetic::div_mod::lemma_fundamental_div_mod(from_root as int, 7);
        }
        DegreePlace { octaves, steps: steps as usize }
    } else {
        let below: isize = -(from_root + 1);
        let octaves: isize = -(below / DEGREES_PER_OCTAVE) - 1;
        let steps: isize = 6 - below % DEGREES_PER_OCTAVE;
        proof {
            vstd::arithmetic::div_mod::lemma_fundamental_div_mod(below as int, 7);
            vstd::arithmetic::div_mod::lemma_fundamental_div_mod_converse(
                from_root as int,
                7,
                octaves as int,
                steps as int,
            );
        }
        DegreePlace { octaves, steps: steps as usize }
    }
}

/// The number of semitones that the first `steps` steps of `pattern` span.
pub open spec fn span_of_steps(pattern: Seq<u8>, steps: int) -> int
    decreases steps,
{
    if steps <= 0 {
        0
    } else {
        span_of_steps(pattern, steps - 1) + pattern[steps - 1]
    }
}

/// The number of semitones that the first `steps` steps of `pattern` span,
/// where each step is a semitone or a whole tone.
pub fn semitones_of_steps(pattern: &[u8; 7], steps: usize) -> (semitones: u8)
    requires
        steps <= 7,
        forall|i: int| 0 <= i < 7 ==> (#[trigger] pattern@[i]) >= 1 && pattern@[i] <= 2,
    ensures
        semitones == span_of_steps(pattern@, steps as int),
        steps <= semitones <= 2 * steps,
{
    let mut semitones: u8 = 0;
    let mut i: usize = 0;
    while i < steps
        invariant
            i <= steps <= 7,
            forall|j: int| 0 <= j < 7 ==> (#[trigger] pattern@[j]) >= 1 && pattern@[j] <= 2,
            semitones == span_of_steps(pattern@, i as int),
            i <= semitones <= 2 * i,
        decreases steps - i,
    {
        semitones = semitones + pattern[i];
        i = i + 1;
    }
    semitones
}

} // verus!
