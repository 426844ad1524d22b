//! The seven modes of the diatonic scale.

use vstd::prelude::*;

use crate::scales::tet12::{degree_place, semitones_of_steps, span_of_steps, steps_from_root};

verus! {

/// A whole tone: two semitones.
pub const WHOLE: u8 = 2;

/// A half tone: one semitone.
pub const HALF: u8 = 1;

/// A mode of the diatonic scale: one of the seven orders in which five
/// whole tones and two half tones make up an octave.
#[derive(Clone, Copy, Debug, PartialEq, Eq, Hash)]
pub enum ScaleMode {
    /// Major with a raised fourth.
    Lydian,
    /// The major scale, also called Ionian.
    Major,
    /// Major with a lowered seventh.
    Mixolydian,
    /// Minor with a raised sixth.
    Dorian,
    /// The natural minor scale, also called Aeolian.
    Minor,
    /// Minor with a lowered second.
    Phrygian,
    /// Minor with a lowered second and a lowered fifth.
    Locrian,
}

/// Where a degree of a mode lies: so many whole octaves from the root and so
/// many semitones above that.
#[derive(Clone, Copy, Debug, PartialEq, Eq)]
pub struct DegreeOffset {
    /// The number of whole octaves above the root, negative below it.
    pub octaves: isize,
    /// The number of semitones above that octave: 0 to 11.
    pub semitones: u8,
}

impl ScaleMode {
    /// The step from each degree to the next, in semitones, starting at the
    /// root.
    pub open spec fn spec_pattern(self) -> Seq<u8> {
        match self {
            ScaleMode::Lydian => seq![WHOLE, WHOLE, WHOLE, HALF, WHOLE, WHOLE, HALF],
            ScaleMode::Major => seq![WHOLE, WHOLE, HALF, WHOLE, WHOLE, WHOLE, HALF],
            ScaleMode::Mixolydian => seq![WHOLE, WHOLE, HALF, WHOLE, WHOLE, HALF, WHOLE],
            ScaleMode::Dorian => seq![WHOLE, HALF, WHOLE, WHOLE, WHOLE, HALF, WHOLE],
            ScaleMode::Minor => seq![WHOLE, HALF, WHOLE, WHOLE, HALF, WHOLE, WHOLE],
            ScaleMode::Phrygian => seq![HALF, WHOLE, WHOLE, WHOLE, HALF, WHOLE, WHOLE],
            ScaleMode::Locrian => seq![HALF, WHOLE, WHOLE, HALF, WHOLE, WHOLE, WHOLE],
        }
    }

    /// The step from each degree to the next, in semitones, starting at the
    /// root.
    pub fn pattern(self) -> (pattern: [u8; 7])
        ensures
            pattern@ == self.spec_pattern(),
    {
        let pattern: [u8; 7] = match self {
            ScaleMode::Lydian => [WHOLE, WHOLE, WHOLE, HALF, WHOLE, WHOLE, HALF],
            ScaleMode::Major => [WHOLE, WHOLE, HALF, WHOLE, WHOLE, WHOLE, HALF],
            ScaleMode::Mixolydian => [WHOLE, WHOLE, HALF, WHOLE, WHOLE, HALF, WHOLE],
            ScaleMode::Dorian => [WHOLE, HALF, WHOLE, WHOLE, WHOLE, HALF, WHOLE],
            ScaleMode::Minor => [WHOLE, HALF, WHOLE, WHOLE, HALF, WHOLE, WHOLE],
            ScaleMode::Phrygian => [HALF, WHOLE, WHOLE, WHOLE, HALF, WHOLE, WHOLE],
            ScaleMode::Locrian => [HALF, WHOLE, WHOLE, HALF, WHOLE, WHOLE, WHOLE],
        };
        proof {
            assert(pattern@ =~= self.spec_pattern());
        }
        pattern
    }

    /// Where the degree `degree` of this mode lies from the root. Degree 1
    /// is the root itself, and so is degree 0. Degrees above 7 lie in the
    /// octaves above, degrees below 0 in the octaves below.
    pub fn degree_offset(self, degree: isize) -> (offset: DegreeOffset)
        ensures
            offset.octaves == steps_from_root(degree) / 7,
            offset.semitones == span_of_steps(self.spec_pattern(), steps_from_root(degree) % 7),
            offset.semitones < 12,
    {
        let place = degree_place(degree);
        let pattern = self.pattern();
        let semitones: u8 = semitones_of_steps(&pattern, place.steps);
        proof {
            lemma_octave_spans_twelve(self);
            lemma_span_grows(self.spec_pattern(), place.steps as int, 7);
        }
        DegreeOffset { octaves: place.octaves, semitones }
    }
}

/// More steps span more semitones.
pub proof fn lemma_span_grows(pattern: Seq<u8>, fewer: int, more: int)
    requires
        0 <= fewer <= more,
    ensures
        span_of_steps(pattern, fewer) <= span_of_steps(pattern, more),
    decreases more,
{
    if fewer < more {
        lemma_span_grows(pattern, fewer, more - 1);
    }
}

/// The seven steps of every mode span an octave of twelve semitones, and
/// the first six span less.
pub proof fn lemma_octave_spans_twelve(mode: ScaleMode)
    ensures
        span_of_steps(mode.spec_pattern(), 7) == 12,
        span_of_steps(mode.spec_pattern(), 6) < 12,
{
    reveal_with_fuel(span_of_steps, 8);
}

/// The root stands at degree 1 and at degree 0, no octave and no semitone
/// away.
pub proof fn lemma_root_degree(mode: ScaleMode)
    ensures
        steps_from_root(1) / 7 == 0,
        span_of_steps(mode.spec_pattern(), steps_from_root(1) % 7) == 0,
        steps_from_root(0) == steps_from_root(1),
{
}

/// Seven degrees higher is the same place an octave higher.
pub proof fn lemma_octave_of_degrees(degree: isize)
    requires
        degree >= 1,
        degree + 7 <= isize::MAX,
    ensures
        steps_from_root((degree + 7) as isize) / 7 == steps_from_root(degree) / 7 + 1,
        steps_from_root((degree + 7) as isize) % 7 == steps_from_root(degree) % 7,
{
    vstd::arithmetic::div_mod::lemma_fundamental_div_mod(steps_from_root(degree), 7);
    vstd::arithmetic::div_mod::lemma_fundamental_div_mod_converse(
        steps_from_root(degree) + 7,
        7,
        steps_from_root(degree) / 7 + 1,
        steps_from_root(degree) % 7,
    );
}

} // verus!
