//! The drum kit: which drum a pitch stands for.

use vstd::prelude::*;

use crate::note::NotePitch;

verus! {

/// A drum of the kit.
#[derive(Clone, Copy, Debug, PartialEq, Eq, Hash)]
pub enum DrumKind {
    /// The crash cymbal.
    Crash,
    /// The closed hi-hat.
    HiHat,
    /// The snare drum.
    Snare,
    /// The kick drum.
    Kick,
}

/// The pitches at which one drum gives way to the next. A frequency is
/// positive, and of two positive single-precision numbers the larger has the
/// larger bit pattern: pitches are compared by their bit patterns.
#[derive(Clone, Copy, Debug, PartialEq, Eq)]
pub struct DrumRanges {
    /// Above this pitch the crash cymbal sounds.
    pub crash_above: NotePitch,
    /// Above this pitch, up to the one before, the hi-hat sounds.
    pub hi_hat_above: NotePitch,
    /// Below this pitch the kick drum sounds.
    pub kick_below: NotePitch,
}

impl NotePitch {
    /// Whether this pitch is higher than `other`, both of them positive.
    pub open spec fn spec_is_above(self, other: NotePitch) -> bool {
        self.0 > other.0
    }

    /// Whether this pitch is higher than `other`, both of them positive.
    pub fn is_above(&self, other: NotePitch) -> (above: bool)
        ensures
            above == self.spec_is_above(other),
    {
        self.0 > other.0
    }
}

impl DrumKind {
    /// The name of the drum.
    pub open spec fn spec_name(self) -> Seq<char> {
        match self {
            DrumKind::Crash => seq!['c', 'r', 'a', 's', 'h'],
            DrumKind::HiHat => seq!['h', 'i', '-', 'h', 'a', 't'],
            DrumKind::Snare => seq!['s', 'n', 'a', 'r', 'e'],
            DrumKind::Kick => seq!['k', 'i', 'c', 'k'],
        }
    }

    /// The name of the drum: `crash`, `hi-hat`, `snare` or `kick`.
    pub fn name(self) -> (name: &'static str)
        ensures
            name@ == self.spec_name(),
    {
        proof {
            reveal_strlit("crash");
            reveal_strlit("hi-hat");
            reveal_strlit("snare");
            reveal_strlit("kick");
        }
        let name = match self {
            DrumKind::Crash => "crash",
            DrumKind::HiHat => "hi-hat",
            DrumKind::Snare => "snare",
            DrumKind::Kick => "kick",
        };
        proof {
            assert(name@ =~= self.spec_name());
        }
        name
    }

    /// The drum that sounds for `pitch`: the crash cymbal above the highest
    /// boundary, the hi-hat above the middle one, the kick drum below the
    /// lowest, and the snare drum between.
    pub open spec fn spec_for_sound(pitch: NotePitch, ranges: DrumRanges) -> DrumKind {
        if pitch.spec_is_above(ranges.crash_above) {
            DrumKind::Crash
        } else if pitch.spec_is_above(ranges.hi_hat_above) {
            DrumKind::HiHat
        } else if ranges.kick_below.spec_is_above(pitch) {
            DrumKind::Kick
        } else {
            DrumKind::Snare
        }
    }

    /// The drum that sounds for a note of the pitch `pitch`.
    pub fn for_sound(pitch: NotePitch, ranges: &DrumRanges) -> (kind: DrumKind)
        ensures
            kind == Self::spec_for_sound(pitch, *ranges),
    {
        if pitch.is_above(ranges.crash_above) {
            DrumKind::Crash
        } else if pitch.is_above(ranges.hi_hat_above) {
            DrumKind::HiHat
        } else if ranges.kick_below.is_above(pitch) {
            DrumKind::Kick
        } else {
            DrumKind::Snare
        }
    }

    /// Whether a note of the pitch `pitch` is drawn on the row of this drum
    /// in a score. Here every boundary is left out on both sides: a pitch
    /// that lies exactly on one is drawn on no row.
    pub open spec fn spec_draws(self, pitch: NotePitch, ranges: DrumRanges) -> bool {
        match self {
            DrumKind::Crash => pitch.spec_is_above(ranges.crash_above),
            DrumKind::HiHat => ranges.crash_above.spec_is_above(pitch) && pitch.spec_is_above(
                ranges.hi_hat_above,
            ),
            DrumKind::Snare => pitch.spec_is_above(ranges.kick_below)
                && ranges.hi_hat_above.spec_is_above(pitch),
            DrumKind::Kick => ranges.kick_below.spec_is_above(pitch),
        }
    }

    /// Whether a note of the pitch `pitch` is drawn on the row of this drum
    /// in a score.
    pub fn draws(self, pitch: NotePitch, ranges: &DrumRanges) -> (drawn: bool)
        ensures
            drawn == self.spec_draws(pitch, *ranges),
    {
        match self {
            DrumKind::Crash => pitch.is_above(ranges.crash_above),
            DrumKind::HiHat => ranges.crash_above.is_above(pitch) && pitch.is_above(
                ranges.hi_hat_above,
            ),
            DrumKind::Snare => pitch.is_above(ranges.kick_below) && ranges.hi_hat_above.is_above(
                pitch,
            ),
            DrumKind::Kick => ranges.kick_below.is_above(pitch),
        }
    }
}

/// With the boundaries in rising order, a pitch that lies on none of them
/// is drawn on the row of the drum that sounds for it, and on no other.
pub proof fn lemma_drawn_where_it_sounds(pitch: NotePitch, ranges: DrumRanges, kind: DrumKind)
    requires
        ranges.hi_hat_above.spec_is_above(ranges.kick_below),
        ranges.crash_above.spec_is_above(ranges.hi_hat_above),
        pitch != ranges.crash_above,
        pitch != ranges.hi_hat_above,
        pitch != ranges.kick_below,
    ensures
        kind.spec_draws(pitch, ranges) <==> kind == DrumKind::spec_for_sound(pitch, ranges),
{
}

} // verus!
