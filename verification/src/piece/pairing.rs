//! Pairing the tracks of two pieces by position.

use itertools::EitherOrBoth;
use itertools::Itertools;
use vstd::prelude::*;

verus! {

/// What stands at one position when the tracks of two pieces are laid side
/// by side: a track of each, or a track of only one of them.
#[derive(Clone, Copy, Debug, PartialEq, Eq)]
pub enum TrackPairing {
    /// Both pieces have a track here; the fields are its index in the first
    /// and in the second piece.
    Both(usize, usize),
    /// Only the first piece has a track here, at this index.
    Left(usize),
    /// Only the second piece has a track here, at this index.
    Right(usize),
}

/// What stands at position `i` when `left` tracks are laid beside `right`
/// tracks.
pub open spec fn pairing_at(left: nat, right: nat, i: int) -> TrackPairing {
    if i < left && i < right {
        TrackPairing::Both(i as usize, i as usize)
    } else if i < left {
        TrackPairing::Left(i as usize)
    } else {
        TrackPairing::Right(i as usize)
    }
}

/// Pairs the positions `0..left` with the positions `0..right`.
///
/// Calls `Itertools::zip_longest` on the two ranges. As long as neither
/// range is exhausted it yields a pair of both; once one is exhausted it
/// yields the remaining positions of the other alone. The contract says
/// exactly that: there are as many pairings as the longer range has
/// positions, and each is the one that `pairing_at` names.
#[verifier::external_body]
pub(crate) fn pair_positions(left: usize, right: usize) -> (pairs: Vec<TrackPairing>)
    ensures
        pairs@.len() == if left >= right { left } else { right },
        forall|i: int| 0 <= i < pairs@.len() ==> pairs@[i] == pairing_at(left as nat, right as nat, i),
{
    (0..left)
        .zip_longest(0..right)
        .map(
            |pair| match pair {
                EitherOrBoth::Both(l, r) => TrackPairing::Both(l, r),
                EitherOrBoth::Left(l) => TrackPairing::Left(l),
                EitherOrBoth::Right(r) => TrackPairing::Right(r),
            },
        )
        .collect()
}

} // verus!
