//! Scales: which pitch stands at which degree.

use vstd::prelude::*;

pub mod tet12;

use crate::note::NotePitch;

verus! {

/// A musical scale: a rule that gives the pitch at each degree. Degree 1 is
/// the root; degrees beyond the scale, and negative degrees, continue in
/// the octaves above and below.
///
/// The library has no scale of its own, since a pitch is computed from its
/// root in floating point: it says where each degree of a mode lies, and
/// leaves the pitch to whoever implements this trait.
pub trait Scale {
    /// The pitch at `degree`.
    fn get_degree(&self, degree: isize) -> (pitch: NotePitch);

    /// The pitches at several degrees, in the order asked: each is what
    /// `get_degree` gave for that degree.
    fn get_degrees<const N: usize>(&self, degrees: [isize; N]) -> (pitches: [NotePitch; N])
        ensures
            forall|i: int|
                0 <= i < N ==> call_ensures(Self::get_degree, (self, degrees@[i]), pitches@[i]),
    {
        let mut pitches: [NotePitch; N] = [NotePitch(0); N];
        let mut i: usize = 0;
        while i < N
            invariant
                i <= N,
                forall|j: int|
                    0 <= j < i ==> call_ensures(Self::get_degree, (self, degrees@[j]), pitches@[j]),
            decreases N - i,
        {
            pitches[i] = self.get_degree(degrees[i]);
            i = i + 1;
        }
        pitches
    }
}

} // verus!
