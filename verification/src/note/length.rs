//! Durations, and the functions that give a musical element its duration.

use vstd::prelude::*;

use crate::note::timbre::Timbre;
use crate::note::{Note, NoteKind, NotePitch, UNIT_VOLUME};
use crate::text::{decimal, push_decimal, push_str, string_of};

verus! {

/// The duration of a note in abstract time units: 1 for a sixteenth note, 2
/// for an eighth, 4 for a quarter, 8 for a half and 16 for a whole note.
#[derive(Clone, Copy, Debug, PartialEq, Eq, PartialOrd, Ord, Hash, Default)]
pub struct NoteLength(pub u16);

impl NoteLength {
    /// A length of `duration` time units.
    pub fn new(duration: u16) -> (r: NoteLength)
        ensures
            r.0 == duration,
    {
        NoteLength(duration)
    }

    /// The number of time units.
    pub fn duration(&self) -> (r: u16)
        ensures
            r == self.0,
    {
        self.0
    }

    /// The length in words: the number of time units, and ` beats`.
    pub fn to_text(&self) -> (text: String)
        ensures
            text@ == decimal(self.0 as nat) + " beats"@,
    {
        let mut chars: Vec<char> = Vec::new();
        push_decimal(&mut chars, self.0 as u64);
        push_str(&mut chars, " beats");
        string_of(&chars)
    }
}

impl From<u16> for NoteLength {
    fn from(length: u16) -> (made: NoteLength) {
        NoteLength(length)
    }
}

impl vstd::std_specs::convert::FromSpecImpl<u16> for NoteLength {
    open spec fn obeys_from_spec() -> bool {
        true
    }

    open spec fn from_spec(length: u16) -> NoteLength {
        NoteLength(length)
    }
}

impl From<NoteLength> for u16 {
    fn from(length: NoteLength) -> (units: u16) {
        length.0
    }
}

impl vstd::std_specs::convert::FromSpecImpl<NoteLength> for u16 {
    open spec fn obeys_from_spec() -> bool {
        true
    }

    open spec fn from_spec(length: NoteLength) -> u16 {
        length.0
    }
}

/// A duration that no single note can have: the arithmetic that was to
/// produce it left the range of `NoteLength`.
#[derive(Clone, Copy, Debug, PartialEq, Eq, Hash)]
pub struct InvalidDuration;

/// Elements that have a length which a single note could have.
pub trait HasNoteLength {
    /// The length of the element in time units.
    spec fn spec_note_length(&self) -> nat;

    /// The length of the element as a note length. Fails exactly when the
    /// element is longer than a note can be.
    fn length(&self) -> (length: Result<NoteLength, InvalidDuration>)
        ensures
            match length {
                Ok(l) => l.0 == self.spec_note_length(),
                Err(_) => self.spec_note_length() > u16::MAX,
            },
    ;
}

/// Elements that can be given a duration: a pitch or a rest becomes a note,
/// a note gets another length, a chord becomes a piece.
pub trait LengthFluid: Sized {
    /// What the element becomes once it has a duration.
    type Output: HasNoteLength;

    /// Whether `out` is this element with the duration `length`.
    spec fn length_applied(self, length: NoteLength, out: Self::Output) -> bool;

    /// Gives this element the duration `length`.
    fn with_length(self, length: NoteLength) -> (out: Self::Output)
        ensures
            self.length_applied(length, out),
    ;
}

impl HasNoteLength for Note {
    open spec fn spec_note_length(&self) -> nat {
        self.0.0 as nat
    }

    fn length(&self) -> (length: Result<NoteLength, InvalidDuration>) {
        Ok(self.0)
    }
}

impl LengthFluid for NoteKind {
    type Output = Note;

    open spec fn length_applied(self, length: NoteLength, out: Note) -> bool {
        out == Note(length, self)
    }

    fn with_length(self, length: NoteLength) -> (out: Note) {
        Note(length, self)
    }
}

impl LengthFluid for Note {
    type Output = Note;

    open spec fn length_applied(self, length: NoteLength, out: Note) -> bool {
        out == Note(length, self.1)
    }

    fn with_length(self, length: NoteLength) -> (out: Note) {
        Note(length, self.1)
    }
}

impl LengthFluid for NotePitch {
    type Output = Note;

    open spec fn length_applied(self, length: NoteLength, out: Note) -> bool {
        out == Note(
            length,
            NoteKind::Pitched { pitch: self, timbre: Timbre::Sine, volume: UNIT_VOLUME },
        )
    }

    fn with_length(self, length: NoteLength) -> (out: Note) {
        Note(length, NoteKind::Pitched { pitch: self, timbre: Timbre::Sine, volume: UNIT_VOLUME })
    }
}

/// Makes the element a sixteenth note long: 1 time unit.
pub fn sixteenth<N: LengthFluid>(kind: N) -> (out: N::Output)
    ensures
        kind.length_applied(NoteLength(1), out),
{
    kind.with_length(NoteLength(1))
}

/// Makes the element an eighth note long: 2 time units.
pub fn eighth<N: LengthFluid>(kind: N) -> (out: N::Output)
    ensures
        kind.length_applied(NoteLength(2), out),
{
    kind.with_length(NoteLength(2))
}

/// Makes the element a quarter note long: 4 time units.
pub fn quarter<N: LengthFluid>(kind: N) -> (out: N::Output)
    ensures
        kind.length_applied(NoteLength(4), out),
{
    kind.with_length(NoteLength(4))
}

/// Makes the element a half note long: 8 time units.
pub fn half<N: LengthFluid>(kind: N) -> (out: N::Output)
    ensures
        kind.length_applied(NoteLength(8), out),
{
    kind.with_length(NoteLength(8))
}

/// Makes the element a whole note long: 16 time units.
pub fn whole<N: LengthFluid>(kind: N) -> (out: N::Output)
    ensures
        kind.length_applied(NoteLength(16), out),
{
    kind.with_length(NoteLength(16))
}

/// Makes the element a double whole note long: 32 time units.
pub fn double_whole<N: LengthFluid>(kind: N) -> (out: N::Output)
    ensures
        kind.length_applied(NoteLength(32), out),
{
    kind.with_length(NoteLength(32))
}

/// The length of a dotted note: that of the plain note and half as much
/// again, the half rounded down.
pub open spec fn dotted_length(base: nat) -> nat {
    base + base / 2
}

/// Whether `made` is what dotting gives for `kind`, where the plain length
/// function made `sized` of it: `kind` with the dotted length of `sized`,
/// or an error exactly when that is longer than a note can be.
pub open spec fn dotted_from<T: LengthFluid>(
    kind: T,
    sized: T::Output,
    made: Result<T::Output, InvalidDuration>,
) -> bool {
    let length = dotted_length(sized.spec_note_length());
    match made {
        Ok(out) => length <= u16::MAX && kind.length_applied(NoteLength(length as u16), out),
        Err(_) => length > u16::MAX,
    }
}

/// The dotted form of a length function: the function that gives an element
/// one and a half times the length that `len_fn` gives it.
///
/// The function returned applies `len_fn` to a copy of the element, reads
/// the length off the result, and gives the element that length and half as
/// much again. It fails exactly when that is longer than a note can be.
pub fn dotted<T: LengthFluid + Clone>(len_fn: impl Fn(T) -> T::Output) -> (dotted_fn: impl Fn(
    T,
) -> Result<T::Output, InvalidDuration>)
    requires
        forall|kind: T| call_requires(len_fn, (kind,)),
    ensures
        forall|kind: T| call_requires(dotted_fn, (kind,)),
        forall|kind: T, made: Result<T::Output, InvalidDuration>|
            call_ensures(dotted_fn, (kind,), made) ==> exists|copy: T, sized: T::Output|
                cloned(kind, copy) && call_ensures(len_fn, (copy,), sized) && dotted_from(
                    kind,
                    sized,
                    made,
                ),
{
    move |kind: T| -> (made: Result<T::Output, InvalidDuration>)
        ensures
            exists|copy: T, sized: T::Output|
                cloned(kind, copy) && call_ensures(len_fn, (copy,), sized) && dotted_from(
                    kind,
                    sized,
                    made,
                ),
        {
            let copy = kind.clone();
            let sized = len_fn(copy);
            let made = match sized.length() {
                Ok(base) => {
                    let half: u16 = base.0 / 2;
                    if base.0 > u16::MAX - half {
                        Err(InvalidDuration)
                    } else {
                        Ok(kind.with_length(NoteLength(base.0 + half)))
                    }
                },
                Err(e) => Err(e),
            };
            assert(cloned(kind, copy) && call_ensures(len_fn, (copy,), sized) && dotted_from(
                kind,
                sized,
                made,
            ));
            made
        }
}

/// Whether `made` is what tying gives for `kind`, where the two length
/// functions made `first` and `second` of it: `kind` with the lengths of
/// the two added, or an error exactly when the sum is longer than a note
/// can be.
pub open spec fn tied_from<T: LengthFluid>(
    kind: T,
    first: T::Output,
    second: T::Output,
    made: Result<T::Output, InvalidDuration>,
) -> bool {
    let length = first.spec_note_length() + second.spec_note_length();
    match made {
        Ok(out) => length <= u16::MAX && kind.length_applied(NoteLength(length as u16), out),
        Err(_) => length > u16::MAX,
    }
}

/// The tie of two length functions: the function that gives an element the
/// lengths that `len_fn1` and `len_fn2` give it, added.
///
/// The function returned applies each length function to a copy of the
/// element, reads the lengths off the results, and gives the element their
/// sum. It fails exactly when the sum is longer than a note can be.
pub fn tie<T: LengthFluid + Clone>(
    len_fn1: impl Fn(T) -> T::Output,
    len_fn2: impl Fn(T) -> T::Output,
) -> (tied_fn: impl Fn(T) -> Result<T::Output, InvalidDuration>)
    requires
        forall|kind: T| call_requires(len_fn1, (kind,)),
        forall|kind: T| call_requires(len_fn2, (kind,)),
    ensures
        forall|kind: T| call_requires(tied_fn, (kind,)),
        forall|kind: T, made: Result<T::Output, InvalidDuration>|
            call_ensures(tied_fn, (kind,), made) ==> exists|
                copy1: T,
                copy2: T,
                first: T::Output,
                second: T::Output,
            |
                cloned(kind, copy1) && cloned(kind, copy2) && call_ensures(len_fn1, (copy1,), first)
                    && call_ensures(len_fn2, (copy2,), second) && tied_from(
                    kind,
                    first,
                    second,
                    made,
                ),
{
    move |kind: T| -> (made: Result<T::Output, InvalidDuration>)
        ensures
            exists|copy1: T, copy2: T, first: T::Output, second: T::Output|
                cloned(kind, copy1) && cloned(kind, copy2) && call_ensures(len_fn1, (copy1,), first)
                    && call_ensures(len_fn2, (copy2,), second) && tied_from(
                    kind,
                    first,
                    second,
                    made,
                ),
        {
            let copy1 = kind.clone();
            let copy2 = kind.clone();
            let first = len_fn1(copy1);
            let second = len_fn2(copy2);
            let made = match first.length() {
                Ok(length1) => match second.length() {
                    Ok(length2) => {
                        if length1.0 > u16::MAX - length2.0 {
                            Err(InvalidDuration)
                        } else {
                            Ok(kind.with_length(NoteLength(length1.0 + length2.0)))
                        }
                    },
                    Err(e) => Err(e),
                },
                Err(e) => Err(e),
            };
            assert(cloned(kind, copy1) && cloned(kind, copy2) && call_ensures(
                len_fn1,
                (copy1,),
                first,
            ) && call_ensures(len_fn2, (copy2,), second) && tied_from(kind, first, second, made));
            made
        }
}

} // verus!
