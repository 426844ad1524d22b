//! Time along a sequence of notes: how long it lasts, when each note starts,
//! and what is left when time is taken off its end.

use vstd::prelude::*;

use crate::note::length::NoteLength;
use crate::note::Note;

verus! {

/// The time that `notes` take when played one after another.
pub open spec fn total_duration(notes: Seq<Note>) -> nat
    decreases notes.len(),
{
    if notes.len() == 0 {
        0
    } else {
        total_duration(notes.drop_last()) + notes.last().spec_duration()
    }
}

/// The time at which the note at index `i` starts: the time taken by the
/// notes before it.
pub open spec fn onset(notes: Seq<Note>, i: int) -> nat {
    total_duration(notes.take(i))
}

/// Whether the note at index `i` starts exactly at time `t`.
pub open spec fn starts_at(notes: Seq<Note>, i: int, t: nat) -> bool {
    0 <= i < notes.len() && onset(notes, i) == t
}

/// Whether the note at index `i` sounds at time `t`: it has started and has
/// not yet ended.
pub open spec fn sounds_at(notes: Seq<Note>, i: int, t: nat) -> bool {
    0 <= i < notes.len() && onset(notes, i) <= t < onset(notes, i) + notes[i].spec_duration()
}

/// The least index of a note that starts exactly at time `t`, if there is
/// one.
#[verifier::opaque]
pub open spec fn index_starting_at(notes: Seq<Note>, t: nat) -> Option<int> {
    if exists|i: int| starts_at(notes, i, t) {
        Some(
            choose|i: int|
                starts_at(notes, i, t) && forall|j: int| 0 <= j < i ==> !starts_at(notes, j, t),
        )
    } else {
        None
    }
}

/// The index of the note that sounds at time `t`, if there is one.
#[verifier::opaque]
pub open spec fn index_sounding_at(notes: Seq<Note>, t: nat) -> Option<int> {
    if exists|i: int| sounds_at(notes, i, t) {
        Some(choose|i: int| sounds_at(notes, i, t))
    } else {
        None
    }
}

/// The first note that starts exactly at time `t`, if there is one.
pub open spec fn note_starting_at(notes: Seq<Note>, t: nat) -> Option<Note> {
    match index_starting_at(notes, t) {
        Some(i) => Some(notes[i]),
        None => None,
    }
}

/// The note that sounds at time `t`, if there is one.
pub open spec fn note_sounding_at(notes: Seq<Note>, t: nat) -> Option<Note> {
    match index_sounding_at(notes, t) {
        Some(i) => Some(notes[i]),
        None => None,
    }
}

/// The note `note` with `amount` time units taken off its duration.
pub open spec fn shortened(note: Note, amount: nat) -> Note
    recommends
        amount <= note.spec_duration(),
{
    Note(NoteLength((note.spec_duration() - amount) as u16), note.1)
}

/// What is left of `notes` when `amount` time units are taken off the end.
/// Whole notes go while they fit in what is still to be taken; the note in
/// which the boundary falls stays, shortened. Taking more than there is
/// leaves nothing.
pub open spec fn cut_tail(notes: Seq<Note>, amount: nat) -> Seq<Note>
    decreases notes.len(),
{
    if amount == 0 || notes.len() == 0 {
        notes
    } else if notes.last().spec_duration() <= amount {
        cut_tail(notes.drop_last(), (amount - notes.last().spec_duration()) as nat)
    } else {
        notes.drop_last().push(shortened(notes.last(), amount))
    }
}

/// Appending one note adds its duration.
pub proof fn lemma_total_duration_push(notes: Seq<Note>, note: Note)
    ensures
        total_duration(notes.push(note)) == total_duration(notes) + note.spec_duration(),
{
    assert(notes.push(note).drop_last() =~= notes);
}

/// The duration of two sequences played one after the other is the sum of
/// their durations.
pub proof fn lemma_total_duration_concat(a: Seq<Note>, b: Seq<Note>)
    ensures
        total_duration(a + b) == total_duration(a) + total_duration(b),
    decreases b.len(),
{
    if b.len() == 0 {
        assert(a + b =~= a);
    } else {
        lemma_total_duration_concat(a, b.drop_last());
        assert((a + b).drop_last() =~= a + b.drop_last());
    }
}

/// Onsets never decrease along a sequence, and none lies after its end.
pub proof fn lemma_onset_monotone(notes: Seq<Note>, i: int, j: int)
    requires
        0 <= i <= j <= notes.len(),
    ensures
        onset(notes, i) <= onset(notes, j) <= total_duration(notes),
    decreases notes.len() - i,
{
    assert(notes.take(notes.len() as int) =~= notes);
    assert(notes.take(j) =~= notes.take(i) + notes.subrange(i, j));
    lemma_total_duration_concat(notes.take(i), notes.subrange(i, j));
    assert(notes =~= notes.take(j) + notes.skip(j));
    lemma_total_duration_concat(notes.take(j), notes.skip(j));
}

/// The onset of the note after index `i` is the end of the note at `i`.
pub proof fn lemma_onset_step(notes: Seq<Note>, i: int)
    requires
        0 <= i < notes.len(),
    ensures
        onset(notes, i + 1) == onset(notes, i) + notes[i].spec_duration(),
{
    assert(notes.take(i + 1).drop_last() =~= notes.take(i));
}

/// Taking time off the end shortens a sequence by exactly that time, or to
/// nothing where it had less.
pub proof fn lemma_cut_tail_duration(notes: Seq<Note>, amount: nat)
    ensures
        total_duration(cut_tail(notes, amount)) == if amount <= total_duration(notes) {
            total_duration(notes) - amount
        } else {
            0
        },
    decreases notes.len(),
{
    if amount == 0 || notes.len() == 0 {
    } else if notes.last().spec_duration() <= amount {
        lemma_cut_tail_duration(
            notes.drop_last(),
            (amount - notes.last().spec_duration()) as nat,
        );
    } else {
        lemma_total_duration_push(notes.drop_last(), shortened(notes.last(), amount));
    }
}

/// Taking nothing off the end leaves the sequence as it was.
pub proof fn lemma_cut_tail_nothing(notes: Seq<Note>)
    ensures
        cut_tail(notes, 0) == notes,
{
}

/// What is left after a cut is never longer than the sequence was, and all
/// of it but the last note is a prefix of the sequence.
pub proof fn lemma_cut_tail_prefix(notes: Seq<Note>, amount: nat)
    ensures
        cut_tail(notes, amount).len() <= notes.len(),
        forall|i: int|
            0 <= i < cut_tail(notes, amount).len() - 1 ==> cut_tail(notes, amount)[i] == notes[i],
        cut_tail(notes, amount).len() > 0 ==> cut_tail(notes, amount).last().1
            == notes[cut_tail(notes, amount).len() - 1].1,
    decreases notes.len(),
{
    if amount == 0 || notes.len() == 0 {
    } else if notes.last().spec_duration() <= amount {
        let rest = (amount - notes.last().spec_duration()) as nat;
        lemma_cut_tail_prefix(notes.drop_last(), rest);
        assert forall|i: int| 0 <= i < cut_tail(notes, amount).len() - 1 implies cut_tail(
            notes,
            amount,
        )[i] == notes[i] by {
            assert(cut_tail(notes.drop_last(), rest)[i] == notes.drop_last()[i]);
        }
    } else {
    }
}

/// Among the notes that start at time `t`, one comes first: given one at
/// index `some`, the result is the least index of such a note.
pub proof fn lemma_first_start(notes: Seq<Note>, t: nat, some: int) -> (first: int)
    requires
        starts_at(notes, some, t),
    ensures
        starts_at(notes, first, t),
        first <= some,
        forall|j: int| 0 <= j < first ==> !starts_at(notes, j, t),
    decreases some,
{
    if exists|j: int| 0 <= j < some && starts_at(notes, j, t) {
        let earlier = choose|j: int| 0 <= j < some && starts_at(notes, j, t);
        lemma_first_start(notes, t, earlier)
    } else {
        some
    }
}

/// What `index_starting_at` finds: the least index at which a note starts
/// at time `t`, and nothing exactly when no note starts then.
pub proof fn lemma_index_starting_at(notes: Seq<Note>, t: nat)
    ensures
        match index_starting_at(notes, t) {
            Some(i) => starts_at(notes, i, t) && forall|j: int|
                0 <= j < i ==> !starts_at(notes, j, t),
            None => forall|i: int| !starts_at(notes, i, t),
        },
{
    reveal(index_starting_at);
    if exists|i: int| starts_at(notes, i, t) {
        let some = choose|i: int| starts_at(notes, i, t);
        lemma_first_start(notes, t, some);
        let found = choose|i: int|
            starts_at(notes, i, t) && forall|j: int| 0 <= j < i ==> !starts_at(notes, j, t);
        assert(starts_at(notes, found, t) && forall|j: int|
            0 <= j < found ==> !starts_at(notes, j, t));
    }
}

/// What `index_sounding_at` finds: the index of the one note that has
/// started and not yet ended at time `t`, and nothing exactly when there is
/// no such note.
pub proof fn lemma_index_sounding_at(notes: Seq<Note>, t: nat)
    ensures
        match index_sounding_at(notes, t) {
            Some(i) => sounds_at(notes, i, t) && forall|j: int|
                sounds_at(notes, j, t) ==> j == i,
            None => forall|i: int| !sounds_at(notes, i, t),
        },
{
    reveal(index_sounding_at);
    if exists|i: int| sounds_at(notes, i, t) {
        let found = choose|i: int| sounds_at(notes, i, t);
        assert forall|j: int| sounds_at(notes, j, t) implies j == found by {
            if j < found {
                lemma_onset_step(notes, j);
                lemma_onset_monotone(notes, j + 1, found);
            } else if j > found {
                lemma_onset_step(notes, found);
                lemma_onset_monotone(notes, found + 1, j);
            }
        }
    }
}

} // verus!
