//! Lines: notes played one after another, and how two lines are spliced.

use vstd::prelude::*;

use crate::note::length::{InvalidDuration, NoteLength};
use crate::note::timbre::{Timbre, TimbreFluid};
use crate::note::{Note, NoteKind};
use crate::text::{decimal, push_decimal, push_str, string_of};
use crate::piece::timing::{
    cut_tail, index_sounding_at, index_starting_at, lemma_index_sounding_at,
    lemma_index_starting_at, lemma_onset_step, note_sounding_at, note_starting_at, onset,
    sounds_at, starts_at, total_duration,
};

verus! {

/// A melody or rhythm: notes played one after another.
///
/// A line may carry pickup notes, which sound just before its first beat.
/// They are heard only when the line is spliced onto another, where they
/// take the place of the end of that line.
#[derive(Clone, Debug, Default, PartialEq, Eq, Hash)]
pub struct Line {
    /// The notes of the line, in the order in which they sound.
    pub notes: Vec<Note>,
    /// The notes that sound before the first beat when this line follows
    /// another.
    pub pickup: Vec<Note>,
    /// Whether the note that sounds last before the first beat is held into
    /// the first note of the line.
    pub hold_pickup: bool,
}

/// A line as a mathematical value.
pub struct LineView {
    /// The notes of the line.
    pub notes: Seq<Note>,
    /// The pickup notes.
    pub pickup: Seq<Note>,
    /// Whether the pickup is held into the first note.
    pub hold_pickup: bool,
}

impl View for Line {
    type V = LineView;

    open spec fn view(&self) -> LineView {
        LineView { notes: self.notes@, pickup: self.pickup@, hold_pickup: self.hold_pickup }
    }
}

impl LineView {
    /// The line with no notes.
    pub open spec fn empty() -> LineView {
        LineView { notes: Seq::empty(), pickup: Seq::empty(), hold_pickup: false }
    }

    /// The line of the given notes, with no pickup.
    pub open spec fn of(notes: Seq<Note>) -> LineView {
        LineView { notes, pickup: Seq::empty(), hold_pickup: false }
    }

    /// The length of the line: the time its notes take. The pickup does not
    /// count.
    pub open spec fn length(self) -> nat {
        total_duration(self.notes)
    }

    /// The time the pickup notes take.
    pub open spec fn pickup_length(self) -> nat {
        total_duration(self.pickup)
    }

    /// What sounds before the first beat of `next` when `next` follows this
    /// line: this line with the length of `next`'s pickup taken off its end,
    /// then that pickup.
    pub open spec fn lead_in(self, next: LineView) -> Seq<Note> {
        cut_tail(self.notes, next.pickup_length()) + next.pickup
    }

    /// Whether splicing `next` onto this line ties two notes into one: `next`
    /// holds its pickup, and there is a note on either side of its first
    /// beat.
    pub open spec fn ties(self, next: LineView) -> bool {
        next.hold_pickup && self.lead_in(next).len() > 0 && next.notes.len() > 0
    }

    /// Whether `next` can be spliced onto this line: a tied note, if there is
    /// one, has a duration that a note can have.
    pub open spec fn concat_fits(self, next: LineView) -> bool {
        self.ties(next) ==> self.lead_in(next).last().spec_duration()
            + next.notes.first().spec_duration() <= u16::MAX
    }

    /// This line followed by `next`. The pickup of `next` replaces the end of
    /// this line. Where the two tie, the last note before the first beat of
    /// `next` is lengthened by the first note of `next`, which does not
    /// sound on its own. The result has the pickup of this line.
    pub open spec fn concat(self, next: LineView) -> LineView {
        let lead = self.lead_in(next);
        LineView {
            notes: if self.ties(next) {
                lead.drop_last().push(
                    Note(
                        NoteLength(
                            (lead.last().spec_duration()
                                + next.notes.first().spec_duration()) as u16,
                        ),
                        lead.last().1,
                    ),
                ) + next.notes.drop_first()
            } else {
                lead + next.notes
            },
            pickup: self.pickup,
            hold_pickup: self.hold_pickup,
        }
    }

    /// This line with a rest of `extend_by` time units at its end, or just
    /// this line if `extend_by` is 0.
    pub open spec fn extend(self, extend_by: u16) -> LineView {
        if extend_by == 0 {
            self
        } else {
            LineView {
                notes: self.notes.push(Note(NoteLength(extend_by), NoteKind::Rest)),
                pickup: self.pickup,
                hold_pickup: self.hold_pickup,
            }
        }
    }

    /// The notes of this line as the pickup of a line with no notes.
    pub open spec fn as_pickup(self) -> LineView {
        LineView { notes: Seq::empty(), pickup: self.notes, hold_pickup: self.hold_pickup }
    }

    /// This line, holding its pickup into its first note.
    pub open spec fn hold_into(self) -> LineView {
        LineView { notes: self.notes, pickup: self.pickup, hold_pickup: true }
    }

    /// This line with every pitched note, pickup included, at volume
    /// `volume`.
    pub open spec fn with_volume(self, volume: u32) -> LineView {
        LineView {
            notes: self.notes.map_values(|n: Note| n.spec_volume(volume)),
            pickup: self.pickup.map_values(|n: Note| n.spec_volume(volume)),
            hold_pickup: self.hold_pickup,
        }
    }

    /// This line with every pitched note, pickup included, in the voice
    /// `timbre`.
    pub open spec fn with_timbre(self, timbre: Timbre) -> LineView {
        LineView {
            notes: self.notes.map_values(|n: Note| n.spec_with_timbre(timbre)),
            pickup: self.pickup.map_values(|n: Note| n.spec_with_timbre(timbre)),
            hold_pickup: self.hold_pickup,
        }
    }

    /// Whether this line can be played `times` times in a row: every splice
    /// of the line onto what came before fits.
    pub open spec fn repeat_fits(self, times: nat) -> bool
        decreases times,
    {
        if times <= 1 {
            true
        } else {
            self.repeat_fits((times - 1) as nat) && self.repeat((times - 1) as nat).concat_fits(
                self,
            )
        }
    }

    /// This line played `times` times in a row: the line is spliced onto
    /// what came before, so its pickup sounds at every seam.
    pub open spec fn repeat(self, times: nat) -> LineView
        decreases times,
    {
        if times <= 1 {
            self
        } else {
            self.repeat((times - 1) as nat).concat(self)
        }
    }
}

/// The time that `notes` take, computed exactly.
pub fn duration_sum(notes: &Vec<Note>) -> (total: u128)
    ensures
        total == total_duration(notes@),
{
    let mut total: u128 = 0;
    let mut i: usize = 0;
    while i < notes.len()
        invariant
            i <= notes.len(),
            total == total_duration(notes@.take(i as int)),
            total <= i * 0xffff,
        decreases notes.len() - i,
    {
        proof {
            lemma_onset_step(notes@, i as int);
        }
        total = total + notes[i].0.0 as u128;
        i = i + 1;
    }
    proof {
        assert(notes@.take(notes.len() as int) =~= notes@);
    }
    total
}

/// A copy of `notes`.
pub fn copy_notes(notes: &Vec<Note>) -> (copy: Vec<Note>)
    ensures
        copy@ == notes@,
{
    let mut copy: Vec<Note> = Vec::new();
    let mut i: usize = 0;
    while i < notes.len()
        invariant
            i <= notes.len(),
            copy@ == notes@.take(i as int),
        decreases notes.len() - i,
    {
        copy.push(notes[i]);
        proof {
            assert(notes@.take(i as int).push(notes@[i as int]) =~= notes@.take(i + 1));
        }
        i = i + 1;
    }
    proof {
        assert(notes@.take(notes.len() as int) =~= notes@);
    }
    copy
}

/// Takes `amount` time units off the end of `notes`.
pub fn trim_tail(notes: &mut Vec<Note>, amount: u128)
    ensures
        final(notes)@ == cut_tail(old(notes)@, amount as nat),
{
    let mut remaining: u128 = amount;
    while remaining > 0 && notes.len() > 0
        invariant
            cut_tail(notes@, remaining as nat) == cut_tail(old(notes)@, amount as nat),
        decreases notes.len(), remaining,
    {
        let ghost before = notes@;
        let last: Note = notes[notes.len() - 1];
        let duration: u128 = last.0.0 as u128;
        notes.pop();
        assert(notes@ == before.drop_last());
        if duration <= remaining {
            remaining = remaining - duration;
        } else {
            let left: u128 = duration - remaining;
            notes.push(Note(NoteLength(left as u16), last.1));
            remaining = 0;
        }
    }
}

impl Line {
    /// A line with no notes.
    pub fn new() -> (line: Line)
        ensures
            line@ == LineView::empty(),
    {
        Line { notes: Vec::new(), pickup: Vec::new(), hold_pickup: false }
    }

    /// The line of the given notes, with no pickup.
    pub fn from_notes(notes: Vec<Note>) -> (line: Line)
        ensures
            line@ == LineView::of(notes@),
    {
        Line { notes, pickup: Vec::new(), hold_pickup: false }
    }

    /// The line of one note.
    pub fn from_note(note: Note) -> (line: Line)
        ensures
            line@ == LineView::of(seq![note]),
    {
        let mut notes: Vec<Note> = Vec::new();
        notes.push(note);
        Line { notes, pickup: Vec::new(), hold_pickup: false }
    }

    /// A copy of this line.
    pub fn duplicate(&self) -> (line: Line)
        ensures
            line@ == self@,
    {
        Line {
            notes: copy_notes(&self.notes),
            pickup: copy_notes(&self.pickup),
            hold_pickup: self.hold_pickup,
        }
    }

    /// This line with a rest of `extend_by` time units at its end, or a copy
    /// of this line if `extend_by` is 0.
    pub fn extend(&self, extend_by: u16) -> (line: Line)
        ensures
            line@ == self@.extend(extend_by),
    {
        let mut line = self.duplicate();
        if extend_by != 0 {
            line.notes.push(Note(NoteLength(extend_by), NoteKind::Rest));
        }
        line
    }

    /// The length of the line in time units: the sum of the durations of its
    /// notes, not counting the pickup. A length beyond `usize::MAX` is
    /// given as `usize::MAX`.
    pub fn length(&self) -> (length: usize)
        ensures
            self@.length() <= usize::MAX ==> length == self@.length(),
            self@.length() > usize::MAX ==> length == usize::MAX,
    {
        let total: u128 = duration_sum(&self.notes);
        if total > usize::MAX as u128 {
            usize::MAX
        } else {
            total as usize
        }
    }

    /// The time the pickup notes take. A length beyond `usize::MAX` is
    /// given as `usize::MAX`.
    pub fn pickup_length(&self) -> (length: usize)
        ensures
            self@.pickup_length() <= usize::MAX ==> length == self@.pickup_length(),
            self@.pickup_length() > usize::MAX ==> length == usize::MAX,
    {
        let total: u128 = duration_sum(&self.pickup);
        if total > usize::MAX as u128 {
            usize::MAX
        } else {
            total as usize
        }
    }

    /// The line in words: how many notes it has and, if it has a pickup,
    /// how many notes that has.
    pub fn to_text(&self) -> (text: String)
        ensures
            text@ == "Line["@ + decimal(self@.notes.len()) + " notes"@ + if self@.pickup.len() > 0 {
                ", "@ + decimal(self@.pickup.len()) + " pickup"@
            } else {
                Seq::<char>::empty()
            } + "]"@,
    {
        let mut chars: Vec<char> = Vec::new();
        push_str(&mut chars, "Line[");
        push_decimal(&mut chars, self.notes.len() as u64);
        push_str(&mut chars, " notes");
        if self.pickup.len() > 0 {
            push_str(&mut chars, ", ");
            push_decimal(&mut chars, self.pickup.len() as u64);
            push_str(&mut chars, " pickup");
        }
        push_str(&mut chars, "]");
        proof {
            assert(chars@ =~= "Line["@ + decimal(self@.notes.len()) + " notes"@ + if self@.pickup.len()
                > 0 {
                ", "@ + decimal(self@.pickup.len()) + " pickup"@
            } else {
                Seq::<char>::empty()
            } + "]"@);
        }
        string_of(&chars)
    }

    /// This line with every pitched note, pickup included, at volume
    /// `volume`. Rests are unchanged.
    pub fn volume(&self, volume: u32) -> (line: Line)
        ensures
            line@ == self@.with_volume(volume),
    {
        let mut notes: Vec<Note> = Vec::new();
        let mut i: usize = 0;
        while i < self.notes.len()
            invariant
                i <= self.notes.len(),
                notes@ == self.notes@.take(i as int).map_values(|n: Note| n.spec_volume(volume)),
            decreases self.notes.len() - i,
        {
            notes.push(self.notes[i].volume(volume));
            proof {
                assert(self.notes@.take(i + 1).drop_last() =~= self.notes@.take(i as int));
                assert(notes@ =~= self.notes@.take(i + 1).map_values(
                    |n: Note| n.spec_volume(volume),
                ));
            }
            i = i + 1;
        }
        let mut pickup: Vec<Note> = Vec::new();
        let mut j: usize = 0;
        while j < self.pickup.len()
            invariant
                j <= self.pickup.len(),
                pickup@ == self.pickup@.take(j as int).map_values(
                    |n: Note| n.spec_volume(volume),
                ),
            decreases self.pickup.len() - j,
        {
            pickup.push(self.pickup[j].volume(volume));
            proof {
                assert(pickup@ =~= self.pickup@.take(j + 1).map_values(
                    |n: Note| n.spec_volume(volume),
                ));
            }
            j = j + 1;
        }
        proof {
            assert(self.notes@.take(self.notes.len() as int) =~= self.notes@);
            assert(self.pickup@.take(self.pickup.len() as int) =~= self.pickup@);
        }
        Line { notes, pickup, hold_pickup: self.hold_pickup }
    }

    /// The index of the first note that starts exactly at time `instant`, if
    /// there is one.
    pub fn index_at_time(&self, instant: u128) -> (found: Option<usize>)
        ensures
            match found {
                Some(i) => index_starting_at(self.notes@, instant as nat) == Some(i as int) && i
                    < self.notes@.len(),
                None => index_starting_at(self.notes@, instant as nat) == None::<int>,
            },
    {
        proof {
            lemma_index_starting_at(self.notes@, instant as nat);
        }
        let mut elapsed: u128 = 0;
        let mut i: usize = 0;
        while i < self.notes.len()
            invariant
                i <= self.notes.len(),
                elapsed == onset(self.notes@, i as int),
                elapsed <= i * 0xffff,
                forall|j: int| 0 <= j < i ==> !starts_at(self.notes@, j, instant as nat),
            decreases self.notes.len() - i,
        {
            if elapsed == instant {
                proof {
                    lemma_index_starting_at(self.notes@, instant as nat);
                    assert(starts_at(self.notes@, i as int, instant as nat));
                }
                return Some(i);
            }
            proof {
                lemma_onset_step(self.notes@, i as int);
            }
            elapsed = elapsed + self.notes[i].0.0 as u128;
            i = i + 1;
        }
        proof {
            lemma_index_starting_at(self.notes@, instant as nat);
        }
        None
    }

    /// The index of the note that sounds at time `instant`, if there is
    /// one: it has started and has not yet ended.
    pub fn index_during_time(&self, instant: u128) -> (found: Option<usize>)
        ensures
            match found {
                Some(i) => index_sounding_at(self.notes@, instant as nat) == Some(i as int) && i
                    < self.notes@.len(),
                None => index_sounding_at(self.notes@, instant as nat) == None::<int>,
            },
    {
        let mut elapsed: u128 = 0;
        let mut i: usize = 0;
        while i < self.notes.len()
            invariant
                i <= self.notes.len(),
                elapsed == onset(self.notes@, i as int),
                elapsed <= i * 0xffff,
                forall|j: int| 0 <= j < i ==> !sounds_at(self.notes@, j, instant as nat),
            decreases self.notes.len() - i,
        {
            let end: u128 = elapsed + self.notes[i].0.0 as u128;
            proof {
                lemma_onset_step(self.notes@, i as int);
            }
            if elapsed <= instant && instant < end {
                proof {
                    lemma_index_sounding_at(self.notes@, instant as nat);
                    assert(sounds_at(self.notes@, i as int, instant as nat));
                }
                return Some(i);
            }
            elapsed = end;
            i = i + 1;
        }
        proof {
            lemma_index_sounding_at(self.notes@, instant as nat);
        }
        None
    }

    /// The index of the first note that starts exactly at time `instant`, if
    /// there is one.
    pub fn index_at_instant(&self, instant: usize) -> (found: Option<usize>)
        ensures
            match found {
                Some(i) => index_starting_at(self.notes@, instant as nat) == Some(i as int) && i
                    < self.notes@.len(),
                None => index_starting_at(self.notes@, instant as nat) == None::<int>,
            },
    {
        self.index_at_time(instant as u128)
    }

    /// The index of the note that sounds at time `instant`, if there is
    /// one: it has started and has not yet ended.
    pub fn index_during_instant(&self, instant: usize) -> (found: Option<usize>)
        ensures
            match found {
                Some(i) => index_sounding_at(self.notes@, instant as nat) == Some(i as int) && i
                    < self.notes@.len(),
                None => index_sounding_at(self.notes@, instant as nat) == None::<int>,
            },
    {
        self.index_during_time(instant as u128)
    }

    /// The first note that starts exactly at time `instant`, if there is
    /// one.
    pub fn get_notes_at_instant(&self, instant: usize) -> (found: Option<Note>)
        ensures
            found == note_starting_at(self.notes@, instant as nat),
    {
        match self.index_at_instant(instant) {
            Some(i) => Some(self.notes[i]),
            None => None,
        }
    }

    /// The note that sounds at time `instant`, if there is one: it has
    /// started and has not yet ended.
    pub fn get_note_during_instant(&self, instant: usize) -> (found: Option<Note>)
        ensures
            found == note_sounding_at(self.notes@, instant as nat),
    {
        match self.index_during_instant(instant) {
            Some(i) => Some(self.notes[i]),
            None => None,
        }
    }

    /// The notes of this line as the pickup of a line with no notes of its
    /// own. What was the pickup is dropped.
    pub fn as_pickup(self) -> (line: Line)
        ensures
            line@ == self@.as_pickup(),
    {
        Line { notes: Vec::new(), pickup: self.notes, hold_pickup: self.hold_pickup }
    }

    /// This line, holding its pickup into its first note.
    pub fn hold_into(self) -> (line: Line)
        ensures
            line@ == self@.hold_into(),
    {
        Line { notes: self.notes, pickup: self.pickup, hold_pickup: true }
    }

    /// This line followed by the note `note`.
    pub fn concat_note(&self, note: Note) -> (line: Line)
        ensures
            line@ == self@.concat(LineView::of(seq![note])),
            line@.notes == self@.notes.push(note),
    {
        let mut line = self.duplicate();
        line.notes.push(note);
        proof {
            let next = LineView::of(seq![note]);
            assert(total_duration(Seq::<Note>::empty()) == 0);
            assert(self@.lead_in(next) =~= self@.notes);
            assert(self@.notes + seq![note] =~= self@.notes.push(note));
        }
        line
    }

    /// This line followed by `next`.
    ///
    /// The pickup of `next` takes the place of the end of this line: as much
    /// time as the pickup lasts is taken off the end, whole notes first, and
    /// the note in which the boundary falls is shortened. If `next` holds
    /// its pickup, the last note before its first beat is lengthened by the
    /// first note of `next`, which then does not sound on its own; with no
    /// note on one side of the first beat nothing is tied. The result has
    /// the pickup of this line.
    ///
    /// Fails exactly when a tied note would be longer than a note can be.
    pub fn concat(&self, next: &Line) -> (joined: Result<Line, InvalidDuration>)
        ensures
            match joined {
                Ok(line) => self@.concat_fits(next@) && line@ == self@.concat(next@),
                Err(_) => !self@.concat_fits(next@),
            },
    {
        let mut notes: Vec<Note> = copy_notes(&self.notes);
        let pickup_length: u128 = duration_sum(&next.pickup);
        trim_tail(&mut notes, pickup_length);
        let mut i: usize = 0;
        while i < next.pickup.len()
            invariant
                i <= next.pickup.len(),
                notes@ == cut_tail(self.notes@, pickup_length as nat) + next.pickup@.take(i as int),
            decreases next.pickup.len() - i,
        {
            notes.push(next.pickup[i]);
            proof {
                assert(next.pickup@.take(i as int).push(next.pickup@[i as int])
                    =~= next.pickup@.take(i + 1));
            }
            i = i + 1;
        }
        proof {
            assert(next.pickup@.take(next.pickup.len() as int) =~= next.pickup@);
        }
        assert(notes@ == self@.lead_in(next@));
        let mut k: usize = 0;
        if next.hold_pickup && notes.len() > 0 && next.notes.len() > 0 {
            let last: Note = notes[notes.len() - 1];
            let first: Note = next.notes[0];
            if last.0.0 > u16::MAX - first.0.0 {
                return Err(InvalidDuration);
            }
            notes.pop();
            notes.push(Note(NoteLength(last.0.0 + first.0.0), last.1));
            k = 1;
        }
        let ghost head = notes@;
        while k < next.notes.len()
            invariant
                k <= next.notes.len(),
                notes@ == head + next.notes@.subrange(
                    if self@.ties(next@) { 1int } else { 0int },
                    k as int,
                ),
                self@.ties(next@) ==> k >= 1,
            decreases next.notes.len() - k,
        {
            notes.push(next.notes[k]);
            proof {
                let from = if self@.ties(next@) { 1int } else { 0int };
                assert(next.notes@.subrange(from, k as int).push(next.notes@[k as int])
                    =~= next.notes@.subrange(from, k + 1));
            }
            k = k + 1;
        }
        proof {
            assert(next.notes@.subrange(0, next.notes.len() as int) =~= next.notes@);
            assert(next.notes@.subrange(1, next.notes.len() as int) =~= next.notes@.drop_first());
        }
        Ok(Line { notes, pickup: copy_notes(&self.pickup), hold_pickup: self.hold_pickup })
    }

    /// This line played `times` times in a row. The line is spliced onto
    /// what came before each time, so its pickup sounds at every seam.
    ///
    /// Fails exactly when one of the splices does.
    pub fn repeat(&self, times: usize) -> (repeated: Result<Line, InvalidDuration>)
        requires
            times >= 1,
        ensures
            match repeated {
                Ok(line) => self@.repeat_fits(times as nat) && line@ == self@.repeat(times as nat),
                Err(_) => !self@.repeat_fits(times as nat),
            },
    {
        let mut current = self.duplicate();
        let mut done: usize = 1;
        while done < times
            invariant
                1 <= done <= times,
                self@.repeat_fits(done as nat),
                current@ == self@.repeat(done as nat),
            decreases times - done,
        {
            match current.concat(self) {
                Ok(line) => {
                    current = line;
                },
                Err(e) => {
                    proof {
                        if self@.repeat_fits(times as nat) {
                            lemma_repeat_fits_downward(self@, (done + 1) as nat, times as nat);
                        }
                    }
                    return Err(e);
                },
            }
            done = done + 1;
        }
        Ok(current)
    }
}

/// If a line can be repeated some number of times, it can be repeated any
/// smaller number of times.
pub proof fn lemma_repeat_fits_downward(line: LineView, fewer: nat, more: nat)
    requires
        fewer <= more,
        line.repeat_fits(more),
    ensures
        line.repeat_fits(fewer),
    decreases more,
{
    if fewer < more && more > 1 {
        lemma_repeat_fits_downward(line, fewer, (more - 1) as nat);
    }
}

impl TimbreFluid for Line {
    open spec fn timbre_applied(self, timbre: Timbre, out: Line) -> bool {
        out@ == self@.with_timbre(timbre)
    }

    fn with_timbre(self, timbre: Timbre) -> (out: Line) {
        let mut notes: Vec<Note> = Vec::new();
        let mut i: usize = 0;
        while i < self.notes.len()
            invariant
                i <= self.notes.len(),
                notes@ == self.notes@.take(i as int).map_values(
                    |n: Note| n.spec_with_timbre(timbre),
                ),
            decreases self.notes.len() - i,
        {
            notes.push(self.notes[i].with_timbre(timbre));
            proof {
                assert(notes@ =~= self.notes@.take(i + 1).map_values(
                    |n: Note| n.spec_with_timbre(timbre),
                ));
            }
            i = i + 1;
        }
        let mut pickup: Vec<Note> = Vec::new();
        let mut j: usize = 0;
        while j < self.pickup.len()
            invariant
                j <= self.pickup.len(),
                pickup@ == self.pickup@.take(j as int).map_values(
                    |n: Note| n.spec_with_timbre(timbre),
                ),
            decreases self.pickup.len() - j,
        {
            pickup.push(self.pickup[j].with_timbre(timbre));
            proof {
                assert(pickup@ =~= self.pickup@.take(j + 1).map_values(
                    |n: Note| n.spec_with_timbre(timbre),
                ));
            }
            j = j + 1;
        }
        proof {
            assert(self.notes@.take(self.notes.len() as int) =~= self.notes@);
            assert(self.pickup@.take(self.pickup.len() as int) =~= self.pickup@);
        }
        Line { notes, pickup, hold_pickup: self.hold_pickup }
    }
}

} // verus!
