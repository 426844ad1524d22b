//! Pieces: lines of notes played at the same time.

use vstd::prelude::*;

pub mod line;
pub mod line_laws;
pub mod pairing;
pub mod piece_laws;
pub mod score;
pub mod timing;

use crate::note::length::{HasNoteLength, InvalidDuration, NoteLength};
use crate::note::timbre::{Timbre, TimbreFluid};
use crate::note::chord::{voiced_tracks, Chord};
use crate::note::{Note, NotePitch};
use crate::piece::line::{duration_sum, Line, LineView};
use crate::piece::pairing::{pair_positions, pairing_at, TrackPairing};
use crate::piece::timing::{note_sounding_at, note_starting_at};

verus! {

/// A composition: lines that play at the same time, each a track.
#[derive(Clone, Debug, Default, PartialEq, Eq, Hash)]
pub struct Piece(pub Vec<Line>);

/// A piece as a mathematical value.
pub struct PieceView {
    /// The tracks, in order.
    pub tracks: Seq<LineView>,
}

impl View for Piece {
    type V = PieceView;

    open spec fn view(&self) -> PieceView {
        PieceView { tracks: self.0@.map_values(|line: Line| line@) }
    }
}

/// The length of the longest of `tracks`, 0 if there is none.
pub open spec fn longest(tracks: Seq<LineView>) -> nat
    decreases tracks.len(),
{
    if tracks.len() == 0 {
        0
    } else if longest(tracks.drop_last()) >= tracks.last().length() {
        longest(tracks.drop_last())
    } else {
        tracks.last().length()
    }
}

/// The notes that start at time `t` in `tracks`: for each track in order,
/// its first note that starts exactly then, if it has one.
pub open spec fn onsets_at(tracks: Seq<LineView>, t: nat) -> Seq<Note>
    decreases tracks.len(),
{
    if tracks.len() == 0 {
        Seq::empty()
    } else {
        onsets_at(tracks.drop_last(), t) + match note_starting_at(tracks.last().notes, t) {
            Some(note) => seq![note],
            None => Seq::empty(),
        }
    }
}

/// The notes that sound at time `t` in `tracks`: for each track in order,
/// the note that has started and not yet ended, if there is one.
pub open spec fn sounding_at(tracks: Seq<LineView>, t: nat) -> Seq<Note>
    decreases tracks.len(),
{
    if tracks.len() == 0 {
        Seq::empty()
    } else {
        sounding_at(tracks.drop_last(), t) + match note_sounding_at(tracks.last().notes, t) {
            Some(note) => seq![note],
            None => Seq::empty(),
        }
    }
}

impl PieceView {
    /// The piece with no tracks.
    pub open spec fn empty() -> PieceView {
        PieceView { tracks: Seq::empty() }
    }

    /// The length of the piece: that of its longest track, 0 if it has none.
    pub open spec fn length(self) -> nat {
        longest(self.tracks)
    }

    /// The silence that stands before a track of `next` that this piece has
    /// no track for: a rest as long as this piece.
    pub open spec fn silence(self) -> LineView {
        LineView::empty().extend(self.length() as u16)
    }

    /// Whether the track at position `i` of this piece followed by `next`
    /// can be made: the two tracks there can be spliced, or the rest that
    /// stands in for the missing one is no longer than a note can be and
    /// can be spliced.
    pub open spec fn concat_track_fits(self, next: PieceView, i: int) -> bool {
        if i < self.tracks.len() && i < next.tracks.len() {
            self.tracks[i].concat_fits(next.tracks[i])
        } else if i < self.tracks.len() {
            next.length() <= u16::MAX
        } else {
            self.length() <= u16::MAX && self.silence().concat_fits(next.tracks[i])
        }
    }

    /// The track at position `i` of this piece followed by `next`. Where
    /// both have a track, the two are spliced. A track that only this piece
    /// has is followed by a rest as long as `next`. A track that only
    /// `next` has is spliced onto a rest as long as this piece.
    pub open spec fn concat_track(self, next: PieceView, i: int) -> LineView {
        if i < self.tracks.len() && i < next.tracks.len() {
            self.tracks[i].concat(next.tracks[i])
        } else if i < self.tracks.len() {
            self.tracks[i].extend(next.length() as u16)
        } else {
            self.silence().concat(next.tracks[i])
        }
    }

    /// The number of tracks of this piece followed by `next`: that of the
    /// one with more tracks.
    pub open spec fn concat_width(self, next: PieceView) -> nat {
        if self.tracks.len() >= next.tracks.len() {
            self.tracks.len()
        } else {
            next.tracks.len()
        }
    }

    /// Whether `next` can follow this piece: every track of the result can
    /// be made.
    pub open spec fn concat_fits(self, next: PieceView) -> bool {
        forall|i: int| 0 <= i < self.concat_width(next) ==> self.concat_track_fits(next, i)
    }

    /// This piece followed in time by `next`, track by track.
    pub open spec fn concat(self, next: PieceView) -> PieceView {
        PieceView {
            tracks: Seq::new(self.concat_width(next), |i: int| self.concat_track(next, i)),
        }
    }

    /// The tracks of this piece and those of `other` side by side, as they
    /// are.
    pub open spec fn layer(self, other: PieceView) -> PieceView {
        PieceView { tracks: self.tracks + other.tracks }
    }

    /// This piece with one more track that holds just `note`.
    pub open spec fn layer_note(self, note: Note) -> PieceView {
        PieceView { tracks: self.tracks.push(LineView::of(seq![note])) }
    }

    /// The common length to which `layer_line` brings every track: that of
    /// the piece or that of the line, whichever is longer.
    pub open spec fn layered_length(self, line: LineView) -> nat {
        if self.length() >= line.length() {
            self.length()
        } else {
            line.length()
        }
    }

    /// Whether `track` can be brought to the length `target` by one rest at
    /// its end.
    pub open spec fn pad_fits(track: LineView, target: nat) -> bool {
        target - track.length() <= u16::MAX
    }

    /// The track `track` with a rest at its end that brings it to the
    /// length `target`; unchanged if it is that long already.
    pub open spec fn pad(track: LineView, target: nat) -> LineView {
        if track.length() >= target {
            track
        } else {
            track.extend((target - track.length()) as u16)
        }
    }

    /// Whether `line` can be layered onto this piece with every track
    /// brought to the common length.
    pub open spec fn layer_line_fits(self, line: LineView) -> bool {
        &&& Self::pad_fits(line, self.layered_length(line))
        &&& forall|i: int|
            0 <= i < self.tracks.len() ==> Self::pad_fits(
                #[trigger] self.tracks[i],
                self.layered_length(line),
            )
    }

    /// This piece with `line` as one more track, every track brought to
    /// the common length by a rest at its end.
    pub open spec fn layer_line(self, line: LineView) -> PieceView {
        let target = self.layered_length(line);
        PieceView {
            tracks: self.tracks.map_values(|track: LineView| Self::pad(track, target)).push(
                Self::pad(line, target),
            ),
        }
    }

    /// Whether this piece can be played `times` times in a row.
    pub open spec fn repeat_fits(self, times: nat) -> bool
        decreases times,
    {
        if times <= 1 {
            true
        } else {
            self.repeat_fits((times - 1) as nat) && self.repeat((times - 1) as nat).concat_fits(
                self,
            )
        }
    }

    /// This piece played `times` times in a row; the piece with no tracks
    /// if `times` is 0.
    pub open spec fn repeat(self, times: nat) -> PieceView
        decreases times,
    {
        if times == 0 {
            PieceView::empty()
        } else if times == 1 {
            self
        } else {
            self.repeat((times - 1) as nat).concat(self)
        }
    }

    /// This piece with every pitched note at volume `volume`.
    pub open spec fn with_volume(self, volume: u32) -> PieceView {
        PieceView { tracks: self.tracks.map_values(|track: LineView| track.with_volume(volume)) }
    }

    /// This piece with every pitched note in the voice `timbre`.
    pub open spec fn with_timbre(self, timbre: Timbre) -> PieceView {
        PieceView { tracks: self.tracks.map_values(|track: LineView| track.with_timbre(timbre)) }
    }
}

/// No track is longer than the longest, and some track is that long.
pub proof fn lemma_longest_bounds(tracks: Seq<LineView>)
    ensures
        forall|i: int| 0 <= i < tracks.len() ==> (#[trigger] tracks[i]).length() <= longest(tracks),
        tracks.len() > 0 ==> exists|i: int|
            0 <= i < tracks.len() && (#[trigger] tracks[i]).length() == longest(tracks),
        tracks.len() == 0 ==> longest(tracks) == 0,
    decreases tracks.len(),
{
    if tracks.len() > 0 {
        lemma_longest_bounds(tracks.drop_last());
        let init = tracks.drop_last();
        assert forall|i: int| 0 <= i < tracks.len() implies (#[trigger] tracks[i]).length()
            <= longest(tracks) by {
            if i < tracks.len() - 1 {
                assert(init[i] == tracks[i]);
            }
        }
        if longest(init) >= tracks.last().length() && init.len() > 0 {
            let w = choose|i: int| 0 <= i < init.len() && (#[trigger] init[i]).length() == longest(init);
            assert(tracks[w] == init[w]);
        } else {
            assert(tracks[tracks.len() - 1].length() == longest(tracks));
        }
    }
}

/// A piece of one track is as long as that track, and the notes that start
/// in it at some time are the one that starts then in that track, if any.
pub proof fn lemma_single_track(line: LineView, t: nat)
    ensures
        longest(seq![line]) == line.length(),
        onsets_at(seq![line], t) == match note_starting_at(line.notes, t) {
            Some(note) => seq![note],
            None => Seq::<Note>::empty(),
        },
{
    assert(seq![line].drop_last() =~= Seq::<LineView>::empty());
    assert(longest(Seq::<LineView>::empty()) == 0);
    assert(onsets_at(Seq::<LineView>::empty(), t) =~= Seq::<Note>::empty());
    assert(onsets_at(seq![line], t) =~= match note_starting_at(line.notes, t) {
        Some(note) => seq![note],
        None => Seq::<Note>::empty(),
    });
}

impl Piece {
    /// A piece with no tracks.
    pub fn new() -> (piece: Piece)
        ensures
            piece@ == PieceView::empty(),
    {
        let piece = Piece(Vec::new());
        proof {
            assert(piece@.tracks =~= Seq::<LineView>::empty());
        }
        piece
    }

    /// The piece whose tracks are `lines`.
    pub fn from_lines(lines: Vec<Line>) -> (piece: Piece)
        ensures
            piece.0 == lines,
    {
        Piece(lines)
    }

    /// The piece whose only track is `line`.
    pub fn from_line(line: Line) -> (piece: Piece)
        ensures
            piece@.tracks == seq![line@],
    {
        let mut tracks: Vec<Line> = Vec::new();
        tracks.push(line);
        let piece = Piece(tracks);
        proof {
            assert(piece@.tracks =~= seq![line@]);
        }
        piece
    }

    /// The piece whose only track holds just `note`.
    pub fn from_note(note: Note) -> (piece: Piece)
        ensures
            piece@.tracks == seq![LineView::of(seq![note])],
    {
        Piece::from_line(Line::from_note(note))
    }

    /// A copy of this piece.
    pub fn duplicate(&self) -> (piece: Piece)
        ensures
            piece@ == self@,
    {
        let mut tracks: Vec<Line> = Vec::new();
        let mut i: usize = 0;
        while i < self.0.len()
            invariant
                i <= self.0.len(),
                tracks@.len() == i,
                forall|j: int| 0 <= j < i ==> (#[trigger] tracks@[j])@ == self.0@[j]@,
            decreases self.0.len() - i,
        {
            tracks.push(self.0[i].duplicate());
            i = i + 1;
        }
        let piece = Piece(tracks);
        proof {
            assert(piece@.tracks =~= self@.tracks);
        }
        piece
    }

    /// The length of the piece, computed exactly.
    pub fn exact_length(&self) -> (length: u128)
        ensures
            length == self@.length(),
    {
        let mut length: u128 = 0;
        let mut i: usize = 0;
        while i < self.0.len()
            invariant
                i <= self.0.len(),
                length == longest(self@.tracks.take(i as int)),
            decreases self.0.len() - i,
        {
            let track: u128 = duration_sum(&self.0[i].notes);
            proof {
                assert(self@.tracks.take(i + 1).drop_last() =~= self@.tracks.take(i as int));
            }
            if track > length {
                length = track;
            }
            i = i + 1;
        }
        proof {
            assert(self@.tracks.take(self.0.len() as int) =~= self@.tracks);
        }
        length
    }

    /// The length of the piece in time units: that of its longest track, 0
    /// if it has none. A length beyond `usize::MAX` is given as
    /// `usize::MAX`.
    pub fn length(&self) -> (length: usize)
        ensures
            self@.length() <= usize::MAX ==> length == self@.length(),
            self@.length() > usize::MAX ==> length == usize::MAX,
    {
        let exact: u128 = self.exact_length();
        if exact > usize::MAX as u128 {
            usize::MAX
        } else {
            exact as usize
        }
    }

    /// This piece with every pitched note at volume `volume`. Rests are
    /// unchanged.
    pub fn volume(&self, volume: u32) -> (piece: Piece)
        ensures
            piece@ == self@.with_volume(volume),
    {
        let mut tracks: Vec<Line> = Vec::new();
        let mut i: usize = 0;
        while i < self.0.len()
            invariant
                i <= self.0.len(),
                tracks@.len() == i,
                forall|j: int|
                    0 <= j < i ==> (#[trigger] tracks@[j])@ == self.0@[j]@.with_volume(volume),
            decreases self.0.len() - i,
        {
            tracks.push(self.0[i].volume(volume));
            i = i + 1;
        }
        let piece = Piece(tracks);
        proof {
            assert(piece@.tracks =~= self@.with_volume(volume).tracks);
        }
        piece
    }

    /// The notes that start exactly at time `instant`: for each track in
    /// order, its first note that starts then, if it has one.
    pub fn get_notes_at_instant(&self, instant: usize) -> (found: Vec<Note>)
        ensures
            found@ == onsets_at(self@.tracks, instant as nat),
    {
        let mut found: Vec<Note> = Vec::new();
        let mut i: usize = 0;
        while i < self.0.len()
            invariant
                i <= self.0.len(),
                found@ == onsets_at(self@.tracks.take(i as int), instant as nat),
            decreases self.0.len() - i,
        {
            proof {
                assert(self@.tracks.take(i + 1).drop_last() =~= self@.tracks.take(i as int));
            }
            match self.0[i].get_notes_at_instant(instant) {
                Some(note) => {
                    found.push(note);
                    proof {
                        assert(found@ =~= onsets_at(self@.tracks.take(i + 1), instant as nat));
                    }
                },
                None => {
                    proof {
                        assert(found@ =~= onsets_at(self@.tracks.take(i + 1), instant as nat));
                    }
                },
            }
            i = i + 1;
        }
        proof {
            assert(self@.tracks.take(self.0.len() as int) =~= self@.tracks);
        }
        found
    }

    /// The notes that sound at time `instant`: for each track in order, the
    /// note that has started and not yet ended, if there is one.
    pub fn get_notes_during_instant(&self, instant: usize) -> (found: Vec<Note>)
        ensures
            found@ == sounding_at(self@.tracks, instant as nat),
    {
        let mut found: Vec<Note> = Vec::new();
        let mut i: usize = 0;
        while i < self.0.len()
            invariant
                i <= self.0.len(),
                found@ == sounding_at(self@.tracks.take(i as int), instant as nat),
            decreases self.0.len() - i,
        {
            proof {
                assert(self@.tracks.take(i + 1).drop_last() =~= self@.tracks.take(i as int));
            }
            match self.0[i].get_note_during_instant(instant) {
                Some(note) => {
                    found.push(note);
                    proof {
                        assert(found@ =~= sounding_at(self@.tracks.take(i + 1), instant as nat));
                    }
                },
                None => {
                    proof {
                        assert(found@ =~= sounding_at(self@.tracks.take(i + 1), instant as nat));
                    }
                },
            }
            i = i + 1;
        }
        proof {
            assert(self@.tracks.take(self.0.len() as int) =~= self@.tracks);
        }
        found
    }

    /// This piece followed in time by `next`.
    ///
    /// Tracks are paired by position. Where both pieces have a track, the
    /// two are spliced as lines are. A track that only this piece has is
    /// followed by a rest as long as `next`. A track that only `next` has
    /// is spliced onto a rest as long as this piece.
    ///
    /// Fails exactly when a splice fails or a rest that is needed would be
    /// longer than a note can be.
    pub fn concat(&self, next: &Piece) -> (joined: Result<Piece, InvalidDuration>)
        ensures
            match joined {
                Ok(piece) => self@.concat_fits(next@) && piece@ == self@.concat(next@),
                Err(_) => !self@.concat_fits(next@),
            },
    {
        let own_length: u128 = self.exact_length();
        let next_length: u128 = next.exact_length();
        let pairs = pair_positions(self.0.len(), next.0.len());
        let mut tracks: Vec<Line> = Vec::new();
        let mut i: usize = 0;
        while i < pairs.len()
            invariant
                i <= pairs.len(),
                pairs@.len() == self@.concat_width(next@),
                forall|j: int|
                    0 <= j < pairs@.len() ==> pairs@[j] == pairing_at(
                        self.0@.len(),
                        next.0@.len(),
                        j,
                    ),
                own_length == self@.length(),
                next_length == next@.length(),
                tracks@.len() == i,
                forall|j: int| 0 <= j < i ==> self@.concat_track_fits(next@, j),
                forall|j: int|
                    0 <= j < i ==> (#[trigger] tracks@[j])@ == self@.concat_track(next@, j),
            decreases pairs.len() - i,
        {
            assert(pairs@[i as int] == pairing_at(self.0@.len(), next.0@.len(), i as int));
            let made: Result<Line, InvalidDuration> = match pairs[i] {
                TrackPairing::Both(l, r) => self.0[l].concat(&next.0[r]),
                TrackPairing::Left(l) => {
                    if next_length > 0xffff {
                        Err(InvalidDuration)
                    } else {
                        Ok(self.0[l].extend(next_length as u16))
                    }
                },
                TrackPairing::Right(r) => {
                    if own_length > 0xffff {
                        Err(InvalidDuration)
                    } else {
                        Line::new().extend(own_length as u16).concat(&next.0[r])
                    }
                },
            };
            match made {
                Ok(line) => {
                    tracks.push(line);
                },
                Err(e) => {
                    assert(!self@.concat_track_fits(next@, i as int));
                    return Err(e);
                },
            }
            i = i + 1;
        }
        let piece = Piece(tracks);
        proof {
            assert(piece@.tracks =~= self@.concat(next@).tracks);
        }
        Ok(piece)
    }

    /// This piece followed in time by the note `note`, which joins the first
    /// track.
    pub fn concat_note(&self, note: Note) -> (joined: Result<Piece, InvalidDuration>)
        ensures
            match joined {
                Ok(piece) => self@.concat_fits(PieceView { tracks: seq![LineView::of(seq![note])] })
                    && piece@ == self@.concat(
                    PieceView { tracks: seq![LineView::of(seq![note])] },
                ),
                Err(_) => !self@.concat_fits(PieceView { tracks: seq![LineView::of(seq![note])] }),
            },
    {
        let next = Piece::from_note(note);
        proof {
            assert(next@ == PieceView { tracks: seq![LineView::of(seq![note])] });
        }
        self.concat(&next)
    }

    /// The tracks of this piece and those of `other` side by side. No track
    /// is changed: tracks of different lengths stay so.
    pub fn layer(self, other: Piece) -> (piece: Piece)
        ensures
            piece@ == self@.layer(other@),
    {
        let mut tracks = self.0;
        let mut more = other.0;
        tracks.append(&mut more);
        let piece = Piece(tracks);
        proof {
            assert(piece@.tracks =~= self@.tracks + other@.tracks);
        }
        piece
    }

    /// This piece with one more track that holds just `note`. No track is
    /// changed.
    pub fn layer_note(self, note: Note) -> (piece: Piece)
        ensures
            piece@ == self@.layer_note(note),
    {
        let mut tracks = self.0;
        tracks.push(Line::from_note(note));
        let piece = Piece(tracks);
        proof {
            assert(piece@.tracks =~= self@.tracks.push(LineView::of(seq![note])));
        }
        piece
    }

    /// This piece with `line` as one more track, all of them brought to one
    /// length: every track that is shorter than the longer of piece and
    /// line gets a rest at its end that makes up the difference.
    ///
    /// Fails exactly when such a rest would be longer than a note can be.
    pub fn layer_line(&self, line: &Line) -> (layered: Result<Piece, InvalidDuration>)
        ensures
            match layered {
                Ok(piece) => self@.layer_line_fits(line@) && piece@ == self@.layer_line(line@),
                Err(_) => !self@.layer_line_fits(line@),
            },
    {
        let own_length: u128 = self.exact_length();
        let line_length: u128 = duration_sum(&line.notes);
        let target: u128 = if own_length >= line_length {
            own_length
        } else {
            line_length
        };
        let mut tracks: Vec<Line> = Vec::new();
        let mut i: usize = 0;
        while i < self.0.len()
            invariant
                i <= self.0.len(),
                target == self@.layered_length(line@),
                tracks@.len() == i,
                forall|j: int|
                    0 <= j < i ==> PieceView::pad_fits(#[trigger] self@.tracks[j], target as nat),
                forall|j: int|
                    0 <= j < i ==> (#[trigger] tracks@[j])@ == PieceView::pad(
                        self@.tracks[j],
                        target as nat,
                    ),
            decreases self.0.len() - i,
        {
            assert(self@.tracks[i as int] == self.0@[i as int]@);
            match Self::padded(&self.0[i], target) {
                Ok(track) => {
                    tracks.push(track);
                },
                Err(e) => {
                    return Err(e);
                },
            }
            i = i + 1;
        }
        match Self::padded(line, target) {
            Ok(track) => {
                tracks.push(track);
            },
            Err(e) => {
                return Err(e);
            },
        }
        let piece = Piece(tracks);
        proof {
            assert(piece@.tracks =~= self@.layer_line(line@).tracks);
        }
        Ok(piece)
    }

    /// The track `track` with a rest at its end that brings it to the
    /// length `target`, or a copy of it if it is that long already.
    fn padded(track: &Line, target: u128) -> (made: Result<Line, InvalidDuration>)
        ensures
            match made {
                Ok(line) => PieceView::pad_fits(track@, target as nat) && line@ == PieceView::pad(
                    track@,
                    target as nat,
                ),
                Err(_) => !PieceView::pad_fits(track@, target as nat),
            },
    {
        let length: u128 = duration_sum(&track.notes);
        if length >= target {
            Ok(track.duplicate())
        } else if target - length > 0xffff {
            Err(InvalidDuration)
        } else {
            Ok(track.extend((target - length) as u16))
        }
    }

    /// This piece played `times` times in a row; the piece with no tracks
    /// if `times` is 0.
    ///
    /// Fails exactly when one of the joins does.
    pub fn repeat(&self, times: usize) -> (repeated: Result<Piece, InvalidDuration>)
        ensures
            match repeated {
                Ok(piece) => self@.repeat_fits(times as nat) && piece@ == self@.repeat(
                    times as nat,
                ),
                Err(_) => !self@.repeat_fits(times as nat),
            },
    {
        if times == 0 {
            return Ok(Piece::new());
        }
        let mut current = self.duplicate();
        let mut done: usize = 1;
        while done < times
            invariant
                1 <= done <= times,
                self@.repeat_fits(done as nat),
                current@ == self@.repeat(done as nat),
            decreases times - done,
        {
            match current.concat(self) {
                Ok(piece) => {
                    current = piece;
                },
                Err(e) => {
                    proof {
                        if self@.repeat_fits(times as nat) {
                            lemma_piece_repeat_fits_downward(
                                self@,
                                (done + 1) as nat,
                                times as nat,
                            );
                        }
                    }
                    return Err(e);
                },
            }
            done = done + 1;
        }
        Ok(current)
    }
}

/// If a piece can be repeated some number of times, it can be repeated any
/// smaller number of times.
pub proof fn lemma_piece_repeat_fits_downward(piece: PieceView, fewer: nat, more: nat)
    requires
        fewer <= more,
        piece.repeat_fits(more),
    ensures
        piece.repeat_fits(fewer),
    decreases more,
{
    if fewer < more && more > 1 {
        lemma_piece_repeat_fits_downward(piece, fewer, (more - 1) as nat);
    }
}

impl HasNoteLength for Piece {
    open spec fn spec_note_length(&self) -> nat {
        self@.length()
    }

    fn length(&self) -> (length: Result<NoteLength, InvalidDuration>) {
        let exact: u128 = self.exact_length();
        if exact > 0xffff {
            Err(InvalidDuration)
        } else {
            Ok(NoteLength(exact as u16))
        }
    }
}

impl TimbreFluid for Piece {
    open spec fn timbre_applied(self, timbre: Timbre, out: Piece) -> bool {
        out@ == self@.with_timbre(timbre)
    }

    fn with_timbre(self, timbre: Timbre) -> (out: Piece) {
        let mut tracks: Vec<Line> = Vec::new();
        let mut i: usize = 0;
        while i < self.0.len()
            invariant
                i <= self.0.len(),
                tracks@.len() == i,
                forall|j: int|
                    0 <= j < i ==> (#[trigger] tracks@[j])@ == self.0@[j]@.with_timbre(timbre),
            decreases self.0.len() - i,
        {
            tracks.push(self.0[i].duplicate().with_timbre(timbre));
            i = i + 1;
        }
        let out = Piece(tracks);
        proof {
            assert(out@.tracks =~= self@.with_timbre(timbre).tracks);
        }
        out
    }
}

impl Line {
    /// This line and `other` as the two tracks of a piece. Neither is
    /// changed: lines of different lengths stay so.
    pub fn stack(self, other: Line) -> (piece: Piece)
        ensures
            piece@.tracks == seq![self@, other@],
    {
        let mut tracks: Vec<Line> = Vec::new();
        tracks.push(self);
        tracks.push(other);
        let piece = Piece(tracks);
        proof {
            assert(piece@.tracks =~= seq![self@, other@]);
        }
        piece
    }

    /// This line and a line of just `note` as the two tracks of a piece.
    pub fn stack_note(self, note: Note) -> (piece: Piece)
        ensures
            piece@.tracks == seq![self@, LineView::of(seq![note])],
    {
        self.stack(Line::from_note(note))
    }

    /// This line followed in time by `next`: the line is spliced onto the
    /// first track of `next`, and a rest as long as the line stands before
    /// every other track. With no track in `next`, the line alone.
    pub fn concat_piece(&self, next: &Piece) -> (joined: Result<Piece, InvalidDuration>)
        ensures
            match joined {
                Ok(piece) => (PieceView { tracks: seq![self@] }).concat_fits(next@) && piece@ == (
                PieceView { tracks: seq![self@] }).concat(next@),
                Err(_) => !(PieceView { tracks: seq![self@] }).concat_fits(next@),
            },
    {
        let first = Piece::from_line(self.duplicate());
        proof {
            assert(first@ == PieceView { tracks: seq![self@] });
        }
        first.concat(next)
    }
}

impl PieceView {
    /// Whether the first `count` of `pieces` can be joined in time, one
    /// after another.
    pub open spec fn join_fits(pieces: Seq<PieceView>, count: nat) -> bool
        decreases count,
    {
        if count <= 1 {
            true
        } else {
            Self::join_fits(pieces, (count - 1) as nat) && Self::join(
                pieces,
                (count - 1) as nat,
            ).concat_fits(pieces[count - 1])
        }
    }

    /// The first `count` of `pieces` joined in time, one after another; the
    /// piece with no tracks if `count` is 0.
    pub open spec fn join(pieces: Seq<PieceView>, count: nat) -> PieceView
        decreases count,
    {
        if count == 0 {
            PieceView::empty()
        } else if count == 1 {
            pieces[0]
        } else {
            Self::join(pieces, (count - 1) as nat).concat(pieces[count - 1])
        }
    }
}

/// If some number of pieces can be joined, so can any smaller number of
/// them.
pub proof fn lemma_join_fits_downward(pieces: Seq<PieceView>, fewer: nat, more: nat)
    requires
        fewer <= more,
        PieceView::join_fits(pieces, more),
    ensures
        PieceView::join_fits(pieces, fewer),
    decreases more,
{
    if fewer < more && more > 1 {
        lemma_join_fits_downward(pieces, fewer, (more - 1) as nat);
    }
}

impl Piece {
    /// The pieces `pieces` joined in time, one after another; the piece
    /// with no tracks if there are none.
    ///
    /// Fails exactly when one of the joins does.
    pub fn join_all(pieces: &Vec<Piece>) -> (joined: Result<Piece, InvalidDuration>)
        ensures
            match joined {
                Ok(piece) => PieceView::join_fits(
                    pieces@.map_values(|p: Piece| p@),
                    pieces@.len(),
                ) && piece@ == PieceView::join(pieces@.map_values(|p: Piece| p@), pieces@.len()),
                Err(_) => !PieceView::join_fits(pieces@.map_values(|p: Piece| p@), pieces@.len()),
            },
    {
        let ghost views = pieces@.map_values(|p: Piece| p@);
        if pieces.len() == 0 {
            return Ok(Piece::new());
        }
        let mut current = pieces[0].duplicate();
        let mut done: usize = 1;
        while done < pieces.len()
            invariant
                1 <= done <= pieces.len(),
                views == pieces@.map_values(|p: Piece| p@),
                PieceView::join_fits(views, done as nat),
                current@ == PieceView::join(views, done as nat),
            decreases pieces.len() - done,
        {
            assert(views[done as int] == pieces@[done as int]@);
            match current.concat(&pieces[done]) {
                Ok(piece) => {
                    current = piece;
                },
                Err(e) => {
                    proof {
                        if PieceView::join_fits(views, pieces@.len()) {
                            lemma_join_fits_downward(views, (done + 1) as nat, pieces@.len());
                        }
                    }
                    return Err(e);
                },
            }
            done = done + 1;
        }
        Ok(current)
    }
}

impl Note {
    /// This note followed by `next`, as a line.
    pub fn then(self, next: Note) -> (line: Line)
        ensures
            line@ == LineView::of(seq![self, next]),
    {
        let mut notes: Vec<Note> = Vec::new();
        notes.push(self);
        notes.push(next);
        proof {
            assert(notes@ =~= seq![self, next]);
        }
        Line::from_notes(notes)
    }

    /// This note followed by the line `next`: the line of this note, with
    /// `next` spliced onto it.
    pub fn then_line(self, next: &Line) -> (joined: Result<Line, InvalidDuration>)
        ensures
            match joined {
                Ok(line) => LineView::of(seq![self]).concat_fits(next@) && line@ == LineView::of(
                    seq![self],
                ).concat(next@),
                Err(_) => !LineView::of(seq![self]).concat_fits(next@),
            },
    {
        Line::from_note(self).concat(next)
    }

    /// This note `times` times in a row, as a line.
    pub fn repeat(self, times: usize) -> (line: Line)
        ensures
            line@ == LineView::of(Seq::new(times as nat, |i: int| self)),
    {
        let mut notes: Vec<Note> = Vec::new();
        let mut i: usize = 0;
        while i < times
            invariant
                i <= times,
                notes@ == Seq::new(i as nat, |k: int| self),
            decreases times - i,
        {
            notes.push(self);
            proof {
                assert(notes@ =~= Seq::new((i + 1) as nat, |k: int| self));
            }
            i = i + 1;
        }
        Line::from_notes(notes)
    }

    /// This note and `other` at the same time, each on a track of its own.
    pub fn stack(self, other: Note) -> (piece: Piece)
        ensures
            piece@.tracks == seq![LineView::of(seq![self]), LineView::of(seq![other])],
    {
        Line::from_note(self).stack(Line::from_note(other))
    }
}

impl Line {
    /// This line with each note sounded on a chord of its own: note `i` on
    /// every pitch of `chords[i]` at once, and the pieces that this gives
    /// joined in time.
    ///
    /// Fails exactly when one of the joins does.
    pub fn over_chords(&self, chords: &Vec<Chord>) -> (joined: Result<Piece, InvalidDuration>)
        requires
            chords@.len() == self@.notes.len(),
        ensures
            match joined {
                Ok(piece) => PieceView::join_fits(
                    chorded(self@.notes, chords@.map_values(|c: Chord| c@)),
                    self@.notes.len(),
                ) && piece@ == PieceView::join(
                    chorded(self@.notes, chords@.map_values(|c: Chord| c@)),
                    self@.notes.len(),
                ),
                Err(_) => !PieceView::join_fits(
                    chorded(self@.notes, chords@.map_values(|c: Chord| c@)),
                    self@.notes.len(),
                ),
            },
    {
        let mut pieces: Vec<Piece> = Vec::new();
        let mut i: usize = 0;
        while i < self.notes.len()
            invariant
                i <= self.notes.len(),
                chords@.len() == self@.notes.len(),
                pieces@.len() == i,
                forall|k: int|
                    0 <= k < i ==> (#[trigger] pieces@[k])@.tracks == voiced_tracks(
                        self@.notes[k],
                        chords@[k]@,
                    ),
            decreases self.notes.len() - i,
        {
            pieces.push(self.notes[i].over_chord(&chords[i]));
            i = i + 1;
        }
        proof {
            assert(pieces@.map_values(|p: Piece| p@) =~= chorded(
                self@.notes,
                chords@.map_values(|c: Chord| c@),
            ));
        }
        Piece::join_all(&pieces)
    }
}

/// The pieces that the notes `notes` give when note `i` is sounded on every
/// pitch of `chords[i]` at once.
pub open spec fn chorded(notes: Seq<Note>, chords: Seq<Seq<NotePitch>>) -> Seq<PieceView> {
    Seq::new(notes.len(), |i: int| PieceView { tracks: voiced_tracks(notes[i], chords[i]) })
}

} // verus!
