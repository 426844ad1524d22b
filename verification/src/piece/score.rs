//! The score: a piece drawn as text, a piano roll above a drum grid.
//!
//! Time runs from left to right, one character for each time unit, 64 to a
//! group and a barline after every 16. Each row of the piano roll is a key;
//! each row of the drum grid is a drum. A note is drawn where it starts and,
//! with another character, for as long as it sounds.

use vstd::prelude::*;

use crate::note::drums::{DrumKind, DrumRanges};
use crate::note::timbre::Timbre;
use crate::note::{Note, NoteKind};
use crate::piece::line::LineView;
use crate::piece::timing::{index_sounding_at, index_starting_at};
use crate::piece::{longest, Piece};
use crate::play::capped;
use crate::scales::tet12::{pitch_class_name, push_pitch_class_name};
use crate::text::{push_signed_decimal, signed_decimal, string_of};

verus! {

/// The number of time units in a group of bars.
pub const GROUP_WIDTH: usize = 64;

/// The number of time units in a bar.
pub const BAR_WIDTH: usize = 16;

/// The number of characters in a border, before its corner.
pub const BORDER_WIDTH: usize = 74;

/// The width to which the name of a key is filled up.
pub const KEY_LABEL_WIDTH: usize = 3;

/// The width to which the name of a drum is filled up.
pub const DRUM_LABEL_WIDTH: usize = 6;

/// The character of a cell in which a note starts.
pub const ONSET: char = '■';

/// The character of a cell in which a note goes on sounding.
pub const SUSTAIN: char = '≡';

/// The blank cell on the row of a white key.
pub const SHADE: char = '░';

/// The line that frames the grid on either side.
pub const FRAME: char = '║';

/// The line of which a border is made.
pub const BORDER: char = '═';

/// The face of a white key.
pub const WHITE_KEY: char = '█';

/// Where a pitch lies on the keyboard.
#[derive(Clone, Copy, Debug, PartialEq, Eq)]
pub struct Placement {
    /// The number of whole semitones from middle C to the pitch, negative
    /// below middle C.
    pub semitone: i16,
    /// The lowest key that the pitch is close enough to be drawn on,
    /// counted in semitones from middle C.
    pub lowest_row: i16,
    /// The highest such key; lower than `lowest_row` if there is none.
    pub highest_row: i16,
}

/// A row of the score.
#[derive(Clone, Copy, Debug, PartialEq, Eq)]
pub enum Row {
    /// The row of the key so many semitones above middle C.
    Key(i32),
    /// The row of a drum.
    Drum(DrumKind),
}

/// The placement given for note `index` of track `track`, if one is given.
pub open spec fn placement_at(placements: Seq<Vec<Placement>>, track: int, index: int) -> Option<
    Placement,
> {
    if 0 <= track < placements.len() && 0 <= index < placements[track]@.len() {
        Some(placements[track]@[index])
    } else {
        None
    }
}

/// Whether `note`, placed at `place`, is drawn on `row`. A rest is drawn
/// nowhere. A note of the drum kit is drawn on the row of the drum that its
/// pitch stands for. Any other note is drawn on the keys that it is placed
/// on.
pub open spec fn shows_on(note: Note, place: Option<Placement>, row: Row, ranges: DrumRanges) -> bool {
    match note.1 {
        NoteKind::Rest => false,
        NoteKind::Pitched { pitch, timbre, volume: _ } => match row {
            Row::Key(semitone) => !(timbre is Drums) && match place {
                Some(p) => p.lowest_row <= semitone && semitone <= p.highest_row,
                None => false,
            },
            Row::Drum(kind) => timbre is Drums && kind.spec_draws(pitch, ranges),
        },
    }
}

/// Whether a note that is drawn on `row` starts in track `i` at time `t`.
pub open spec fn track_starts_on(
    tracks: Seq<LineView>,
    placements: Seq<Vec<Placement>>,
    ranges: DrumRanges,
    i: int,
    t: nat,
    row: Row,
) -> bool {
    match index_starting_at(tracks[i].notes, t) {
        Some(j) => shows_on(tracks[i].notes[j], placement_at(placements, i, j), row, ranges),
        None => false,
    }
}

/// Whether a note that is drawn on `row` sounds in track `i` at time `t`.
pub open spec fn track_sounds_on(
    tracks: Seq<LineView>,
    placements: Seq<Vec<Placement>>,
    ranges: DrumRanges,
    i: int,
    t: nat,
    row: Row,
) -> bool {
    match index_sounding_at(tracks[i].notes, t) {
        Some(j) => shows_on(tracks[i].notes[j], placement_at(placements, i, j), row, ranges),
        None => false,
    }
}

/// The cell of `row` at time `t`: the mark of an onset if a note drawn on
/// the row starts then in some track, else the mark of a sustained note if
/// one sounds then, else `blank`.
pub open spec fn cell(
    tracks: Seq<LineView>,
    placements: Seq<Vec<Placement>>,
    ranges: DrumRanges,
    t: nat,
    row: Row,
    blank: char,
) -> char {
    if exists|i: int|
        0 <= i < tracks.len() && #[trigger] track_starts_on(tracks, placements, ranges, i, t, row) {
        ONSET
    } else if exists|i: int|
        0 <= i < tracks.len() && #[trigger] track_sounds_on(tracks, placements, ranges, i, t, row) {
        SUSTAIN
    } else {
        blank
    }
}

/// The first `upto` cells of `row` from time `from` on, with a barline
/// before every sixteenth cell but the first.
pub open spec fn bar_cells(
    tracks: Seq<LineView>,
    placements: Seq<Vec<Placement>>,
    ranges: DrumRanges,
    from: nat,
    row: Row,
    blank: char,
    upto: int,
) -> Seq<char>
    decreases upto,
{
    if upto <= 0 {
        Seq::empty()
    } else {
        bar_cells(tracks, placements, ranges, from, row, blank, upto - 1) + if upto - 1 > 0 && (upto
            - 1) % 16 == 0 {
            seq!['|']
        } else {
            Seq::<char>::empty()
        } + seq![cell(tracks, placements, ranges, (from + upto - 1) as nat, row, blank)]
    }
}

/// The text `text`, filled up with spaces at its end to `width` characters;
/// unchanged if it is that long already.
pub open spec fn padded(text: Seq<char>, width: int) -> Seq<char> {
    if text.len() >= width {
        text
    } else {
        text + Seq::new((width - text.len()) as nat, |i: int| ' ')
    }
}

/// Whether the key `semitone` semitones above middle C is a black key.
pub open spec fn is_black_key(semitone: int) -> bool {
    let class = semitone % 12;
    class == 1 || class == 3 || class == 6 || class == 8 || class == 10
}

/// Whether the key `semitone` semitones above middle C is an open string of
/// a guitar in its usual tuning.
pub open spec fn is_open_string(semitone: int) -> bool {
    semitone == 4 || semitone == -1 || semitone == -5 || semitone == -10 || semitone == -15
        || semitone == -20
}

/// The name of the key `semitone` semitones above middle C, with the
/// number of its octave.
pub open spec fn key_name(semitone: int) -> Seq<char> {
    pitch_class_name(semitone % 12) + signed_decimal(semitone / 12 + 4)
}

/// The row of the key `semitone` semitones above middle C in group
/// `group`: a mark for an open string, the name of the key, the key
/// itself, the cells, and the frame.
pub open spec fn key_row(
    tracks: Seq<LineView>,
    placements: Seq<Vec<Placement>>,
    ranges: DrumRanges,
    group: nat,
    semitone: int,
) -> Seq<char> {
    seq![if is_open_string(semitone) { '!' } else { ' ' }] + padded(key_name(semitone), 3) + seq![
        FRAME,
        if is_black_key(semitone) { ' ' } else { WHITE_KEY },
        FRAME,
    ] + bar_cells(
        tracks,
        placements,
        ranges,
        64 * group,
        Row::Key(semitone as i32),
        if is_black_key(semitone) { ' ' } else { SHADE },
        64,
    ) + seq![FRAME, '\n']
}

/// The rows of the keys from `highest` down to `lowest`, the highest
/// first.
pub open spec fn key_rows(
    tracks: Seq<LineView>,
    placements: Seq<Vec<Placement>>,
    ranges: DrumRanges,
    group: nat,
    lowest: int,
    highest: int,
) -> Seq<char>
    decreases highest - lowest + 1,
{
    if highest < lowest {
        Seq::empty()
    } else {
        key_row(tracks, placements, ranges, group, highest) + key_rows(
            tracks,
            placements,
            ranges,
            group,
            lowest,
            highest - 1,
        )
    }
}

/// The row of the drum `kind` in group `group`: its name, the cells, and
/// the frame.
pub open spec fn drum_row(
    tracks: Seq<LineView>,
    placements: Seq<Vec<Placement>>,
    ranges: DrumRanges,
    group: nat,
    kind: DrumKind,
) -> Seq<char> {
    padded(kind.spec_name(), 6) + seq![FRAME] + bar_cells(
        tracks,
        placements,
        ranges,
        64 * group,
        Row::Drum(kind),
        ' ',
        64,
    ) + seq![FRAME, '\n']
}

/// A border that ends in `corner`.
pub open spec fn border(corner: char) -> Seq<char> {
    Seq::new(74, |i: int| BORDER) + seq![corner, '\n']
}

/// The range of keys after a note at `semitone` is taken in, as a pair of
/// the highest and the lowest. A note above the highest raises it; any
/// other note below the lowest lowers that.
pub open spec fn widened(range: (i16, i16), semitone: i16) -> (i16, i16) {
    if range.0 < semitone {
        (semitone, range.1)
    } else if range.1 > semitone {
        (range.0, semitone)
    } else {
        range
    }
}

/// The semitone at which the note that sounds in track `i` at time `t` is
/// placed, if a pitched note sounds there and has a placement.
pub open spec fn track_semitone(
    tracks: Seq<LineView>,
    placements: Seq<Vec<Placement>>,
    i: int,
    t: nat,
) -> Option<i16> {
    match index_sounding_at(tracks[i].notes, t) {
        Some(j) => match tracks[i].notes[j].1 {
            NoteKind::Rest => None,
            NoteKind::Pitched { .. } => match placement_at(placements, i, j) {
                Some(p) => Some(p.semitone),
                None => None,
            },
        },
        None => None,
    }
}

/// The range `range` after the notes that sound at time `t` in the first
/// `upto` tracks are taken in, track by track.
pub open spec fn range_at(
    tracks: Seq<LineView>,
    placements: Seq<Vec<Placement>>,
    t: nat,
    upto: int,
    range: (i16, i16),
) -> (i16, i16)
    decreases upto,
{
    if upto <= 0 {
        range
    } else {
        let before = range_at(tracks, placements, t, upto - 1, range);
        match track_semitone(tracks, placements, upto - 1, t) {
            Some(semitone) => widened(before, semitone),
            None => before,
        }
    }
}

/// The range `range` after the notes that sound at the `count` times from
/// `from` on are taken in, time by time.
pub open spec fn range_over(
    tracks: Seq<LineView>,
    placements: Seq<Vec<Placement>>,
    from: nat,
    count: int,
    range: (i16, i16),
) -> (i16, i16)
    decreases count,
{
    if count <= 0 {
        range
    } else {
        range_at(
            tracks,
            placements,
            (from + count - 1) as nat,
            tracks.len() as int,
            range_over(tracks, placements, from, count - 1, range),
        )
    }
}

/// The range of keys of group `group`, as a pair of the highest and the
/// lowest: where the notes that sound in the group lie. With no note the
/// highest is below the lowest.
pub open spec fn group_range(
    tracks: Seq<LineView>,
    placements: Seq<Vec<Placement>>,
    group: nat,
) -> (i16, i16) {
    range_over(tracks, placements, 64 * group, 64, (i16::MIN, i16::MAX))
}

/// The text of group `group`: the piano roll from two keys above the
/// highest note down to two keys below the lowest, then the drum grid,
/// between borders.
pub open spec fn group_text(
    tracks: Seq<LineView>,
    placements: Seq<Vec<Placement>>,
    ranges: DrumRanges,
    group: nat,
) -> Seq<char> {
    let range = group_range(tracks, placements, group);
    border('╗') + key_rows(tracks, placements, ranges, group, range.1 - 2, range.0 + 2) + border(
        '╣',
    ) + drum_row(tracks, placements, ranges, group, DrumKind::Crash) + drum_row(
        tracks,
        placements,
        ranges,
        group,
        DrumKind::HiHat,
    ) + drum_row(tracks, placements, ranges, group, DrumKind::Snare) + drum_row(
        tracks,
        placements,
        ranges,
        group,
        DrumKind::Kick,
    ) + border('╝') + seq!['\n', '\n']
}

/// The text of the first `upto` groups, one below the other.
pub open spec fn groups_text(
    tracks: Seq<LineView>,
    placements: Seq<Vec<Placement>>,
    ranges: DrumRanges,
    upto: int,
) -> Seq<char>
    decreases upto,
{
    if upto <= 0 {
        Seq::empty()
    } else {
        groups_text(tracks, placements, ranges, upto - 1) + group_text(
            tracks,
            placements,
            ranges,
            (upto - 1) as nat,
        )
    }
}

/// The number of groups that a piece of the length `length` fills: one for
/// every 64 time units, the last of them perhaps not full.
pub open spec fn group_count(length: nat) -> nat {
    (length + 63) / 64
}

/// The score of a piece: its groups, one below the other.
pub open spec fn score_text(
    tracks: Seq<LineView>,
    placements: Seq<Vec<Placement>>,
    ranges: DrumRanges,
) -> Seq<char> {
    groups_text(tracks, placements, ranges, group_count(capped(longest(tracks)) as nat) as int)
}

/// The placement given for note `index` of track `track`, if one is given.
pub fn placement(placements: &Vec<Vec<Placement>>, track: usize, index: usize) -> (place: Option<
    Placement,
>)
    ensures
        place == placement_at(placements@, track as int, index as int),
{
    if track < placements.len() {
        let of_track = &placements[track];
        if index < of_track.len() {
            Some(of_track[index])
        } else {
            None
        }
    } else {
        None
    }
}

/// Whether `note`, placed at `place`, is drawn on `row`.
pub fn is_shown_on(note: Note, place: Option<Placement>, row: Row, ranges: &DrumRanges) -> (shown:
    bool)
    ensures
        shown == shows_on(note, place, row, *ranges),
{
    match note.1 {
        NoteKind::Rest => false,
        NoteKind::Pitched { pitch, timbre, volume: _ } => {
            let is_drum: bool = match timbre {
                Timbre::Drums => true,
                _ => false,
            };
            match row {
                Row::Key(semitone) => !is_drum && match place {
                    Some(p) => p.lowest_row as i32 <= semitone && semitone <= p.highest_row as i32,
                    None => false,
                },
                Row::Drum(kind) => is_drum && kind.draws(pitch, ranges),
            }
        },
    }
}

impl Piece {
    /// Whether a note that is drawn on `row` starts at time `time` in some
    /// track, or, with `sustained`, sounds then.
    fn any_on_row(
        &self,
        placements: &Vec<Vec<Placement>>,
        ranges: &DrumRanges,
        time: u128,
        row: Row,
        sustained: bool,
    ) -> (found: bool)
        ensures
            !sustained ==> found == exists|i: int|
                0 <= i < self@.tracks.len() && #[trigger] track_starts_on(
                    self@.tracks,
                    placements@,
                    *ranges,
                    i,
                    time as nat,
                    row,
                ),
            sustained ==> found == exists|i: int|
                0 <= i < self@.tracks.len() && #[trigger] track_sounds_on(
                    self@.tracks,
                    placements@,
                    *ranges,
                    i,
                    time as nat,
                    row,
                ),
    {
        let mut i: usize = 0;
        while i < self.0.len()
            invariant
                i <= self.0.len(),
                !sustained ==> forall|k: int|
                    0 <= k < i ==> !#[trigger] track_starts_on(
                        self@.tracks,
                        placements@,
                        *ranges,
                        k,
                        time as nat,
                        row,
                    ),
                sustained ==> forall|k: int|
                    0 <= k < i ==> !#[trigger] track_sounds_on(
                        self@.tracks,
                        placements@,
                        *ranges,
                        k,
                        time as nat,
                        row,
                    ),
            decreases self.0.len() - i,
        {
            let track = &self.0[i];
            assert(self@.tracks[i as int].notes == track.notes@);
            let at: Option<usize> = if sustained {
                track.index_during_time(time)
            } else {
                track.index_at_time(time)
            };
            let shown: bool = match at {
                Some(j) => is_shown_on(track.notes[j], placement(placements, i, j), row, ranges),
                None => false,
            };
            if shown {
                proof {
                    if sustained {
                        assert(track_sounds_on(
                            self@.tracks,
                            placements@,
                            *ranges,
                            i as int,
                            time as nat,
                            row,
                        ));
                    } else {
                        assert(track_starts_on(
                            self@.tracks,
                            placements@,
                            *ranges,
                            i as int,
                            time as nat,
                            row,
                        ));
                    }
                }
                return true;
            }
            i = i + 1;
        }
        false
    }

    /// The cell of `row` at time `time`.
    fn cell_at(
        &self,
        placements: &Vec<Vec<Placement>>,
        ranges: &DrumRanges,
        time: u128,
        row: Row,
        blank: char,
    ) -> (mark: char)
        ensures
            mark == cell(self@.tracks, placements@, *ranges, time as nat, row, blank),
    {
        if self.any_on_row(placements, ranges, time, row, false) {
            ONSET
        } else if self.any_on_row(placements, ranges, time, row, true) {
            SUSTAIN
        } else {
            blank
        }
    }

    /// Appends the 64 cells of `row` in group `group` to `text`, with their
    /// barlines.
    fn push_bar_cells(
        &self,
        text: &mut Vec<char>,
        placements: &Vec<Vec<Placement>>,
        ranges: &DrumRanges,
        group: usize,
        row: Row,
        blank: char,
    )
        ensures
            final(text)@ == old(text)@ + bar_cells(
                self@.tracks,
                placements@,
                *ranges,
                (64 * group) as nat,
                row,
                blank,
                64,
            ),
    {
        let from: u128 = 64 * (group as u128);
        let mut t: usize = 0;
        proof {
            assert(text@ =~= old(text)@ + bar_cells(
                self@.tracks,
                placements@,
                *ranges,
                from as nat,
                row,
                blank,
                0,
            ));
        }
        while t < GROUP_WIDTH
            invariant
                t <= 64,
                from == 64 * group,
                text@ == old(text)@ + bar_cells(
                    self@.tracks,
                    placements@,
                    *ranges,
                    from as nat,
                    row,
                    blank,
                    t as int,
                ),
            decreases 64 - t,
        {
            let ghost before = text@;
            if t > 0 && t % BAR_WIDTH == 0 {
                text.push('|');
            }
            let mark: char = self.cell_at(placements, ranges, from + t as u128, row, blank);
            text.push(mark);
            proof {
                let bar = if t > 0 && t % 16 == 0 {
                    seq!['|']
                } else {
                    Seq::<char>::empty()
                };
                assert(text@ =~= before + bar + seq![mark]);
                assert(text@ =~= old(text)@ + bar_cells(
                    self@.tracks,
                    placements@,
                    *ranges,
                    from as nat,
                    row,
                    blank,
                    t + 1,
                ));
            }
            t = t + 1;
        }
    }
}

/// Appends spaces to `text` until what was appended since it was `start`
/// long is `width` long.
fn pad_from(text: &mut Vec<char>, start: usize, width: usize)
    requires
        start <= old(text)@.len(),
    ensures
        final(text)@ == old(text)@.take(start as int) + padded(
            old(text)@.skip(start as int),
            width as int,
        ),
{
    let ghost head = text@.take(start as int);
    let ghost body = text@.skip(start as int);
    assert(text@ =~= head + body);
    let have: usize = text.len() - start;
    if have < width {
        let mut i: usize = have;
        while i < width
            invariant
                have <= i <= width,
                have == body.len(),
                text@ == head + body + Seq::new((i - have) as nat, |k: int| ' '),
            decreases width - i,
        {
            text.push(' ');
            proof {
                assert(text@ =~= head + body + Seq::new((i + 1 - have) as nat, |k: int| ' '));
            }
            i = i + 1;
        }
        proof {
            assert(text@ =~= head + padded(body, width as int));
        }
    }
}

/// Appends to `text` a border that ends in `corner`.
fn push_border(text: &mut Vec<char>, corner: char)
    ensures
        final(text)@ == old(text)@ + border(corner),
{
    let mut i: usize = 0;
    while i < BORDER_WIDTH
        invariant
            i <= 74,
            text@ == old(text)@ + Seq::new(i as nat, |k: int| BORDER),
        decreases 74 - i,
    {
        text.push(BORDER);
        proof {
            assert(text@ =~= old(text)@ + Seq::new((i + 1) as nat, |k: int| BORDER));
        }
        i = i + 1;
    }
    text.push(corner);
    text.push('\n');
    proof {
        assert(text@ =~= old(text)@ + border(corner));
    }
}

/// Appends to `text` the name of the key `semitone` semitones above middle
/// C, with the number of its octave.
fn push_key_name(text: &mut Vec<char>, semitone: i32)
    requires
        -32772 <= semitone <= 32772,
    ensures
        final(text)@ == old(text)@ + key_name(semitone as int),
{
    // 32772 is a multiple of 12, 2731 times 12, that lifts every key above
    // zero.
    let lifted: i32 = semitone + 32772;
    let class: u8 = (lifted % 12) as u8;
    let octave: i32 = lifted / 12 - 2731;
    proof {
        vstd::arithmetic::div_mod::lemma_fundamental_div_mod(lifted as int, 12);
        vstd::arithmetic::div_mod::lemma_fundamental_div_mod_converse(
            semitone as int,
            12,
            octave as int,
            class as int,
        );
    }
    push_pitch_class_name(text, class);
    push_signed_decimal(text, octave + 4);
    proof {
        assert(text@ =~= old(text)@ + key_name(semitone as int));
    }
}

/// Whether the key `semitone` semitones above middle C is a black key.
fn black_key(semitone: i32) -> (black: bool)
    requires
        -32772 <= semitone <= 32772,
    ensures
        black == is_black_key(semitone as int),
{
    let lifted: i32 = semitone + 32772;
    let class: i32 = lifted % 12;
    proof {
        vstd::arithmetic::div_mod::lemma_mod_multiples_vanish(2731, semitone as int, 12);
    }
    class == 1 || class == 3 || class == 6 || class == 8 || class == 10
}

impl Piece {
    /// Appends to `text` the row of the key `semitone` semitones above
    /// middle C in group `group`.
    fn push_key_row(
        &self,
        text: &mut Vec<char>,
        placements: &Vec<Vec<Placement>>,
        ranges: &DrumRanges,
        group: usize,
        semitone: i32,
    )
        requires
            -32772 <= semitone <= 32772,
        ensures
            final(text)@ == old(text)@ + key_row(
                self@.tracks,
                placements@,
                *ranges,
                group as nat,
                semitone as int,
            ),
    {
        let open_string: bool = semitone == 4 || semitone == -1 || semitone == -5 || semitone
            == -10 || semitone == -15 || semitone == -20;
        let black: bool = black_key(semitone);
        text.push(if open_string { '!' } else { ' ' });
        let ghost marked = text@;
        let start: usize = text.len();
        push_key_name(text, semitone);
        proof {
            assert(text@.take(start as int) =~= marked);
            assert(text@.skip(start as int) =~= key_name(semitone as int));
        }
        pad_from(text, start, KEY_LABEL_WIDTH);
        text.push(FRAME);
        text.push(if black { ' ' } else { WHITE_KEY });
        text.push(FRAME);
        let ghost labelled = text@;
        self.push_bar_cells(
            text,
            placements,
            ranges,
            group,
            Row::Key(semitone),
            if black { ' ' } else { SHADE },
        );
        text.push(FRAME);
        text.push('\n');
        proof {
            assert(labelled =~= old(text)@ + seq![if is_open_string(semitone as int) { '!' } else { ' ' }]
                + padded(key_name(semitone as int), 3) + seq![
                FRAME,
                if is_black_key(semitone as int) { ' ' } else { WHITE_KEY },
                FRAME,
            ]);
            assert(text@ =~= old(text)@ + key_row(
                self@.tracks,
                placements@,
                *ranges,
                group as nat,
                semitone as int,
            ));
        }
    }

    /// Appends to `text` the row of the drum `kind` in group `group`.
    fn push_drum_row(
        &self,
        text: &mut Vec<char>,
        placements: &Vec<Vec<Placement>>,
        ranges: &DrumRanges,
        group: usize,
        kind: DrumKind,
    )
        ensures
            final(text)@ == old(text)@ + drum_row(
                self@.tracks,
                placements@,
                *ranges,
                group as nat,
                kind,
            ),
    {
        let start: usize = text.len();
        match kind {
            DrumKind::Crash => {
                text.push('c');
                text.push('r');
                text.push('a');
                text.push('s');
                text.push('h');
            },
            DrumKind::HiHat => {
                text.push('h');
                text.push('i');
                text.push('-');
                text.push('h');
                text.push('a');
                text.push('t');
            },
            DrumKind::Snare => {
                text.push('s');
                text.push('n');
                text.push('a');
                text.push('r');
                text.push('e');
            },
            DrumKind::Kick => {
                text.push('k');
                text.push('i');
                text.push('c');
                text.push('k');
            },
        }
        proof {
            assert(text@.take(start as int) =~= old(text)@);
            assert(text@.skip(start as int) =~= kind.spec_name());
        }
        pad_from(text, start, DRUM_LABEL_WIDTH);
        text.push(FRAME);
        let ghost labelled = text@;
        self.push_bar_cells(text, placements, ranges, group, Row::Drum(kind), ' ');
        text.push(FRAME);
        text.push('\n');
        proof {
            assert(labelled =~= old(text)@ + padded(kind.spec_name(), 6) + seq![FRAME]);
            assert(text@ =~= old(text)@ + drum_row(
                self@.tracks,
                placements@,
                *ranges,
                group as nat,
                kind,
            ));
        }
    }

    /// The range of keys of group `group`, as a pair of the highest and the
    /// lowest.
    fn range_of_group(&self, placements: &Vec<Vec<Placement>>, group: usize) -> (range: (i16, i16))
        ensures
            range == group_range(self@.tracks, placements@, group as nat),
    {
        let from: u128 = 64 * (group as u128);
        let mut range: (i16, i16) = (i16::MIN, i16::MAX);
        let mut t: usize = 0;
        while t < GROUP_WIDTH
            invariant
                t <= 64,
                from == 64 * group,
                range == range_over(
                    self@.tracks,
                    placements@,
                    from as nat,
                    t as int,
                    (i16::MIN, i16::MAX),
                ),
            decreases 64 - t,
        {
            let ghost before = range;
            let time: u128 = from + t as u128;
            let mut i: usize = 0;
            while i < self.0.len()
                invariant
                    i <= self.0.len(),
                    time == from + t,
                    range == range_at(self@.tracks, placements@, time as nat, i as int, before),
                decreases self.0.len() - i,
            {
                let track = &self.0[i];
                assert(self@.tracks[i as int].notes == track.notes@);
                match track.index_during_time(time) {
                    Some(j) => match track.notes[j].1 {
                        NoteKind::Rest => {},
                        NoteKind::Pitched { .. } => match placement(placements, i, j) {
                            Some(p) => {
                                if range.0 < p.semitone {
                                    range = (p.semitone, range.1);
                                } else if range.1 > p.semitone {
                                    range = (range.0, p.semitone);
                                }
                            },
                            None => {},
                        },
                    },
                    None => {},
                }
                i = i + 1;
            }
            assert(self.0@.len() == self@.tracks.len());
            t = t + 1;
        }
        range
    }

    /// Appends to `text` the text of group `group`.
    fn push_group(
        &self,
        text: &mut Vec<char>,
        placements: &Vec<Vec<Placement>>,
        ranges: &DrumRanges,
        group: usize,
    )
        ensures
            final(text)@ == old(text)@ + group_text(
                self@.tracks,
                placements@,
                *ranges,
                group as nat,
            ),
    {
        let range: (i16, i16) = self.range_of_group(placements, group);
        let lowest: i32 = range.1 as i32 - 2;
        let highest: i32 = range.0 as i32 + 2;
        push_border(text, '╗');
        let ghost top = text@;
        let mut semitone: i32 = highest;
        while semitone >= lowest
            invariant
                -32770 <= lowest,
                highest <= 32769,
                semitone <= highest,
                text@ + key_rows(
                    self@.tracks,
                    placements@,
                    *ranges,
                    group as nat,
                    lowest as int,
                    semitone as int,
                ) == top + key_rows(
                    self@.tracks,
                    placements@,
                    *ranges,
                    group as nat,
                    lowest as int,
                    highest as int,
                ),
            decreases semitone - lowest + 1,
        {
            let ghost before = text@;
            self.push_key_row(text, placements, ranges, group, semitone);
            proof {
                let row = key_row(
                    self@.tracks,
                    placements@,
                    *ranges,
                    group as nat,
                    semitone as int,
                );
                let below = key_rows(
                    self@.tracks,
                    placements@,
                    *ranges,
                    group as nat,
                    lowest as int,
                    semitone - 1,
                );
                assert(text@ + below =~= before + (row + below));
            }
            semitone = semitone - 1;
        }
        proof {
            assert(text@ =~= top + key_rows(
                self@.tracks,
                placements@,
                *ranges,
                group as nat,
                lowest as int,
                highest as int,
            ));
        }
        push_border(text, '╣');
        self.push_drum_row(text, placements, ranges, group, DrumKind::Crash);
        self.push_drum_row(text, placements, ranges, group, DrumKind::HiHat);
        self.push_drum_row(text, placements, ranges, group, DrumKind::Snare);
        self.push_drum_row(text, placements, ranges, group, DrumKind::Kick);
        push_border(text, '╝');
        text.push('\n');
        text.push('\n');
        proof {
            assert(text@ =~= old(text)@ + group_text(
                self@.tracks,
                placements@,
                *ranges,
                group as nat,
            ));
        }
    }

    /// The score of this piece: a piano roll above a drum grid, 64 time
    /// units to a group, the groups one below the other.
    ///
    /// `placements` says where each note lies on the keyboard: the
    /// placement of note `j` of track `i` is `placements[i][j]`. A note
    /// without a placement is drawn on no key. `ranges` says which drum a
    /// pitch stands for.
    pub fn score(&self, placements: &Vec<Vec<Placement>>, ranges: &DrumRanges) -> (text: String)
        ensures
            text@ == score_text(self@.tracks, placements@, *ranges),
    {
        let length: usize = self.length();
        let groups: usize = length / GROUP_WIDTH + if length % GROUP_WIDTH == 0 {
            0
        } else {
            1
        };
        assert(groups == group_count(length as nat));
        let mut text: Vec<char> = Vec::new();
        let mut group: usize = 0;
        proof {
            assert(text@ =~= groups_text(self@.tracks, placements@, *ranges, 0));
        }
        while group < groups
            invariant
                group <= groups,
                text@ == groups_text(self@.tracks, placements@, *ranges, group as int),
            decreases groups - group,
        {
            self.push_group(&mut text, placements, ranges, group);
            group = group + 1;
        }
        string_of(&text)
    }
}

} // verus!
