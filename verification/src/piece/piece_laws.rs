//! What holds of every join and every layering of pieces.

use vstd::prelude::*;

use crate::piece::line::LineView;
use crate::piece::line_laws::lemma_concat_length;
use crate::piece::timing::{lemma_total_duration_push, total_duration};
use crate::piece::{lemma_longest_bounds, PieceView};

verus! {

/// The length of a track with a rest at its end.
pub proof fn lemma_extend_length(line: LineView, extend_by: u16)
    ensures
        line.extend(extend_by).length() == line.length() + extend_by,
{
    if extend_by != 0 {
        lemma_total_duration_push(
            line.notes,
            line.extend(extend_by).notes[line.notes.len() as int],
        );
        assert(line.extend(extend_by).notes =~= line.notes.push(
            line.extend(extend_by).notes[line.notes.len() as int],
        ));
    }
}

/// The length of each track of a piece followed by another.
///
/// A track that both pieces have is as long as the splice of the two
/// tracks. A track that only the first has is as long as that track and the
/// second piece together. A track that only the second has starts after a
/// rest as long as the first piece, or after its own pickup if that is
/// longer.
pub proof fn lemma_concat_track_length(piece: PieceView, next: PieceView, i: int)
    requires
        piece.concat_fits(next),
        0 <= i < piece.concat_width(next),
    ensures
        i < piece.tracks.len() && i < next.tracks.len() ==> piece.concat(next).tracks[i].length()
            == vstd::math::max(
            piece.tracks[i].length() as int,
            next.tracks[i].pickup_length() as int,
        ) + next.tracks[i].length(),
        i >= next.tracks.len() ==> piece.concat(next).tracks[i].length()
            == piece.tracks[i].length() + next.length(),
        i >= piece.tracks.len() ==> piece.concat(next).tracks[i].length() == vstd::math::max(
            piece.length() as int,
            next.tracks[i].pickup_length() as int,
        ) + next.tracks[i].length(),
{
    assert(piece.concat_track_fits(next, i));
    assert(piece.concat(next).tracks[i] == piece.concat_track(next, i));
    if i < piece.tracks.len() && i < next.tracks.len() {
        lemma_concat_length(piece.tracks[i], next.tracks[i]);
    } else if i < piece.tracks.len() {
        lemma_extend_length(piece.tracks[i], next.length() as u16);
    } else {
        assert(total_duration(LineView::empty().notes) == 0);
        lemma_extend_length(LineView::empty(), piece.length() as u16);
        lemma_concat_length(piece.silence(), next.tracks[i]);
    }
}

/// A track that both pieces have is, after the join, exactly as long as
/// the two pieces together if and only if the two tracks, spliced, are that
/// long: the pickup of the second track counts where it is longer than the
/// first track.
pub proof fn lemma_concat_common_track(piece: PieceView, next: PieceView, i: int)
    requires
        piece.concat_fits(next),
        0 <= i < piece.tracks.len(),
        i < next.tracks.len(),
    ensures
        piece.concat(next).tracks[i].length() == piece.length() + next.length() <==> vstd::math::max(
            piece.tracks[i].length() as int,
            next.tracks[i].pickup_length() as int,
        ) + next.tracks[i].length() == piece.length() + next.length(),
{
    lemma_concat_track_length(piece, next, i);
}

/// Where a track of each piece is as long as its piece, and the pickup of
/// the second is no longer than the first track, the joined track is
/// exactly as long as the two pieces together.
pub proof fn lemma_concat_aligned_track(piece: PieceView, next: PieceView, i: int)
    requires
        piece.concat_fits(next),
        0 <= i < piece.tracks.len(),
        i < next.tracks.len(),
        piece.tracks[i].length() == piece.length(),
        next.tracks[i].length() == next.length(),
        next.tracks[i].pickup_length() <= piece.tracks[i].length(),
    ensures
        piece.concat(next).tracks[i].length() == piece.length() + next.length(),
{
    lemma_concat_track_length(piece, next, i);
}

/// Whether every track of `piece` is as long as the piece.
pub open spec fn is_level(piece: PieceView) -> bool {
    forall|i: int| 0 <= i < piece.tracks.len() ==> (#[trigger] piece.tracks[i]).length()
        == piece.length()
}

/// Where every track of each piece is as long as its piece, and no pickup
/// of the second is longer than the first piece, every track of the join
/// is exactly as long as the two pieces together, whichever of them has
/// more tracks.
pub proof fn lemma_concat_of_level_pieces(piece: PieceView, next: PieceView, i: int)
    requires
        piece.concat_fits(next),
        is_level(piece),
        is_level(next),
        forall|j: int|
            0 <= j < next.tracks.len() ==> (#[trigger] next.tracks[j]).pickup_length()
                <= piece.length(),
        0 <= i < piece.concat_width(next),
    ensures
        piece.concat(next).tracks[i].length() == piece.length() + next.length(),
{
    lemma_concat_track_length(piece, next, i);
    if i < next.tracks.len() {
        assert(next.tracks[i].pickup_length() <= piece.length());
        assert(next.tracks[i].length() == next.length());
    }
    if i < piece.tracks.len() {
        assert(piece.tracks[i].length() == piece.length());
    }
}

/// Layering a line onto a piece leaves every track, the new one included,
/// exactly as long as the longer of piece and line.
pub proof fn lemma_layer_line_lengths(piece: PieceView, line: LineView, i: int)
    requires
        piece.layer_line_fits(line),
        0 <= i <= piece.tracks.len(),
    ensures
        piece.layer_line(line).tracks.len() == piece.tracks.len() + 1,
        piece.layer_line(line).tracks[i].length() == piece.layered_length(line),
{
    let target = piece.layered_length(line);
    lemma_longest_bounds(piece.tracks);
    if i < piece.tracks.len() {
        let track = piece.tracks[i];
        assert(PieceView::pad_fits(track, target));
        assert(piece.layer_line(line).tracks[i] == PieceView::pad(track, target));
        if track.length() < target {
            lemma_extend_length(track, (target - track.length()) as u16);
        }
    } else {
        assert(piece.layer_line(line).tracks[i] == PieceView::pad(line, target));
        if line.length() < target {
            lemma_extend_length(line, (target - line.length()) as u16);
        }
    }
}

/// Layering two pieces changes no track: the tracks of the first come
/// first, then those of the second, each as it was.
pub proof fn lemma_layer_keeps_tracks(piece: PieceView, other: PieceView, i: int)
    requires
        0 <= i < piece.tracks.len() + other.tracks.len(),
    ensures
        piece.layer(other).tracks.len() == piece.tracks.len() + other.tracks.len(),
        i < piece.tracks.len() ==> piece.layer(other).tracks[i] == piece.tracks[i],
        i >= piece.tracks.len() ==> piece.layer(other).tracks[i] == other.tracks[i
            - piece.tracks.len()],
{
}

} // verus!
