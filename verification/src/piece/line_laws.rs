//! What holds of every splice of two lines.

use vstd::prelude::*;

use crate::note::Note;
use crate::piece::line::LineView;
use crate::piece::timing::{
    cut_tail, lemma_cut_tail_duration, lemma_total_duration_concat, lemma_total_duration_push,
    total_duration,
};

verus! {

/// The duration of a sequence is that of its first note plus that of the
/// rest.
pub proof fn lemma_total_duration_first(notes: Seq<Note>)
    requires
        notes.len() > 0,
    ensures
        total_duration(notes) == notes.first().spec_duration() + total_duration(
            notes.drop_first(),
        ),
{
    assert(notes =~= seq![notes.first()] + notes.drop_first());
    lemma_total_duration_concat(seq![notes.first()], notes.drop_first());
    lemma_total_duration_push(Seq::<Note>::empty(), notes.first());
    assert(Seq::<Note>::empty().push(notes.first()) =~= seq![notes.first()]);
}

/// What sounds before the first beat of `next` lasts as long as what is
/// left of `line` and the pickup of `next` together.
pub proof fn lemma_lead_in_duration(line: LineView, next: LineView)
    ensures
        total_duration(line.lead_in(next)) == if next.pickup_length() <= line.length() {
            line.length()
        } else {
            next.pickup_length()
        },
{
    lemma_cut_tail_duration(line.notes, next.pickup_length());
    lemma_total_duration_concat(cut_tail(line.notes, next.pickup_length()), next.pickup);
}

/// The length of a splice: the length of the first line, less what the
/// pickup of the second took off it, plus that pickup, plus the length of
/// the second line.
pub proof fn lemma_concat_length(line: LineView, next: LineView)
    requires
        line.concat_fits(next),
    ensures
        line.concat(next).length() == line.length() - vstd::math::min(
            line.length() as int,
            next.pickup_length() as int,
        ) + next.pickup_length() + next.length(),
{
    let lead = line.lead_in(next);
    lemma_lead_in_duration(line, next);
    if line.ties(next) {
        let tied = line.concat(next).notes[lead.len() - 1];
        lemma_total_duration_first(next.notes);
        lemma_total_duration_push(lead.drop_last(), tied);
        lemma_total_duration_concat(lead.drop_last().push(tied), next.notes.drop_first());
    } else {
        lemma_total_duration_concat(lead, next.notes);
    }
}

/// A line without pickup that ties nothing is simply appended: the notes of
/// the splice are the notes of the first line followed by those of the
/// second, none removed and none shortened.
pub proof fn lemma_concat_without_pickup(line: LineView, next: LineView)
    requires
        next.pickup.len() == 0,
        !(next.hold_pickup && line.notes.len() > 0 && next.notes.len() > 0),
    ensures
        line.concat_fits(next),
        line.concat(next).notes == line.notes + next.notes,
        line.concat(next).pickup == line.pickup,
        line.concat(next).hold_pickup == line.hold_pickup,
{
    assert(line.lead_in(next) =~= line.notes);
}

/// The length of a line played several times in a row. Every seam but the
/// first finds what came before at least as long as the pickup, so from the
/// second time on each repetition adds exactly the length of the line.
pub proof fn lemma_repeat_length(line: LineView, times: nat)
    requires
        times >= 1,
        line.repeat_fits(times),
    ensures
        line.repeat(times).length() == if times == 1 {
            line.length() as int
        } else {
            vstd::math::max(line.length() as int, line.pickup_length() as int) + (times - 1)
                * line.length()
        },
    decreases times,
{
    if times > 1 {
        let before = line.repeat((times - 1) as nat);
        lemma_repeat_length(line, (times - 1) as nat);
        lemma_concat_length(before, line);
        assert((times - 1) * line.length() == (times - 2) * line.length() + line.length())
            by (nonlinear_arith);
    }
}

/// A line whose pickup is no longer than the line itself, played `times`
/// times in a row, is `times` times as long as the line.
pub proof fn lemma_repeat_length_short_pickup(line: LineView, times: nat)
    requires
        times >= 1,
        line.repeat_fits(times),
        line.pickup_length() <= line.length(),
    ensures
        line.repeat(times).length() == times * line.length(),
{
    lemma_repeat_length(line, times);
    assert(line.length() + (times - 1) * line.length() == times * line.length())
        by (nonlinear_arith);
}

} // verus!
