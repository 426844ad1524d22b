//! Rendering to samples: what is computed in whole numbers on the way from
//! a piece to a file. When each note sounds and for how many samples, how
//! many channels there are and which of them a source channel feeds, where
//! its samples land in the output, and the order in which the channels are
//! written.

use vstd::prelude::*;

use crate::note::timbre::Timbre;
use crate::note::{Note, NoteKind, NotePitch};
use crate::piece::line::LineView;
use crate::piece::timing::lemma_index_starting_at;
use crate::piece::{longest, onsets_at};
use crate::play::{capped, spec_beat_duration_ms, FileOutputConfig, MusicPlayer, Playable};

verus! {

/// The number of milliseconds in a second.
pub const MS_PER_SECOND: u64 = 1000;

/// The product of two numbers, or the largest number there is where the
/// product is larger.
pub open spec fn saturating_product(a: u64, b: u64) -> u64 {
    if a * b > u64::MAX {
        u64::MAX
    } else {
        (a * b) as u64
    }
}

/// The time in milliseconds that `units` time units take when one takes
/// `beat_ms`.
pub open spec fn spec_span_ms(units: u64, beat_ms: u64) -> u64 {
    saturating_product(units, beat_ms)
}

/// The number of samples in `ms` milliseconds at `sample_rate`: the rate
/// times the time, divided by 1000 and rounded down.
pub open spec fn spec_sample_count(sample_rate: u32, ms: u64) -> usize {
    capped((saturating_product(sample_rate as u64, ms) / MS_PER_SECOND) as nat)
}

/// The product of two numbers, or `u64::MAX` where the product is larger.
pub fn saturating_mul(a: u64, b: u64) -> (product: u64)
    ensures
        product == saturating_product(a, b),
{
    match a.checked_mul(b) {
        Some(product) => product,
        None => u64::MAX,
    }
}

/// The time in milliseconds that `units` time units take when one takes
/// `beat_ms`.
pub fn span_ms(units: usize, beat_ms: u64) -> (ms: u64)
    ensures
        ms == spec_span_ms(units as u64, beat_ms),
{
    saturating_mul(units as u64, beat_ms)
}

/// The number of samples in `ms` milliseconds at `sample_rate`.
pub fn sample_count(sample_rate: u32, ms: u64) -> (count: usize)
    ensures
        count == spec_sample_count(sample_rate, ms),
{
    let exact: u64 = saturating_mul(sample_rate as u64, ms) / MS_PER_SECOND;
    if exact > usize::MAX as u64 {
        usize::MAX
    } else {
        exact as usize
    }
}

/// The number of bits in a sample of the output.
pub const BITS_PER_SAMPLE: u16 = 16;

/// The format of the output: signed whole-number samples, the channels
/// taking turns.
#[derive(Clone, Copy, Debug, PartialEq, Eq)]
pub struct WavFormat {
    /// The number of channels.
    pub channels: u16,
    /// The number of samples of each channel in a second.
    pub sample_rate: u32,
    /// The number of bits in a sample.
    pub bits_per_sample: u16,
}

/// One pitched note of a piece, placed in the output.
#[derive(Clone, Copy, Debug, PartialEq, Eq)]
pub struct Voice {
    /// The index of the first output sample of the note.
    pub start_sample: usize,
    /// The number of output samples that the note lasts.
    pub samples: usize,
    /// The time in milliseconds that the note lasts.
    pub duration_ms: u64,
    /// The pitch of the note.
    pub pitch: NotePitch,
    /// The voice in which it sounds.
    pub timbre: Timbre,
    /// The bit pattern of its volume.
    pub volume: u32,
}

/// What is to be rendered: how long the output is, and the notes that
/// sound in it.
#[derive(Clone, Debug, PartialEq, Eq)]
pub struct RenderPlan {
    /// The number of samples in each channel of the output.
    pub total_samples: usize,
    /// The pitched notes in the order in which they are mixed: by the time
    /// at which they start, and by track among those that start together.
    pub voices: Vec<Voice>,
}

/// The voice for `note` where it starts at time `instant`, or nothing for
/// a rest.
pub open spec fn voice_of(note: Note, instant: usize, beat_ms: u64, sample_rate: u32) -> Option<
    Voice,
> {
    match note.1 {
        NoteKind::Rest => None,
        NoteKind::Pitched { pitch, timbre, volume } => Some(
            Voice {
                start_sample: spec_sample_count(sample_rate, spec_span_ms(instant as u64, beat_ms)),
                samples: spec_sample_count(sample_rate, spec_span_ms(note.0.0 as u64, beat_ms)),
                duration_ms: spec_span_ms(note.0.0 as u64, beat_ms),
                pitch,
                timbre,
                volume,
            },
        ),
    }
}

/// The voices for those of `notes` that are pitched, in order, where all
/// of them start at time `instant`.
pub open spec fn voices_of(notes: Seq<Note>, instant: usize, beat_ms: u64, sample_rate: u32) -> Seq<
    Voice,
>
    decreases notes.len(),
{
    if notes.len() == 0 {
        Seq::empty()
    } else {
        voices_of(notes.drop_last(), instant, beat_ms, sample_rate) + match voice_of(
            notes.last(),
            instant,
            beat_ms,
            sample_rate,
        ) {
            Some(voice) => seq![voice],
            None => Seq::empty(),
        }
    }
}

/// The voices for the pitched notes of `tracks` that start before the time
/// `until`, by the time at which they start and by track among those that
/// start together.
pub open spec fn schedule(tracks: Seq<LineView>, until: nat, beat_ms: u64, sample_rate: u32) -> Seq<
    Voice,
>
    decreases until,
{
    if until == 0 {
        Seq::empty()
    } else {
        schedule(tracks, (until - 1) as nat, beat_ms, sample_rate) + voices_of(
            onsets_at(tracks, (until - 1) as nat),
            (until - 1) as usize,
            beat_ms,
            sample_rate,
        )
    }
}

impl MusicPlayer<FileOutputConfig> {
    /// The format of an output of `channels` channels: 16 bits to the
    /// sample, at this player's sample rate.
    pub fn wav_format(&self, channels: u16) -> (format: WavFormat)
        ensures
            format == (WavFormat {
                channels,
                sample_rate: self.output_config.sample_rate,
                bits_per_sample: BITS_PER_SAMPLE,
            }),
    {
        WavFormat {
            channels,
            sample_rate: self.output_config.sample_rate,
            bits_per_sample: BITS_PER_SAMPLE,
        }
    }

    /// Lays `piece` out in samples at this player's tempo and sample rate.
    ///
    /// The output is as long as the piece. Every pitched note that starts
    /// while the piece lasts becomes a voice, with the sample at which it
    /// starts and the number of samples that it lasts; rests become
    /// nothing.
    pub fn plan<T: Playable>(&self, piece: &T) -> (plan: RenderPlan)
        ensures
            plan.total_samples == spec_sample_count(
                self.output_config.sample_rate,
                spec_span_ms(
                    capped(longest(piece.tracks())) as u64,
                    spec_beat_duration_ms(self.tempo_bpm),
                ),
            ),
            plan.voices@ == schedule(
                piece.tracks(),
                capped(longest(piece.tracks())) as nat,
                spec_beat_duration_ms(self.tempo_bpm),
                self.output_config.sample_rate,
            ),
    {
        let sample_rate: u32 = self.output_config.sample_rate;
        let beat_ms: u64 = self.beat_duration_ms();
        let length: usize = piece.length();
        let total_samples: usize = sample_count(sample_rate, span_ms(length, beat_ms));
        let mut voices: Vec<Voice> = Vec::new();
        let mut instant: usize = 0;
        while instant < length
            invariant
                instant <= length,
                voices@ == schedule(piece.tracks(), instant as nat, beat_ms, sample_rate),
            decreases length - instant,
        {
            let notes = piece.get_notes_at_instant(instant);
            let start_sample: usize = sample_count(sample_rate, span_ms(instant, beat_ms));
            let ghost before = voices@;
            let mut k: usize = 0;
            while k < notes.len()
                invariant
                    k <= notes.len(),
                    start_sample == spec_sample_count(
                        sample_rate,
                        spec_span_ms(instant as u64, beat_ms),
                    ),
                    voices@ == before + voices_of(
                        notes@.take(k as int),
                        instant,
                        beat_ms,
                        sample_rate,
                    ),
                decreases notes.len() - k,
            {
                proof {
                    assert(notes@.take(k + 1).drop_last() =~= notes@.take(k as int));
                }
                let note: Note = notes[k];
                match note.1 {
                    NoteKind::Pitched { pitch, timbre, volume } => {
                        let duration_ms: u64 = span_ms(note.0.0 as usize, beat_ms);
                        voices.push(
                            Voice {
                                start_sample,
                                samples: sample_count(sample_rate, duration_ms),
                                duration_ms,
                                pitch,
                                timbre,
                                volume,
                            },
                        );
                        proof {
                            assert(voices@ =~= before + voices_of(
                                notes@.take(k + 1),
                                instant,
                                beat_ms,
                                sample_rate,
                            ));
                        }
                    },
                    NoteKind::Rest => {
                        proof {
                            assert(voices@ =~= before + voices_of(
                                notes@.take(k + 1),
                                instant,
                                beat_ms,
                                sample_rate,
                            ));
                        }
                    },
                }
                k = k + 1;
            }
            proof {
                assert(notes@.take(notes.len() as int) =~= notes@);
            }
            instant = instant + 1;
        }
        RenderPlan { total_samples, voices }
    }
}

/// The number of channels of the output: the largest number of channels
/// that any source has, and at least one.
pub fn working_channels(native_channels: &Vec<u16>) -> (channels: u16)
    ensures
        channels >= 1,
        forall|i: int| 0 <= i < native_channels@.len() ==> native_channels@[i] <= channels,
        channels == 1 || exists|i: int|
            0 <= i < native_channels@.len() && native_channels@[i] == channels,
{
    let mut channels: u16 = 1;
    let mut i: usize = 0;
    while i < native_channels.len()
        invariant
            i <= native_channels.len(),
            channels >= 1,
            forall|j: int| 0 <= j < i ==> native_channels@[j] <= channels,
            channels == 1 || exists|j: int| 0 <= j < i && native_channels@[j] == channels,
        decreases native_channels.len() - i,
    {
        if native_channels[i] > channels {
            channels = native_channels[i];
        }
        i = i + 1;
    }
    channels
}

/// The output channel that is nearest to where the source channel
/// `source_channel` lies when `native` source channels are spread evenly
/// over `working` output channels, the first on the first and the last on
/// the last. A source channel that lies halfway between two output
/// channels goes to the higher.
pub open spec fn proportional_channel(source_channel: u16, native: u16, working: u16) -> int
    recommends
        native >= 2,
{
    (2 * source_channel * (working - 1) + (native - 1)) / (2 * (native - 1))
}

/// The output channels that the source channel `source_channel` feeds. The
/// one channel of a mono source feeds every output channel. A channel of
/// any other source feeds the one output channel that lies nearest to it
/// in proportion.
pub fn destination_channels(source_channel: u16, native: u16, working: u16) -> (channels: Vec<
    usize,
>)
    requires
        source_channel < native <= working,
    ensures
        native == 1 ==> channels@ == Seq::new(working as nat, |i: int| i as usize),
        native >= 2 ==> channels@ == seq![
            proportional_channel(source_channel, native, working) as usize,
        ],
        forall|i: int| 0 <= i < channels@.len() ==> channels@[i] < working,
        native >= 2 ==> {
            let c = proportional_channel(source_channel, native, working);
            2 * c * (native - 1) - (native - 1) <= 2 * source_channel * (working - 1) < 2 * c * (
            native - 1) + (native - 1)
        },
{
    let mut channels: Vec<usize> = Vec::new();
    if native == 1 {
        let mut i: usize = 0;
        while i < working as usize
            invariant
                i <= working,
                channels@ == Seq::new(i as nat, |j: int| j as usize),
            decreases working - i,
        {
            channels.push(i);
            proof {
                assert(channels@ =~= Seq::new((i + 1) as nat, |j: int| j as usize));
            }
            i = i + 1;
        }
    } else {
        channels.push(nearest_channel(source_channel, native, working) as usize);
    }
    channels
}

/// The output channel that lies nearest, in proportion, to the source
/// channel `source_channel` of a source with more than one channel.
pub fn nearest_channel(source_channel: u16, native: u16, working: u16) -> (nearest: u16)
    requires
        source_channel < native <= working,
        native >= 2,
    ensures
        nearest == proportional_channel(source_channel, native, working),
        nearest < working,
        2 * nearest * (native - 1) - (native - 1) <= 2 * source_channel * (working - 1) < 2
            * nearest * (native - 1) + (native - 1),
{
    let span: u64 = (native - 1) as u64;
    assert(2 * (source_channel as int) * (working - 1) <= 2 * 0xffff * 0xffff)
        by (nonlinear_arith)
        requires
            0 <= source_channel <= 0xffff,
            0 <= working - 1 <= 0xffff,
    ;
    let scaled: u64 = 2 * (source_channel as u64) * ((working - 1) as u64);
    let nearest: u64 = (scaled + span) / (2 * span);
    proof {
        let c = nearest as int;
        let d = span as int;
        assert(c == proportional_channel(source_channel, native, working));
        assert(2 * d * c <= scaled + d < 2 * d * c + 2 * d) by (nonlinear_arith)
            requires
                c == (scaled + d) / (2 * d),
                d > 0,
        ;
        assert(2 * c * d == 2 * d * c) by (nonlinear_arith);
        assert(scaled <= 2 * d * (working - 1)) by (nonlinear_arith)
            requires
                scaled == 2 * (source_channel as int) * (working - 1),
                source_channel <= d,
                working >= 1,
        ;
        assert(c < working) by (nonlinear_arith)
            requires
                2 * d * c <= scaled + d,
                scaled <= 2 * d * (working - 1),
                d > 0,
        ;
    }
    nearest as u16
}

/// With no more source channels than output channels, a higher source
/// channel feeds a higher output channel: no two feed the same.
pub proof fn lemma_proportional_increasing(lower: u16, higher: u16, native: u16, working: u16)
    requires
        lower < higher < native <= working,
    ensures
        proportional_channel(lower, native, working) < proportional_channel(
            higher,
            native,
            working,
        ),
    decreases higher - lower,
{
    let d = (native - 1) as int;
    let before = (higher - 1) as u16;
    let a = 2 * before * (working - 1) + d;
    let b = 2 * higher * (working - 1) + d;
    assert(b == a + 2 * (working - 1)) by (nonlinear_arith)
        requires
            a == 2 * before * (working - 1) + d,
            b == 2 * higher * (working - 1) + d,
            before == higher - 1,
    ;
    vstd::arithmetic::div_mod::lemma_div_plus_one(a, 2 * d);
    vstd::arithmetic::div_mod::lemma_div_is_ordered(a + 2 * d, b, 2 * d);
    if lower < before {
        lemma_proportional_increasing(lower, before, native, working);
    }
}

/// Whether `after` is `before` with `source` mixed into it from the sample
/// `start` on: each sample of the source is combined by `combine` with the
/// sample on which it falls and takes its place, and every other sample is
/// as it was.
pub open spec fn mixed<S, F: Fn(S, S) -> S>(
    before: Seq<S>,
    after: Seq<S>,
    start: usize,
    source: Seq<S>,
    combine: F,
) -> bool {
    &&& after.len() == before.len()
    &&& forall|k: int|
        0 <= k < before.len() && start <= k < start + source.len() ==> call_ensures(
            combine,
            (before[k], source[k - start]),
            #[trigger] after[k],
        )
    &&& forall|k: int|
        0 <= k < before.len() && !(start <= k < start + source.len()) ==> #[trigger] after[k]
            == before[k]
}

/// Mixes `source` into `buffer` from the sample `start` on: each sample of
/// the source is combined by `combine` with the sample of the buffer on
/// which it falls, and replaces it. Samples of the source that would fall
/// behind the end of the buffer are dropped, and the rest of the buffer is
/// left as it was.
pub fn mix_into<S: Copy, F: Fn(S, S) -> S>(
    buffer: &mut Vec<S>,
    start: usize,
    source: &Vec<S>,
    combine: &F,
)
    requires
        forall|held: S, added: S| call_requires(*combine, (held, added)),
    ensures
        mixed(old(buffer)@, final(buffer)@, start, source@, *combine),
{
    let mut i: usize = 0;
    while i < source.len() && start < buffer.len() && i < buffer.len() - start
        invariant
            i <= source@.len(),
            buffer@.len() == old(buffer)@.len(),
            forall|held: S, added: S| call_requires(*combine, (held, added)),
            forall|k: int|
                start <= k < start + i && k < buffer@.len() ==> call_ensures(
                    *combine,
                    (old(buffer)@[k], source@[k - start]),
                    #[trigger] buffer@[k],
                ),
            forall|k: int|
                0 <= k < buffer@.len() && !(start <= k < start + i) ==> #[trigger] buffer@[k]
                    == old(buffer)@[k],
        decreases source@.len() - i,
    {
        let at: usize = start + i;
        let mixed_sample: S = combine(buffer[at], source[i]);
        buffer[at] = mixed_sample;
        i = i + 1;
    }
}

/// Whether the source channel `source` of a source with `native` channels
/// feeds the output channel `output` of `working`: the one channel of a
/// mono source feeds every output channel, and a channel of any other
/// source feeds the output channel nearest to it in proportion.
pub open spec fn feeds(source: int, native: int, output: int, working: int) -> bool {
    0 <= source < native && (native == 1 || output == proportional_channel(
        source as u16,
        native as u16,
        working as u16,
    ))
}

/// Mixes a voice into the output. `channels` holds the samples of the
/// voice, channel by channel; `buffers` holds the output, channel by
/// channel. Every channel of the voice is mixed, from the sample `start`
/// on, into the output channels that it feeds. An output channel that no
/// channel of the voice feeds is left as it was.
pub fn mix_voice<S: Copy, F: Fn(S, S) -> S>(
    buffers: &mut Vec<Vec<S>>,
    start: usize,
    channels: &Vec<Vec<S>>,
    combine: &F,
)
    requires
        1 <= channels@.len() <= old(buffers)@.len() <= u16::MAX,
        forall|held: S, added: S| call_requires(*combine, (held, added)),
    ensures
        final(buffers)@.len() == old(buffers)@.len(),
        forall|c: int, s: int|
            0 <= c < old(buffers)@.len() && #[trigger] feeds(
                s,
                channels@.len() as int,
                c,
                old(buffers)@.len() as int,
            ) ==> mixed(old(buffers)@[c]@, final(buffers)@[c]@, start, channels@[s]@, *combine),
        forall|c: int|
            0 <= c < old(buffers)@.len() && (forall|s: int|
                !#[trigger] feeds(s, channels@.len() as int, c, old(buffers)@.len() as int))
                ==> (#[trigger] final(buffers)@[c])@ == old(buffers)@[c]@,
{
    let native: u16 = channels.len() as u16;
    let working: u16 = buffers.len() as u16;
    if native == 1 {
        let mut c: usize = 0;
        while c < working as usize
            invariant
                c <= working,
                working == buffers@.len(),
                buffers@.len() == old(buffers)@.len(),
                channels@.len() == 1,
                forall|held: S, added: S| call_requires(*combine, (held, added)),
                forall|d: int|
                    0 <= d < c ==> mixed(
                        old(buffers)@[d]@,
                        (#[trigger] buffers@[d])@,
                        start,
                        channels@[0]@,
                        *combine,
                    ),
                forall|d: int| c <= d < working ==> (#[trigger] buffers@[d]) == old(buffers)@[d],
            decreases working - c,
        {
            mix_into(&mut buffers[c], start, &channels[0], combine);
            c = c + 1;
        }
        proof {
            assert forall|c: int|
                0 <= c < old(buffers)@.len() && (forall|t: int|
                    !#[trigger] feeds(
                        t,
                        channels@.len() as int,
                        c,
                        old(buffers)@.len() as int,
                    )) implies (#[trigger] buffers@[c])@ == old(buffers)@[c]@ by {
                assert(feeds(0, channels@.len() as int, c, old(buffers)@.len() as int));
            }
        }
    } else {
        let mut s: u16 = 0;
        while s < native
            invariant
                s <= native,
                2 <= native <= working,
                native == channels@.len(),
                working == buffers@.len(),
                buffers@.len() == old(buffers)@.len(),
                forall|held: S, added: S| call_requires(*combine, (held, added)),
                forall|t: int|
                    0 <= t < s ==> 0 <= #[trigger] proportional_channel(t as u16, native, working)
                        < working,
                forall|t: int|
                    0 <= t < s ==> mixed(
                        old(buffers)@[proportional_channel(t as u16, native, working)]@,
                        buffers@[#[trigger] proportional_channel(t as u16, native, working)]@,
                        start,
                        channels@[t]@,
                        *combine,
                    ),
                forall|d: int|
                    0 <= d < working && (forall|t: int|
                        0 <= t < s ==> #[trigger] proportional_channel(t as u16, native, working)
                            != d) ==> (#[trigger] buffers@[d]) == old(buffers)@[d],
            decreases native - s,
        {
            let c: u16 = nearest_channel(s, native, working);
            let ghost before = buffers@;
            proof {
                assert forall|t: int| 0 <= t < s implies #[trigger] proportional_channel(
                    t as u16,
                    native,
                    working,
                ) != c by {
                    lemma_proportional_increasing(t as u16, s, native, working);
                }
                assert(before[c as int] == old(buffers)@[c as int]);
            }
            mix_into(&mut buffers[c as usize], start, &channels[s as usize], combine);
            proof {
                assert forall|t: int| 0 <= t < s + 1 implies mixed(
                    old(buffers)@[proportional_channel(t as u16, native, working)]@,
                    buffers@[#[trigger] proportional_channel(t as u16, native, working)]@,
                    start,
                    channels@[t]@,
                    *combine,
                ) by {
                    if t < s {
                        lemma_proportional_increasing(t as u16, s, native, working);
                        let p = proportional_channel(t as u16, native, working);
                        assert(buffers@[p] == before[p]);
                    }
                }
                assert forall|d: int|
                    0 <= d < working && (forall|t: int|
                        0 <= t < s + 1 ==> #[trigger] proportional_channel(
                            t as u16,
                            native,
                            working,
                        ) != d) implies (#[trigger] buffers@[d]) == old(buffers)@[d] by {
                    let same = s as int;
                    assert(proportional_channel(same as u16, native, working) != d);
                    assert(buffers@[d] == before[d]);
                }
            }
            s = s + 1;
        }
        proof {
            assert forall|c: int, t: int|
                0 <= c < old(buffers)@.len() && #[trigger] feeds(
                    t,
                    channels@.len() as int,
                    c,
                    old(buffers)@.len() as int,
                ) implies mixed(
                old(buffers)@[c]@,
                buffers@[c]@,
                start,
                channels@[t]@,
                *combine,
            ) by {
                assert(c == proportional_channel(t as u16, native, working));
            }
            assert forall|c: int|
                0 <= c < old(buffers)@.len() && (forall|t: int|
                    !#[trigger] feeds(
                        t,
                        channels@.len() as int,
                        c,
                        old(buffers)@.len() as int,
                    )) implies (#[trigger] buffers@[c])@ == old(buffers)@[c]@ by {
                assert forall|t: int| 0 <= t < native implies #[trigger] proportional_channel(
                    t as u16,
                    native,
                    working,
                ) != c by {
                    assert(!feeds(t, native as int, c, working as int));
                }
            }
        }
    }
}

/// Where sample `frame` of channel `channel` stands among samples in
/// which `channels` channels take turns.
pub open spec fn interleaved_index(frame: int, channel: int, channels: int) -> int {
    frame * channels + channel
}

/// The samples of each channel of `samples`, in which the channels take
/// turns: sample `k` of channel `c` is sample `k * channels + c` of
/// `samples`, and each channel has as many samples as there are such
/// positions.
pub fn deinterleave<S: Copy>(samples: &Vec<S>, channels: u16) -> (split: Vec<Vec<S>>)
    requires
        channels >= 1,
    ensures
        split@.len() == channels,
        forall|c: int|
            0 <= c < channels ==> (#[trigger] split@[c])@.len() == (samples@.len() + channels - 1
                - c) / (channels as int),
        forall|c: int, k: int|
            0 <= c < channels && 0 <= k < split@[c]@.len() ==> 0 <= #[trigger] interleaved_index(
                k,
                c,
                channels as int,
            ) < samples@.len(),
        forall|c: int, k: int|
            0 <= c < channels && 0 <= k < split@[c]@.len() ==> #[trigger] split@[c]@[k]
                == samples@[interleaved_index(k, c, channels as int)],
{
    let mut split: Vec<Vec<S>> = Vec::new();
    let mut c: usize = 0;
    while c < channels as usize
        invariant
            c <= channels,
            channels >= 1,
            split@.len() == c,
            forall|d: int|
                0 <= d < c ==> (#[trigger] split@[d])@.len() == (samples@.len() + channels - 1 - d)
                    / (channels as int),
            forall|d: int, k: int|
                0 <= d < c && 0 <= k < split@[d]@.len() ==> 0 <= #[trigger] interleaved_index(
                    k,
                    d,
                    channels as int,
                ) < samples@.len(),
            forall|d: int, k: int|
                0 <= d < c && 0 <= k < split@[d]@.len() ==> #[trigger] split@[d]@[k]
                    == samples@[interleaved_index(k, d, channels as int)],
        decreases channels - c,
    {
        let channel = every_nth(samples, c, channels);
        split.push(channel);
        c = c + 1;
    }
    split
}

/// The samples of `samples` at the positions `first`, `first + step`,
/// `first + 2 * step` and so on, as far as there are any.
pub fn every_nth<S: Copy>(samples: &Vec<S>, first: usize, step: u16) -> (picked: Vec<S>)
    requires
        first < step,
    ensures
        picked@.len() == (samples@.len() + step - 1 - first) / (step as int),
        forall|k: int|
            0 <= k < picked@.len() ==> 0 <= #[trigger] interleaved_index(
                k,
                first as int,
                step as int,
            ) < samples@.len(),
        forall|k: int|
            0 <= k < picked@.len() ==> #[trigger] picked@[k] == samples@[interleaved_index(
                k,
                first as int,
                step as int,
            )],
{
    let mut picked: Vec<S> = Vec::new();
    let mut at: usize = first;
    let mut more: bool = at < samples.len();
    proof {
        if !more {
            vstd::arithmetic::div_mod::lemma_fundamental_div_mod_converse(
                samples@.len() + step - 1 - first,
                step as int,
                0,
                samples@.len() + step - 1 - first,
            );
        }
    }
    while more
        invariant
            first < step,
            more ==> at < samples@.len() && at == interleaved_index(
                picked@.len() as int,
                first as int,
                step as int,
            ),
            !more ==> picked@.len() == (samples@.len() + step - 1 - first) / (step as int),
            forall|k: int|
                0 <= k < picked@.len() ==> 0 <= #[trigger] interleaved_index(
                    k,
                    first as int,
                    step as int,
                ) < samples@.len(),
            forall|k: int|
                0 <= k < picked@.len() ==> #[trigger] picked@[k] == samples@[interleaved_index(
                    k,
                    first as int,
                    step as int,
                )],
        decreases
                if more {
                    samples@.len() - at
                } else {
                    0
                },
    {
        let ghost before = picked@;
        picked.push(samples[at]);
        proof {
            let n = picked@.len() as int;
            assert((n - 1) * step + step == n * step) by (nonlinear_arith);
            assert((n - 1) * step >= 0) by (nonlinear_arith)
                requires
                    n >= 1,
                    step >= 1,
            ;
            assert forall|k: int| 0 <= k < picked@.len() implies 0 <= #[trigger] interleaved_index(
                k,
                first as int,
                step as int,
            ) < samples@.len() by {
                if k < before.len() {
                    assert(picked@[k] == before[k]);
                }
            }
            assert forall|k: int| 0 <= k < picked@.len() implies #[trigger] picked@[k]
                == samples@[interleaved_index(k, first as int, step as int)] by {
                if k < before.len() {
                    assert(picked@[k] == before[k]);
                }
            }
        }
        if samples.len() - at > step as usize {
            at = at + step as usize;
        } else {
            proof {
                let n = picked@.len() as int;
                vstd::arithmetic::div_mod::lemma_fundamental_div_mod_converse(
                    samples@.len() + step - 1 - first,
                    step as int,
                    n,
                    samples@.len() + step - 1 - first - n * step,
                );
            }
            more = false;
        }
    }
    picked
}

/// The samples of `channels` with the channels taking turns: first sample
/// 0 of every channel in order, then sample 1 of every channel, up to
/// `frames` samples of each.
pub fn interleave<S: Copy>(channels: &Vec<Vec<S>>, frames: usize) -> (samples: Vec<S>)
    requires
        forall|c: int| 0 <= c < channels@.len() ==> (#[trigger] channels@[c])@.len() >= frames,
    ensures
        samples@.len() == frames * channels@.len(),
        forall|k: int, c: int|
            0 <= k < frames && 0 <= c < channels@.len() ==> 0 <= #[trigger] interleaved_index(
                k,
                c,
                channels@.len() as int,
            ) < samples@.len(),
        forall|k: int, c: int|
            0 <= k < frames && 0 <= c < channels@.len() ==> samples@[#[trigger] interleaved_index(
                k,
                c,
                channels@.len() as int,
            )] == channels@[c]@[k],
{
    let width: usize = channels.len();
    let mut samples: Vec<S> = Vec::new();
    let mut k: usize = 0;
    while k < frames
        invariant
            k <= frames,
            width == channels@.len(),
            forall|c: int| 0 <= c < channels@.len() ==> (#[trigger] channels@[c])@.len() >= frames,
            samples@.len() == k * width,
            forall|j: int, c: int|
                0 <= j < k && 0 <= c < width ==> samples@[#[trigger] interleaved_index(
                    j,
                    c,
                    width as int,
                )] == channels@[c]@[j],
        decreases frames - k,
    {
        let mut c: usize = 0;
        while c < width
            invariant
                k < frames,
                c <= width,
                width == channels@.len(),
                forall|d: int|
                    0 <= d < channels@.len() ==> (#[trigger] channels@[d])@.len() >= frames,
                samples@.len() == k * width + c,
                forall|j: int, d: int|
                    0 <= j < k && 0 <= d < width ==> samples@[#[trigger] interleaved_index(
                        j,
                        d,
                        width as int,
                    )] == channels@[d]@[j],
                forall|d: int|
                    0 <= d < c ==> samples@[#[trigger] interleaved_index(
                        k as int,
                        d,
                        width as int,
                    )] == channels@[d]@[k as int],
            decreases width - c,
        {
            let ghost before = samples@;
            let channel = &channels[c];
            samples.push(channel[k]);
            proof {
                assert forall|j: int, d: int| 0 <= j < k && 0 <= d < width implies samples@[
                    #[trigger] interleaved_index(j, d, width as int)] == channels@[d]@[j] by {
                    lemma_interleaved_index_bounds(j, d, k as int, width as int);
                    assert(samples@[interleaved_index(j, d, width as int)]
                        == before[interleaved_index(j, d, width as int)]);
                }
                assert forall|d: int| 0 <= d < c + 1 implies samples@[#[trigger] interleaved_index(
                    k as int,
                    d,
                    width as int,
                )] == channels@[d]@[k as int] by {
                    if d < c {
                        assert(samples@[interleaved_index(k as int, d, width as int)]
                            == before[interleaved_index(k as int, d, width as int)]);
                    }
                }
            }
            c = c + 1;
        }
        proof {
            assert(k * width + width == (k + 1) * width) by (nonlinear_arith);
        }
        k = k + 1;
    }
    proof {
        assert forall|j: int, c: int| 0 <= j < frames && 0 <= c < channels@.len() implies 0
            <= #[trigger] interleaved_index(j, c, channels@.len() as int) < samples@.len() by {
            lemma_interleaved_index_bounds(j, c, frames as int, width as int);
        }
    }
    samples
}

/// The positions of the samples of one frame lie before those of every
/// later frame.
pub proof fn lemma_interleaved_index_bounds(frame: int, channel: int, frames: int, channels: int)
    requires
        0 <= frame < frames,
        0 <= channel < channels,
    ensures
        0 <= interleaved_index(frame, channel, channels) < frames * channels,
{
    assert(frame * channels >= 0) by (nonlinear_arith)
        requires
            frame >= 0,
            channels > 0,
    ;
    assert(frame * channels + channels <= frames * channels) by (nonlinear_arith)
        requires
            frame + 1 <= frames,
            channels > 0,
    ;
}

/// The four samples of a source between which one output sample is
/// interpolated; a position that lies outside the source is absent, and a
/// sample of silence stands in for it.
#[derive(Clone, Copy, Debug, PartialEq, Eq)]
pub struct Taps {
    /// The sample before the one at the index, or the first of the source.
    pub before: Option<usize>,
    /// The sample at the index.
    pub at: Option<usize>,
    /// The sample after the one at the index, or the last of the source.
    pub after: Option<usize>,
    /// The second sample after the one at the index, or the last of the
    /// source.
    pub beyond: Option<usize>,
}

/// The position `position` if the source has a sample there.
pub open spec fn tap(position: int, input_len: usize) -> Option<usize> {
    if 0 <= position < input_len {
        Some(position as usize)
    } else {
        None
    }
}

/// The position `position`, or the last of the source if it lies behind
/// the end.
pub open spec fn clamped(position: int, input_len: usize) -> int {
    if position < input_len - 1 {
        position
    } else {
        input_len - 1
    }
}

/// The four samples of a source of `input_len` samples between which the
/// output sample that falls at `index` is interpolated: the one before, the
/// one at the index, and the two after it. The first stops at the start of
/// the source and the last two stop at its end.
pub fn interpolation_taps(index: usize, input_len: usize) -> (taps: Taps)
    ensures
        taps.before == tap(
            if index == 0 {
                0
            } else {
                index - 1
            },
            input_len,
        ),
        taps.at == tap(index as int, input_len),
        taps.after == tap(clamped(index + 1, input_len), input_len),
        taps.beyond == tap(clamped(index + 2, input_len), input_len),
{
    if input_len == 0 {
        return Taps { before: None, at: None, after: None, beyond: None };
    }
    let last: usize = input_len - 1;
    let before: usize = if index == 0 {
        0
    } else {
        index - 1
    };
    let after: usize = if index < last {
        index + 1
    } else {
        last
    };
    let beyond: usize = if index < last && index + 1 < last {
        index + 2
    } else {
        last
    };
    Taps {
        before: if before < input_len {
            Some(before)
        } else {
            None
        },
        at: if index < input_len {
            Some(index)
        } else {
            None
        },
        after: Some(after),
        beyond: Some(beyond),
    }
}

/// Whether every note of `notes` is a rest.
pub open spec fn all_rests(notes: Seq<Note>) -> bool {
    forall|i: int| 0 <= i < notes.len() ==> (#[trigger] notes[i]).1 == NoteKind::Rest
}

/// Rests make no voice.
pub proof fn lemma_rests_have_no_voice(
    notes: Seq<Note>,
    instant: usize,
    beat_ms: u64,
    sample_rate: u32,
)
    requires
        all_rests(notes),
    ensures
        voices_of(notes, instant, beat_ms, sample_rate) == Seq::<Voice>::empty(),
    decreases notes.len(),
{
    if notes.len() > 0 {
        assert(notes.last() == notes[notes.len() - 1]);
        assert forall|i: int| 0 <= i < notes.drop_last().len() implies (
        #[trigger] notes.drop_last()[i]).1 == NoteKind::Rest by {
            assert(notes.drop_last()[i] == notes[i]);
        }
        lemma_rests_have_no_voice(notes.drop_last(), instant, beat_ms, sample_rate);
        assert(voices_of(notes, instant, beat_ms, sample_rate) =~= Seq::<Voice>::empty());
    }
}

/// In tracks that hold nothing but rests, only rests start at any time.
pub proof fn lemma_onsets_of_rests(tracks: Seq<LineView>, t: nat)
    requires
        forall|i: int| 0 <= i < tracks.len() ==> all_rests((#[trigger] tracks[i]).notes),
    ensures
        all_rests(onsets_at(tracks, t)),
    decreases tracks.len(),
{
    if tracks.len() > 0 {
        assert forall|i: int| 0 <= i < tracks.drop_last().len() implies all_rests(
            (#[trigger] tracks.drop_last()[i]).notes,
        ) by {
            assert(tracks.drop_last()[i] == tracks[i]);
        }
        lemma_onsets_of_rests(tracks.drop_last(), t);
        assert(tracks.last() == tracks[tracks.len() - 1]);
        lemma_index_starting_at(tracks.last().notes, t);
    }
}

/// A piece that holds nothing but rests is rendered without a voice:
/// whatever its length, nothing is mixed into the output.
pub proof fn lemma_rests_render_silent(
    tracks: Seq<LineView>,
    until: nat,
    beat_ms: u64,
    sample_rate: u32,
)
    requires
        forall|i: int| 0 <= i < tracks.len() ==> all_rests((#[trigger] tracks[i]).notes),
    ensures
        schedule(tracks, until, beat_ms, sample_rate) == Seq::<Voice>::empty(),
    decreases until,
{
    if until > 0 {
        lemma_rests_render_silent(tracks, (until - 1) as nat, beat_ms, sample_rate);
        lemma_onsets_of_rests(tracks, (until - 1) as nat);
        lemma_rests_have_no_voice(
            onsets_at(tracks, (until - 1) as nat),
            (until - 1) as usize,
            beat_ms,
            sample_rate,
        );
        assert(schedule(tracks, until, beat_ms, sample_rate) =~= Seq::<Voice>::empty());
    }
}

} // verus!
