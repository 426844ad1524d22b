use symphoxy::note::length::NoteLength;
use symphoxy::note::timbre::Timbre;
use symphoxy::note::{Note, NoteKind, NotePitch};
use symphoxy::piece::line::Line;
use symphoxy::piece::Piece;
use symphoxy::play::render::{
    deinterleave, destination_channels, every_nth, interleave, interpolation_taps, mix_into,
    mix_voice, nearest_channel, sample_count, saturating_mul, span_ms, working_channels, Taps,
    Voice, WavFormat,
};
use symphoxy::play::{FileOutputConfig, MusicPlayer, Normalization, Playable};

fn pitched(length: u16, frequency: f32) -> Note {
    Note(
        NoteLength(length),
        NoteKind::Pitched {
            pitch: NotePitch(frequency.to_bits()),
            timbre: Timbre::Piano,
            volume: 1.0f32.to_bits(),
        },
    )
}

fn rest(length: u16) -> Note {
    Note(NoteLength(length), NoteKind::Rest)
}

#[test]
fn beat_duration_from_tempo() {
    assert_eq!(MusicPlayer::new_file(300, 1.0f32.to_bits(), 44100).beat_duration_ms(), 200);
    assert_eq!(MusicPlayer::new_file(120, 1.0f32.to_bits(), 44100).beat_duration_ms(), 500);
    assert_eq!(MusicPlayer::new_file(7, 1.0f32.to_bits(), 44100).beat_duration_ms(), 8571);
    assert_eq!(MusicPlayer::new_file(60001, 1.0f32.to_bits(), 44100).beat_duration_ms(), 0);
}

#[test]
fn beat_duration_at_tempo_zero_is_longest() {
    assert_eq!(MusicPlayer::new_file(0, 1.0f32.to_bits(), 44100).beat_duration_ms(), u64::MAX);
}

#[test]
fn file_player_holds_its_settings() {
    let player = MusicPlayer::new_file(300, 0.5f32.to_bits(), 48000);
    assert_eq!(player.tempo_bpm, 300);
    assert_eq!(
        player.output_config,
        FileOutputConfig {
            output_gain: 0.5f32.to_bits(),
            sample_rate: 48000,
            normalization: Normalization::PerChannel,
        }
    );
    let default = FileOutputConfig::default();
    assert_eq!(f32::from_bits(default.output_gain), 1.0);
    assert_eq!(default.sample_rate, 44100);
    assert_eq!(default.normalization, Normalization::PerChannel);
    assert_eq!(Normalization::default(), Normalization::PerChannel);
}

#[test]
fn sample_count_is_rate_times_time() {
    assert_eq!(sample_count(44100, 800), 35280);
    assert_eq!(sample_count(44100, 1), 44);
    assert_eq!(sample_count(8000, 0), 0);
    assert_eq!(sample_count(0, 1000), 0);
    assert_eq!(span_ms(4, 200), 800);
    assert_eq!(span_ms(0, 200), 0);
}

#[test]
fn time_arithmetic_saturates() {
    assert_eq!(saturating_mul(u64::MAX, 2), u64::MAX);
    assert_eq!(saturating_mul(1 << 32, 1 << 32), u64::MAX);
    assert_eq!(saturating_mul(1 << 32, (1 << 32) - 1), u64::MAX - (1 << 32) + 1);
    assert_eq!(span_ms(3, u64::MAX), u64::MAX);
    assert_eq!(sample_count(44100, u64::MAX), (u64::MAX / 1000) as usize);
}

#[test]
fn plan_of_two_simultaneous_quarter_notes() {
    let piece = Piece(vec![
        Line::from_note(pitched(4, 261.626)),
        Line::from_note(pitched(4, 329.63)),
    ]);
    let player = MusicPlayer::new_file(300, 1.0f32.to_bits(), 44100);
    let plan = player.plan(&piece);
    assert_eq!(plan.total_samples, 35280);
    assert_eq!(
        plan.voices,
        vec![
            Voice {
                start_sample: 0,
                samples: 35280,
                duration_ms: 800,
                pitch: NotePitch(261.626f32.to_bits()),
                timbre: Timbre::Piano,
                volume: 1.0f32.to_bits(),
            },
            Voice {
                start_sample: 0,
                samples: 35280,
                duration_ms: 800,
                pitch: NotePitch(329.63f32.to_bits()),
                timbre: Timbre::Piano,
                volume: 1.0f32.to_bits(),
            },
        ]
    );
}

#[test]
fn plan_of_rests_has_length_and_no_voice() {
    let piece = Piece(vec![Line::from_notes(vec![rest(4), rest(2)])]);
    let player = MusicPlayer::new_file(300, 1.0f32.to_bits(), 44100);
    let plan = player.plan(&piece);
    assert_eq!(plan.total_samples, 44100 * 6 * 200 / 1000);
    assert_eq!(plan.voices, vec![]);
}

#[test]
fn plan_orders_voices_by_onset_then_track() {
    let piece = Piece(vec![
        Line::from_notes(vec![pitched(2, 261.626), rest(2), pitched(4, 293.66)]),
        Line::from_notes(vec![rest(4), pitched(2, 440.0)]),
    ]);
    let player = MusicPlayer::new_file(600, 1.0f32.to_bits(), 8000);
    let plan = player.plan(&piece);
    let starts: Vec<(usize, usize, u32)> =
        plan.voices.iter().map(|v| (v.start_sample, v.samples, v.pitch.0)).collect();
    assert_eq!(
        starts,
        vec![
            (0, 1600, 261.626f32.to_bits()),
            (3200, 3200, 293.66f32.to_bits()),
            (3200, 1600, 440.0f32.to_bits()),
        ]
    );
    assert_eq!(plan.total_samples, 6400);
}

#[test]
fn plan_of_empty_piece() {
    let player = MusicPlayer::new_file(300, 1.0f32.to_bits(), 44100);
    let plan = player.plan(&Piece::new());
    assert_eq!(plan.total_samples, 0);
    assert_eq!(plan.voices, vec![]);
}

#[test]
fn line_and_note_are_playable() {
    let note = pitched(4, 440.0);
    assert_eq!(Playable::length(&note), 4);
    assert_eq!(Playable::get_notes_at_instant(&note, 0), vec![note]);
    assert_eq!(Playable::get_notes_at_instant(&note, 1), vec![]);
    let line = Line::from_notes(vec![note, rest(2)]);
    assert_eq!(Playable::length(&line), 6);
    assert_eq!(Playable::get_notes_at_instant(&line, 4), vec![rest(2)]);
    assert_eq!(Playable::get_notes_at_instant(&line, 5), vec![]);
    let player = MusicPlayer::new_file(300, 1.0f32.to_bits(), 1000);
    assert_eq!(player.plan(&note).total_samples, 800);
    assert_eq!(player.plan(&line).voices.len(), 1);
}

#[test]
fn working_channels_is_largest_and_at_least_one() {
    assert_eq!(working_channels(&vec![]), 1);
    assert_eq!(working_channels(&vec![1, 1, 1]), 1);
    assert_eq!(working_channels(&vec![1, 2, 1]), 2);
    assert_eq!(working_channels(&vec![6, 2]), 6);
    assert_eq!(working_channels(&vec![0]), 1);
}

#[test]
fn mono_source_feeds_every_channel() {
    assert_eq!(destination_channels(0, 1, 1), vec![0]);
    assert_eq!(destination_channels(0, 1, 2), vec![0, 1]);
    assert_eq!(destination_channels(0, 1, 4), vec![0, 1, 2, 3]);
}

#[test]
fn other_sources_feed_the_nearest_channel_in_proportion() {
    assert_eq!(destination_channels(0, 2, 2), vec![0]);
    assert_eq!(destination_channels(1, 2, 2), vec![1]);
    assert_eq!(destination_channels(0, 2, 6), vec![0]);
    assert_eq!(destination_channels(1, 2, 6), vec![5]);
    assert_eq!(destination_channels(1, 3, 6), vec![3]);
    assert_eq!(destination_channels(1, 3, 4), vec![2]);
    assert_eq!(destination_channels(2, 3, 4), vec![3]);
    assert_eq!(destination_channels(1, 4, 5), vec![1]);
    assert_eq!(destination_channels(2, 4, 5), vec![3]);
}

#[test]
fn routing_agrees_with_rounding_in_floating_point() {
    for working in 2u16..=8 {
        for native in 2..=working {
            for channel in 0..native {
                let rounded = ((channel as f32) * (working as f32 - 1.0) / (native as f32 - 1.0)).round() as usize;
                assert_eq!(destination_channels(channel, native, working), vec![rounded]);
            }
        }
    }
}

#[test]
fn mix_adds_at_offset_and_drops_what_falls_behind_the_end() {
    let mut buffer: Vec<i32> = vec![1, 1, 1, 1, 1];
    mix_into(&mut buffer, 3, &vec![10, 20, 30], &|held: i32, added: i32| held + added);
    assert_eq!(buffer, vec![1, 1, 1, 11, 21]);
    mix_into(&mut buffer, 0, &vec![5], &|held: i32, added: i32| held + added);
    assert_eq!(buffer, vec![6, 1, 1, 11, 21]);
    mix_into(&mut buffer, 5, &vec![5], &|held: i32, added: i32| held + added);
    assert_eq!(buffer, vec![6, 1, 1, 11, 21]);
    mix_into(&mut buffer, usize::MAX, &vec![5, 5], &|held: i32, added: i32| held + added);
    assert_eq!(buffer, vec![6, 1, 1, 11, 21]);
}

#[test]
fn mix_of_overlapping_sources_sums() {
    let mut buffer: Vec<f32> = vec![0.0; 4];
    mix_into(&mut buffer, 0, &vec![0.25, 0.25, 0.25], &|held: f32, added: f32| held + added);
    mix_into(&mut buffer, 1, &vec![0.5, 0.5], &|held: f32, added: f32| held + added);
    assert_eq!(buffer, vec![0.25, 0.75, 0.75, 0.0]);
}

#[test]
fn deinterleave_splits_by_turn() {
    assert_eq!(deinterleave(&vec![1, 2, 3, 4, 5, 6], 2), vec![vec![1, 3, 5], vec![2, 4, 6]]);
    assert_eq!(deinterleave(&vec![1, 2, 3, 4, 5], 2), vec![vec![1, 3, 5], vec![2, 4]]);
    assert_eq!(deinterleave(&vec![1, 2, 3], 1), vec![vec![1, 2, 3]]);
    assert_eq!(deinterleave(&vec![1, 2], 3), vec![vec![1], vec![2], vec![]]);
    assert_eq!(deinterleave(&Vec::<i16>::new(), 2), vec![vec![], vec![]]);
    assert_eq!(every_nth(&vec![0, 1, 2, 3, 4, 5, 6], 1, 3), vec![1, 4]);
}

#[test]
fn interleave_takes_turns() {
    assert_eq!(interleave(&vec![vec![1, 3, 5], vec![2, 4, 6]], 3), vec![1, 2, 3, 4, 5, 6]);
    assert_eq!(interleave(&vec![vec![1, 3, 5], vec![2, 4, 6]], 2), vec![1, 2, 3, 4]);
    assert_eq!(interleave(&vec![vec![7, 8]], 2), vec![7, 8]);
    assert_eq!(interleave(&Vec::<Vec<i16>>::new(), 5), Vec::<i16>::new());
    assert_eq!(interleave(&vec![vec![1], vec![2]], 0), Vec::<i32>::new());
}

#[test]
fn interleave_undoes_deinterleave() {
    let samples: Vec<i16> = vec![1, -2, 3, -4, 5, -6, 7, -8, 9];
    let split = deinterleave(&samples, 3);
    assert_eq!(interleave(&split, 3), samples);
}

#[test]
fn taps_stop_at_the_ends_of_the_source() {
    assert_eq!(
        interpolation_taps(0, 10),
        Taps { before: Some(0), at: Some(0), after: Some(1), beyond: Some(2) }
    );
    assert_eq!(
        interpolation_taps(4, 10),
        Taps { before: Some(3), at: Some(4), after: Some(5), beyond: Some(6) }
    );
    assert_eq!(
        interpolation_taps(8, 10),
        Taps { before: Some(7), at: Some(8), after: Some(9), beyond: Some(9) }
    );
    assert_eq!(
        interpolation_taps(9, 10),
        Taps { before: Some(8), at: Some(9), after: Some(9), beyond: Some(9) }
    );
    assert_eq!(
        interpolation_taps(0, 1),
        Taps { before: Some(0), at: Some(0), after: Some(0), beyond: Some(0) }
    );
}

#[test]
fn taps_outside_the_source_are_absent() {
    assert_eq!(interpolation_taps(0, 0), Taps { before: None, at: None, after: None, beyond: None });
    assert_eq!(
        interpolation_taps(10, 10),
        Taps { before: Some(9), at: None, after: Some(9), beyond: Some(9) }
    );
    assert_eq!(
        interpolation_taps(12, 10),
        Taps { before: None, at: None, after: Some(9), beyond: Some(9) }
    );
    assert_eq!(
        interpolation_taps(usize::MAX, 3),
        Taps { before: None, at: None, after: Some(2), beyond: Some(2) }
    );
}

#[test]
fn mono_voice_is_mixed_into_every_channel() {
    let mut buffers: Vec<Vec<i32>> = vec![vec![0; 4], vec![100; 4], vec![200; 4]];
    mix_voice(&mut buffers, 1, &vec![vec![1, 2]], &|held: i32, added: i32| held + added);
    assert_eq!(buffers, vec![vec![0, 1, 2, 0], vec![100, 101, 102, 100], vec![200, 201, 202, 200]]);
}

#[test]
fn stereo_voice_is_mixed_into_the_outer_channels_of_four() {
    let mut buffers: Vec<Vec<i32>> = vec![vec![0; 3]; 4];
    mix_voice(&mut buffers, 0, &vec![vec![1, 2, 3], vec![10, 20, 30, 40]], &|held: i32, added: i32| {
        held + added
    });
    assert_eq!(buffers, vec![vec![1, 2, 3], vec![0; 3], vec![0; 3], vec![10, 20, 30]]);
}

#[test]
fn voice_with_as_many_channels_as_the_output_is_mixed_one_to_one() {
    let mut buffers: Vec<Vec<i32>> = vec![vec![5; 2]; 3];
    mix_voice(&mut buffers, 1, &vec![vec![1], vec![2], vec![3]], &|held: i32, added: i32| held * added);
    assert_eq!(buffers, vec![vec![5, 5], vec![5, 10], vec![5, 15]]);
}

#[test]
fn voices_mixed_one_after_another_sum() {
    let mut buffers: Vec<Vec<f32>> = vec![vec![0.0; 4]; 2];
    let halve = |held: f32, added: f32| held + added / 2.0;
    mix_voice(&mut buffers, 0, &vec![vec![1.0, 1.0, 1.0]], &halve);
    mix_voice(&mut buffers, 2, &vec![vec![0.5, 0.5, 0.5]], &halve);
    assert_eq!(buffers, vec![vec![0.5, 0.5, 0.75, 0.25], vec![0.5, 0.5, 0.75, 0.25]]);
}

#[test]
fn nearest_channels_rise_with_the_source_channel() {
    for working in 2u16..=12 {
        for native in 2..=working {
            let nearest: Vec<u16> =
                (0..native).map(|channel| nearest_channel(channel, native, working)).collect();
            assert_eq!(nearest[0], 0);
            assert_eq!(nearest[native as usize - 1], working - 1);
            for pair in nearest.windows(2) {
                assert!(pair[0] < pair[1]);
            }
        }
    }
    assert_eq!(nearest_channel(1, 2, 65535), 65534);
    assert_eq!(nearest_channel(32767, 65535, 65535), 32767);
}

#[test]
fn output_is_sixteen_bits_at_the_rate_of_the_player() {
    let player = MusicPlayer::new_file(300, 1.0f32.to_bits(), 48000);
    assert_eq!(player.wav_format(2), WavFormat { channels: 2, sample_rate: 48000, bits_per_sample: 16 });
}
