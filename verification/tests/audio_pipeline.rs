use vors_core::controller::process_packet;
use vors_core::convert::check_channels_count;
use vors_core::convert::convert_channels_count;
use vors_core::convert::decode_packet;
use vors_core::convert::encode_samples;
use vors_core::fade::mix_sample;
use vors_core::fade::scale_sample;
use vors_core::renderer::get_next_frame_batch;
use vors_core::renderer::StreamingSource;
use vors_core::sample_buffer::SampleBuffer;
use vors_core::settings::AudioBufferingConfig;
use vors_core::settings::BufferingParams;

fn params_48k_stereo() -> BufferingParams {
    let config = AudioBufferingConfig { average_buffering_ms: 50, batch_ms: 10 };
    BufferingParams::new(48000, &config, 2)
}

fn const_frames(value: i16, frames: usize, channels: usize) -> Vec<i16> {
    vec![value; frames * channels]
}

fn feed(
    buf: &mut SampleBuffer,
    rec: &mut Vec<i16>,
    samples: &[i16],
    had_loss: bool,
    params: &BufferingParams,
) {
    let bytes = encode_samples(samples);
    process_packet(buf, rec, &bytes, had_loss, params);
}

#[test]
fn buffering_params_formulas() {
    let p = params_48k_stereo();
    assert_eq!(p.average_buffer_frames_count, 2400);
    assert_eq!(p.batch_frames_count, 480);
    assert_eq!(p.channels_count, 2);
}

#[test]
fn scenario_initial_burst_48k_stereo() {
    let p = params_48k_stereo();
    let mut buf = SampleBuffer::new();
    let mut rec: Vec<i16> = Vec::new();

    // An initial burst of 3000 frames exceeds average + batch, so the
    // recovery episode completes at once and everything is queued.
    feed(&mut buf, &mut rec, &const_frames(1000, 3000, 2), false, &p);
    assert_eq!(buf.frames_len(2), 3000);
    assert_eq!(rec.len(), 0);

    // The very first pull already yields non-silent audio.
    let batch = get_next_frame_batch(&mut buf, 2, 480);
    assert_eq!(batch.len(), 960);
    assert!(batch.iter().any(|&s| s != 0));
    // The fade-in ramp: frame f of the first batch carries 1000 * f / 480.
    assert_eq!(batch[0], 0);
    assert_eq!(batch[1], 0);
    assert_eq!(batch[2], 1000 / 480); // frame 1
    assert_eq!(batch[958] as i64, 1000i64 * 479 / 480); // frame 479, second channel

    // Filling further does not trigger the overflow path while the total
    // depth stays at or below 2 * 2400 + 480 = 5280 frames.
    feed(&mut buf, &mut rec, &const_frames(1000, 2280, 2), false, &p);
    assert_eq!(buf.frames_len(2), 4800);
    assert_eq!(rec.len(), 0);

    // One more frame past 5280 engages overflow control: depth drops to the
    // average.
    feed(&mut buf, &mut rec, &const_frames(1000, 481, 2), false, &p);
    assert_eq!(buf.frames_len(2), 2400);
}

#[test]
fn scenario_loss_with_shallow_buffer_clears() {
    let p = params_48k_stereo();
    let mut buf = SampleBuffer::new();
    let mut rec: Vec<i16> = Vec::new();

    feed(&mut buf, &mut rec, &const_frames(500, 3080, 2), false, &p);
    assert_eq!(buf.frames_len(2), 3080);
    for _ in 0..6 {
        get_next_frame_batch(&mut buf, 2, 480);
    }
    assert_eq!(buf.frames_len(2), 200);

    // Loss with only 200 frames (< 480) queued: the buffer is cleared
    // entirely, no batch is retained, and the new samples sit unfaded in the
    // recovery accumulator.
    feed(&mut buf, &mut rec, &const_frames(700, 100, 2), true, &p);
    assert_eq!(buf.len(), 0);
    assert_eq!(rec.len(), 200);
    assert!(rec.iter().all(|&s| s == 700));

    // The next large packet completes recovery under a fade-in alone: no
    // crossfade, because nothing was retained.
    feed(&mut buf, &mut rec, &const_frames(800, 2900, 2), false, &p);
    assert_eq!(buf.frames_len(2), 3000);
    assert_eq!(rec.len(), 0);
    assert_eq!(buf.get(0), 0); // volume 0 at the ramp start
    assert_eq!(buf.get(2), 700 / 480); // frame 1 still holds the old 700s
    assert_eq!(buf.get(2 * 200) as i64, 800i64 * 200 / 480); // frame 200 is new data
    assert_eq!(buf.get(2 * 480), 800); // past the ramp: full volume
}

#[test]
fn scenario_loss_with_deep_buffer_truncates_and_crossfades() {
    let p = params_48k_stereo();
    let mut buf = SampleBuffer::new();
    let mut rec: Vec<i16> = Vec::new();

    feed(&mut buf, &mut rec, &const_frames(8000, 2920, 2), false, &p);
    for _ in 0..4 {
        get_next_frame_batch(&mut buf, 2, 480);
    }
    assert_eq!(buf.frames_len(2), 1000);

    // Loss with 1000 frames (>= 480) queued: the buffer is truncated to
    // exactly one batch; the next sufficiently large packet crossfades that
    // retained batch (fading out) with the recovery data (fading in).
    feed(&mut buf, &mut rec, &const_frames(-4000, 2900, 2), true, &p);
    assert_eq!(buf.frames_len(2), 2900);
    assert_eq!(rec.len(), 0);
    for f in 0..480usize {
        let fading_in = -((4000 * f as i64) / 480) as i16;
        let fading_out = ((8000 * (480 - f as i64)) / 480) as i16;
        let expected = fading_in + fading_out;
        assert_eq!(buf.get(2 * f), expected, "frame {f}");
        assert_eq!(buf.get(2 * f + 1), expected, "frame {f}");
    }
    assert_eq!(buf.get(2 * 480), -4000); // past the crossfade: new data only
}

#[test]
fn starved_renderer_returns_silence_and_keeps_buffer() {
    let mut buf = SampleBuffer::new();
    let batch = get_next_frame_batch(&mut buf, 2, 480);
    assert_eq!(batch.len(), 960);
    assert!(batch.iter().all(|&s| s == 0));
    assert_eq!(buf.len(), 0);

    let p = params_48k_stereo();
    let mut rec: Vec<i16> = Vec::new();
    feed(&mut buf, &mut rec, &const_frames(300, 3080, 2), false, &p);
    for _ in 0..6 {
        get_next_frame_batch(&mut buf, 2, 480);
    }
    assert_eq!(buf.frames_len(2), 200);
    // Fewer than one batch queued: silence, and the 200 frames stay put.
    let batch = get_next_frame_batch(&mut buf, 2, 480);
    assert!(batch.iter().all(|&s| s == 0));
    assert_eq!(buf.frames_len(2), 200);
}

#[test]
fn renderer_fades_out_second_to_last_batch() {
    let p = params_48k_stereo();
    let mut buf = SampleBuffer::new();
    let mut rec: Vec<i16> = Vec::new();
    feed(&mut buf, &mut rec, &const_frames(960, 2960, 2), false, &p);
    // Pull down to 560 frames; removing 480 of those leaves 80 < 480, so
    // that batch comes back faded out.
    get_next_frame_batch(&mut buf, 2, 480); // the faded-in head batch
    for _ in 0..4 {
        let batch = get_next_frame_batch(&mut buf, 2, 480);
        assert_eq!(batch[958], 960); // full volume while enough lead remains
    }
    assert_eq!(buf.frames_len(2), 560);
    let batch = get_next_frame_batch(&mut buf, 2, 480);
    assert_eq!(batch[0], 960); // fade-out starts at full volume
    assert_eq!(batch[958], 960 / 480); // and ends just above silence
    assert_eq!(buf.frames_len(2), 80);
}

#[test]
fn no_loss_on_deep_buffer_never_touches_recovery() {
    let p = params_48k_stereo();
    let mut buf = SampleBuffer::new();
    let mut rec: Vec<i16> = Vec::new();
    feed(&mut buf, &mut rec, &const_frames(100, 3000, 2), false, &p);
    assert_eq!(rec.len(), 0);
    // Deep buffer, no loss: packets append directly, the recovery
    // accumulator stays empty even across the overflow path.
    feed(&mut buf, &mut rec, &const_frames(100, 2500, 2), false, &p);
    assert_eq!(rec.len(), 0);
    assert_eq!(buf.frames_len(2), 2400); // 5500 > 5280 overflowed to 2400
}

#[test]
fn queued_depth_never_exceeds_overflow_bound() {
    let p = params_48k_stereo();
    let mut buf = SampleBuffer::new();
    let mut rec: Vec<i16> = Vec::new();
    for round in 0..10 {
        let value = (round * 11) as i16;
        feed(&mut buf, &mut rec, &const_frames(value, 900, 2), false, &p);
        assert!(buf.frames_len(2) <= 2 * 2400 + 480, "round {round}");
    }
}

#[test]
fn round_trip_through_converter_and_pipeline() {
    let p = params_48k_stereo();
    let mut buf = SampleBuffer::new();
    let mut rec: Vec<i16> = Vec::new();

    // Buffered lead time: 3000 frames already queued.
    feed(&mut buf, &mut rec, &const_frames(123, 3000, 2), false, &p);

    // A mono capture chunk of 2000 frames runs through the sample converter
    // (mono to stereo) and the transport mock (no loss).
    let capture: Vec<i16> = (0..2000).map(|i| (i - 1000) as i16).collect();
    let capture_bytes = encode_samples(&capture);
    let wire = convert_channels_count(capture_bytes, 1, 2);
    process_packet(&mut buf, &mut rec, &wire, false, &p);
    assert_eq!(buf.frames_len(2), 5000);

    // Pull past the lead; the seventh batch crosses into the chunk region.
    for _ in 0..6 {
        let batch = get_next_frame_batch(&mut buf, 2, 480);
        // Lead audio only: the faded-in head ramps up to 123, the rest is
        // the constant lead value.
        assert!(batch.iter().all(|&s| (0..=123).contains(&s)));
    }
    let batch = get_next_frame_batch(&mut buf, 2, 480);
    // Frames 0..120 of this batch are the tail of the lead; frames 120..480
    // reproduce capture[0..360] exactly, duplicated into both channels.
    for f in 120..480usize {
        let expected = capture[f - 120];
        assert_eq!(batch[2 * f], expected, "frame {f}");
        assert_eq!(batch[2 * f + 1], expected, "frame {f}");
    }
}

#[test]
fn wire_codec_round_trip_exact() {
    let samples: Vec<i16> = vec![0, 1, -1, 32767, -32768, 12345, -12345, 256, -257];
    let bytes = encode_samples(&samples);
    assert_eq!(bytes.len(), samples.len() * 2);
    assert_eq!(decode_packet(&bytes), samples);
}

#[test]
fn decode_ignores_trailing_odd_byte() {
    let decoded = decode_packet(&[0x34, 0x12, 0xff]);
    assert_eq!(decoded, vec![0x1234]);
}

#[test]
fn decode_is_little_endian_two_complement() {
    assert_eq!(decode_packet(&[0x00, 0x80]), vec![-32768]);
    assert_eq!(decode_packet(&[0xff, 0x7f]), vec![32767]);
    assert_eq!(decode_packet(&[0xfe, 0xff]), vec![-2]);
}

#[test]
fn converter_duplicates_mono_into_stereo() {
    // Two mono frames: 0x0201 and 0x0403.
    let out = convert_channels_count(vec![1, 2, 3, 4], 1, 2);
    assert_eq!(out, vec![1, 2, 1, 2, 3, 4, 3, 4]);
}

#[test]
fn converter_keeps_first_channel_of_stereo() {
    // Two stereo frames; the second channel of each is discarded.
    let out = convert_channels_count(vec![1, 2, 3, 4, 5, 6, 7, 8], 2, 1);
    assert_eq!(out, vec![1, 2, 5, 6]);
}

#[test]
fn converter_passes_matching_channels_through() {
    let out = convert_channels_count(vec![9, 8, 7, 6], 2, 2);
    assert_eq!(out, vec![9, 8, 7, 6]);
}

#[test]
fn more_than_two_channels_is_a_fatal_config_error() {
    assert!(check_channels_count(1).is_ok());
    assert!(check_channels_count(2).is_ok());
    let err = check_channels_count(3).unwrap_err();
    assert!(!err.message().is_empty());
}

#[test]
fn fade_ramp_endpoints_and_monotonicity() {
    assert_eq!(scale_sample(1000, 0, 480), 0);
    assert_eq!(scale_sample(1000, 480, 480), 1000);
    assert_eq!(scale_sample(-1000, 0, 480), 0);
    assert_eq!(scale_sample(-1000, 480, 480), -1000);
    let mut previous = 0i16;
    for k in 0..=480usize {
        let v = scale_sample(1000, k, 480);
        assert!(v >= previous, "ramp position {k}");
        previous = v;
    }
}

#[test]
fn crossfade_hears_exactly_one_source_at_each_end() {
    assert_eq!(mix_sample(111, -222, 0, 480), -222);
    assert_eq!(mix_sample(111, -222, 480, 480), 111);
    // Crossfading a constant signal with itself stays within one
    // quantization step of it at every ramp position.
    for k in 0..=480usize {
        let v = mix_sample(1000, 1000, k, 480);
        assert!((998..=1000).contains(&(v as i32)), "ramp position {k}");
    }
}

#[test]
fn streaming_source_cycles_batches_one_sample_at_a_time() {
    let p = BufferingParams {
        channels_count: 1,
        batch_frames_count: 2,
        average_buffer_frames_count: 8,
    };
    let mut buf = SampleBuffer::new();
    let mut rec: Vec<i16> = Vec::new();
    let bytes = encode_samples(&[10, 20, 30, 40]);
    // 4 frames < average + batch: parked in recovery; top it up.
    process_packet(&mut buf, &mut rec, &bytes, false, &p);
    let more = encode_samples(&[50, 60, 70, 80, 90, 100, 110]);
    process_packet(&mut buf, &mut rec, &more, false, &p);
    assert_eq!(buf.frames_len(1), 11);

    let mut source = StreamingSource::new(1, 48000, 2);
    let mut played: Vec<i16> = Vec::new();
    for _ in 0..12 {
        played.push(source.next_sample(&mut buf));
    }
    // The fade-in spans the first batch (2 frames): 10*0/2 = 0, 20*1/2 = 10.
    assert_eq!(&played[0..2], &[0, 10]);
    // Steady region: untouched samples, pulled two at a time.
    assert_eq!(&played[2..8], &[30, 40, 50, 60, 70, 80]);
    // The batch whose removal empties the lead fades out; after that only
    // one frame remains, not enough for a batch, so silence follows.
    assert_eq!(&played[8..10], &[90, 100 / 2]);
    assert_eq!(&played[10..12], &[0, 0]);
    assert_eq!(buf.frames_len(1), 1);
}
