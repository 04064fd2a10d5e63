use chronicle::audio::accumulator::{SegmentAccumulator, SegmentJob};
use chronicle::audio::characterize::characterize_buffer;
use chronicle::audio::device::{escape, render_fields, InputDevice};
use chronicle::audio::drops::{
    count_system_drop, send_audio, AudioDropCounters, AudioDropSnapshot, AudioSourceKind,
    DropCause,
};
use chronicle::audio::encoder::{OggOpusEncoder, SetUpFailure};
use chronicle::audio::engine::{
    microphone_flushed, microphone_started, microphone_stopped, set_microphone_enabled,
    EncodingLoop, MicToggleOutcome, MicToggleStep, Phase, PipelineParts,
};
use chronicle::audio::handler::{
    bytes_to_f32_samples, deliver, source_from_output_type, AudioBuffer, AudioMessage,
    StreamOutput,
};
use chronicle::audio::microphone::{
    characterization_input_check, common_format_name, convert_to_mono_samples,
    extract_channels, extract_channels_from_planes, mono_samples, output_capacity,
    readable_plane, start_failed, CommonFormat, Conversion, ConversionOutcome, InputFeed,
    InputStatus, MixEligibility, NativeFormat, SetupStep,
};
use chronicle::audio::{
    segment_path, AudioConfig, AudioError, AudioSource, CompletedSegment, SAMPLE_RATE,
};

// --- accumulator -----------------------------------------------------------

const RATE: u32 = 48_000;
const SEGMENT_SECS: u32 = 1;
const SAMPLES_PER_SEGMENT: usize = RATE as usize * SEGMENT_SECS as usize;

fn make_accumulator(dir: &str) -> SegmentAccumulator<f32> {
    SegmentAccumulator::new(AudioSource::Microphone, RATE, SEGMENT_SECS, dir)
}

fn make_silence(num_samples: usize) -> Vec<f32> {
    vec![0.0_f32; num_samples]
}

fn duration_ms(samples: usize) -> i64 {
    (samples as f64 / RATE as f64 * 1000.0) as i64
}

/// Writes every segment that is handed out, as an encoder that never fails does.
fn drain(
    acc: &mut SegmentAccumulator<f32>,
    first: Option<SegmentJob<f32>>,
    done: &mut Vec<CompletedSegment>,
) {
    let mut next = first;
    while let Some(job) = next {
        let lasted = duration_ms(job.samples.len());
        done.push(job.completed(lasted));
        next = acc.encoded();
    }
}

fn push(
    acc: &mut SegmentAccumulator<f32>,
    samples: &[f32],
    timestamp_ms: i64,
    done: &mut Vec<CompletedSegment>,
) {
    let buffered = duration_ms(acc.buffer.len());
    let job = acc.push(samples, timestamp_ms, buffered);
    drain(acc, job, done);
}

fn flush(acc: &mut SegmentAccumulator<f32>, done: &mut Vec<CompletedSegment>) {
    let job = acc.flush();
    drain(acc, job, done);
}

#[test]
fn accumulator_flushes_at_boundary() {
    let mut done = Vec::new();
    let mut acc = make_accumulator("/data/staging");

    let timestamp_ms = 1_700_000_000_000_i64;
    let samples = make_silence(SAMPLES_PER_SEGMENT);

    push(&mut acc, &samples, timestamp_ms, &mut done);

    assert_eq!(done.len(), 1, "should have received one segment and no more");
    let segment = &done[0];
    assert_eq!(segment.source, AudioSource::Microphone);
    assert_eq!(segment.start_timestamp, timestamp_ms);
    let expected_end = timestamp_ms + 1000;
    assert_eq!(segment.end_timestamp, expected_end);
    assert_eq!(segment.path, "/data/staging/1700000000000_mic.opus");
}

#[test]
fn accumulator_partial_flush_on_stop() {
    let mut done = Vec::new();
    let mut acc = make_accumulator("/data/staging");

    let timestamp_ms = 1_700_000_000_000_i64;
    let samples = make_silence(SAMPLES_PER_SEGMENT / 2);

    push(&mut acc, &samples, timestamp_ms, &mut done);
    assert!(done.is_empty(), "should not produce a segment before boundary");

    flush(&mut acc, &mut done);

    assert_eq!(done.len(), 1, "flush should produce a partial segment");
    let segment = &done[0];
    assert_eq!(segment.source, AudioSource::Microphone);
    assert_eq!(segment.start_timestamp, timestamp_ms);
    let expected_end = timestamp_ms + 500;
    assert_eq!(segment.end_timestamp, expected_end);
    assert_eq!(segment.path, "/data/staging/1700000000000_mic.opus");
}

#[test]
fn gap_in_timestamps_starts_a_new_segment() {
    let mut done = Vec::new();
    let mut acc = make_accumulator("/tmp");

    let t = 1_700_000_000_000_i64;
    let half_segment = make_silence(SAMPLES_PER_SEGMENT / 2);

    push(&mut acc, &half_segment, t, &mut done);
    push(&mut acc, &half_segment, t + 10_000, &mut done);
    flush(&mut acc, &mut done);

    assert_eq!(done.len(), 2, "no further segments expected after the gap");
    assert_eq!(done[0].start_timestamp, t);
    assert_eq!(done[0].end_timestamp, t + 500);
    assert_eq!(done[1].start_timestamp, t + 10_000);
}

#[test]
fn small_timestamp_advance_does_not_split() {
    let mut done = Vec::new();
    let mut acc = make_accumulator("/tmp");

    let t = 1_700_000_000_000_i64;
    let half_segment = make_silence(SAMPLES_PER_SEGMENT / 2);
    let quarter_segment = make_silence(SAMPLES_PER_SEGMENT / 4);

    push(&mut acc, &half_segment, t, &mut done);
    push(&mut acc, &quarter_segment, t + 1_000, &mut done);
    flush(&mut acc, &mut done);

    assert_eq!(done.len(), 1, "small advance must not split into two segments");
    assert_eq!(done[0].start_timestamp, t);
}

#[test]
fn gapped_segment_end_timestamp_reflects_buffered_duration() {
    let mut done = Vec::new();
    let mut acc = make_accumulator("/tmp");

    let t = 1_700_000_000_000_i64;
    let half_segment = make_silence(SAMPLES_PER_SEGMENT / 2);

    push(&mut acc, &half_segment, t, &mut done);
    push(&mut acc, &half_segment, t + 60_000, &mut done);

    assert_eq!(done.len(), 1, "first partial should be auto-flushed on gap");
    assert_eq!(done[0].start_timestamp, t);
    assert_eq!(done[0].end_timestamp, t + 500);
}

#[test]
fn accumulator_handles_multiple_segments() {
    let mut done = Vec::new();
    let mut acc = make_accumulator("/tmp");

    let timestamp_ms = 1_700_000_000_000_i64;
    let samples = make_silence(SAMPLES_PER_SEGMENT * 2 + SAMPLES_PER_SEGMENT / 2);

    push(&mut acc, &samples, timestamp_ms, &mut done);

    assert_eq!(done.len(), 2, "no third segment before flush");
    assert_eq!(done[0].start_timestamp, timestamp_ms);
    assert_eq!(done[0].end_timestamp, timestamp_ms + 1000);
    assert_eq!(done[1].start_timestamp, timestamp_ms + 1000);
    assert_eq!(done[1].end_timestamp, timestamp_ms + 2000);

    flush(&mut acc, &mut done);

    assert_eq!(done.len(), 3, "flush should produce third partial segment");
    assert_eq!(done[2].start_timestamp, timestamp_ms + 2000);
    assert_eq!(done[2].end_timestamp, timestamp_ms + 2500);
}

#[test]
fn a_jump_of_exactly_the_threshold_does_not_split() {
    let mut done = Vec::new();
    let mut acc = make_accumulator("/tmp");
    let half_segment = make_silence(SAMPLES_PER_SEGMENT / 2);

    push(&mut acc, &half_segment, 0, &mut done);
    push(&mut acc, &half_segment[..4], 2_500, &mut done);
    assert!(done.is_empty());
    push(&mut acc, &half_segment[..4], 2_501, &mut done);
    assert_eq!(done.len(), 1, "one past the threshold splits");
    assert_eq!(done[0].end_timestamp, 500);
}

#[test]
fn every_sample_is_handed_out_in_order() {
    let mut acc: SegmentAccumulator<u32> =
        SegmentAccumulator::new(AudioSource::System, 4, 2, "/tmp");
    let samples: Vec<u32> = (0..21).collect();
    let mut seen: Vec<u32> = Vec::new();
    let mut next = acc.push(&samples, 0, 0);
    let mut lengths = Vec::new();
    while let Some(job) = next {
        lengths.push(job.samples.len());
        seen.extend(job.samples);
        next = acc.encoded();
    }
    assert_eq!(lengths, vec![8, 8]);
    let last = acc.flush().expect("five samples are left");
    assert_eq!(last.start_ms, 4_000);
    seen.extend(last.samples);
    assert_eq!(seen, samples);
    assert!(acc.encoded().is_none());
    assert!(acc.flush().is_none(), "nothing is left");
}

#[test]
fn a_segment_that_could_not_be_written_is_given_up() {
    let mut acc: SegmentAccumulator<u32> =
        SegmentAccumulator::new(AudioSource::System, 4, 1, "/tmp");
    let job = acc.push(&[1, 2, 3, 4, 5], 0, 0).expect("a full segment");
    assert_eq!(job.samples, vec![1, 2, 3, 4]);
    acc.encode_failed();
    let last = acc.flush().expect("the rest is still there");
    assert_eq!(last.samples, vec![5]);
}

// --- device ----------------------------------------------------------------

fn device(name: Option<&str>, uid: Option<&str>) -> InputDevice {
    InputDevice {
        name: name.map(str::to_string),
        uid: uid.map(str::to_string),
    }
}

#[test]
fn renders_both_fields_when_both_are_present() {
    assert_eq!(
        render_fields(&device(Some("Yeti Stereo Microphone"), Some("UID-1"))),
        r#"device_name="Yeti Stereo Microphone" device_uid="UID-1""#
    );
}

#[test]
fn renders_unknown_for_a_missing_name_only() {
    assert_eq!(
        render_fields(&device(None, Some("UID-1"))),
        r#"device_name="unknown" device_uid="UID-1""#
    );
}

#[test]
fn renders_unknown_for_a_missing_uid_only() {
    assert_eq!(
        render_fields(&device(Some("Yeti"), None)),
        r#"device_name="Yeti" device_uid="unknown""#
    );
}

#[test]
fn renders_both_fields_when_neither_is_present() {
    assert_eq!(
        render_fields(&device(None, None)),
        r#"device_name="unknown" device_uid="unknown""#
    );
}

#[test]
fn escapes_a_quote_in_a_device_name() {
    assert_eq!(
        render_fields(&device(Some(r#"a"b"#), None)),
        r#"device_name="a\"b" device_uid="unknown""#
    );
}

#[test]
fn escapes_a_backslash_once() {
    assert_eq!(
        render_fields(&device(Some(r"a\b"), None)),
        r#"device_name="a\\b" device_uid="unknown""#
    );
}

#[test]
fn a_name_with_newlines_renders_on_one_line() {
    let rendered = render_fields(&device(Some("a\r\nb"), None));
    assert!(!rendered.contains('\n'), "rendered: {rendered}");
    assert!(!rendered.contains('\r'), "rendered: {rendered}");
    assert_eq!(rendered, r#"device_name="a\r\nb" device_uid="unknown""#);
}

#[test]
fn an_empty_name_is_distinct_from_a_missing_one() {
    assert_eq!(
        render_fields(&device(Some(""), None)),
        r#"device_name="" device_uid="unknown""#
    );
}

#[test]
fn escapes_a_tab_in_a_device_name() {
    assert_eq!(
        render_fields(&device(Some("a\tb"), None)),
        r#"device_name="a\tb" device_uid="unknown""#
    );
}

#[test]
fn escapes_a_control_character_outside_the_named_set() {
    assert_eq!(
        render_fields(&device(Some("a\u{1}b"), None)),
        r#"device_name="a\u{0001}b" device_uid="unknown""#
    );
}

#[test]
fn escapes_the_uid_field_too() {
    assert_eq!(
        render_fields(&device(None, Some(r#"a"b"#))),
        r#"device_name="unknown" device_uid="a\"b""#
    );
}

#[test]
fn escaping_tells_texts_apart() {
    assert_eq!(escape("a\\n"), "a\\\\n");
    assert_eq!(escape("a\n"), "a\\n");
    assert_eq!(escape("\u{9f}"), "\\u{009f}");
    assert_eq!(escape("é\u{2028}"), "é\u{2028}");
}

// --- drops -----------------------------------------------------------------

#[test]
fn snapshot_reads_every_field() {
    let mut c = AudioDropCounters::default();
    c.mic_full += 3;
    c.mic_closed += 1;
    c.mic_convert_failed += 4;
    c.system_full += 2;
    c.system_closed += 5;

    let s = c.snapshot();

    assert_eq!(s.mic_full, 3);
    assert_eq!(s.mic_closed, 1);
    assert_eq!(s.mic_convert_failed, 4);
    assert_eq!(s.system_full, 2);
    assert_eq!(s.system_closed, 5);
}

/// How a channel takes a value, in the library's terms.
fn offer(tx: &std::sync::mpsc::SyncSender<u8>, value: u8) -> Result<(), DropCause> {
    match tx.try_send(value) {
        Ok(()) => Ok(()),
        Err(std::sync::mpsc::TrySendError::Full(_)) => Err(DropCause::Full),
        Err(std::sync::mpsc::TrySendError::Disconnected(_)) => Err(DropCause::Closed),
    }
}

#[test]
fn send_audio_counts_each_source_and_cause_separately() {
    let mut c = AudioDropCounters::default();

    let (tx, rx) = std::sync::mpsc::sync_channel::<u8>(1);
    send_audio(offer(&tx, 1), &mut c, AudioSourceKind::System);
    assert_eq!(c.snapshot(), AudioDropSnapshot::default());

    send_audio(offer(&tx, 2), &mut c, AudioSourceKind::System);
    assert_eq!(c.snapshot().system_full, 1);
    send_audio(offer(&tx, 3), &mut c, AudioSourceKind::Microphone);
    assert_eq!(c.snapshot().mic_full, 1);
    assert_eq!(c.snapshot().system_full, 1, "mic must not bump system");

    drop(rx);
    send_audio(offer(&tx, 4), &mut c, AudioSourceKind::System);
    assert_eq!(c.snapshot().system_closed, 1);
    send_audio(offer(&tx, 5), &mut c, AudioSourceKind::Microphone);
    assert_eq!(c.snapshot().mic_closed, 1);

    let s = c.snapshot();
    assert_eq!(
        (s.system_full, s.system_closed, s.mic_full, s.mic_closed),
        (1, 1, 1, 1)
    );
    assert_eq!(s.mic_convert_failed, 0);
}

#[test]
fn snapshot_of_fresh_counters_is_all_zero() {
    assert_eq!(
        AudioDropCounters::default().snapshot(),
        AudioDropSnapshot::default()
    );
}

#[test]
fn a_counter_wraps_around() {
    let mut c = AudioDropCounters {
        system_full: u64::MAX,
        ..AudioDropCounters::default()
    };
    count_system_drop(&mut c, DropCause::Full);
    assert_eq!(c.system_full, 0);
}

// --- encoder ---------------------------------------------------------------

/// Stands for the codec: a packet whose bytes are a frame's first sample.
fn packets_for(frames: &[Vec<u8>]) -> Vec<Vec<u8>> {
    frames.iter().map(|f| vec![0xfc, f[0], 0xfe]).collect()
}

fn read_packets(file: Vec<u8>) -> Vec<(Vec<u8>, u64)> {
    let mut reader = ogg::PacketReader::new(std::io::Cursor::new(file));
    let mut out = Vec::new();
    while let Some(packet) = reader.read_packet().unwrap() {
        out.push((packet.data.clone(), packet.absgp_page()));
    }
    out
}

#[test]
fn encode_silence_produces_valid_ogg_file() {
    let encoder = OggOpusEncoder::new(48_000, 1, 64_000);
    let frames = OggOpusEncoder::frames(&vec![0u8; 48_000], 0);
    let data = encoder.mux(packets_for(&frames));

    assert!(!data.is_empty(), "file should not be empty");
    assert_eq!(
        &data[..4],
        b"OggS",
        "file should start with Ogg capture pattern"
    );
}

#[test]
fn encode_decode_round_trip_preserves_sample_count() {
    let encoder = OggOpusEncoder::new(48_000, 1, 64_000);
    let frames = OggOpusEncoder::frames(&vec![0u8; 48_000], 0);
    let file = encoder.mux(packets_for(&frames));

    let packet_count = read_packets(file).len();
    assert_eq!(
        packet_count, 52,
        "expected 2 header packets + 50 audio packets, got {packet_count}"
    );
}

#[test]
fn encode_short_segment_works() {
    let encoder = OggOpusEncoder::new(48_000, 1, 64_000);
    let frames = OggOpusEncoder::frames(&vec![0u8; 500], 0);
    assert_eq!(frames.len(), 1, "less than one frame");
    let data = encoder.mux(packets_for(&frames));

    assert!(!data.is_empty(), "file should not be empty");
    assert_eq!(
        &data[..4],
        b"OggS",
        "file should start with Ogg capture pattern"
    );
}

#[test]
fn a_file_holds_its_headers_and_every_packet() {
    let encoder = OggOpusEncoder::new(48_000, 2, 64_000);
    let samples: Vec<u8> = (0..2_000u32).map(|i| (i / 960 + 7) as u8).collect();
    let frames = OggOpusEncoder::frames(&samples, 0);
    assert_eq!(frames.len(), 3);
    assert!(frames.iter().all(|f| f.len() == 960));
    assert_eq!(frames[2][79], 9);
    assert_eq!(frames[2][80], 0, "padded with silence");

    let read = read_packets(encoder.mux(packets_for(&frames)));
    assert_eq!(read.len(), 5);
    assert_eq!(
        read[0].0,
        vec![
            b'O', b'p', b'u', b's', b'H', b'e', b'a', b'd', 1, 2, 0, 0, 0x80, 0xbb, 0, 0, 0, 0, 0
        ]
    );
    let mut tags = b"OpusTags".to_vec();
    tags.extend([15, 0, 0, 0]);
    tags.extend(b"chronicle-audio");
    tags.extend([0, 0, 0, 0]);
    assert_eq!(read[1].0, tags);
    assert_eq!(read[2].0, vec![0xfc, 7, 0xfe]);
    assert_eq!(read[3].0, vec![0xfc, 8, 0xfe]);
    assert_eq!(read[4].0, vec![0xfc, 9, 0xfe]);
    assert_eq!(read[4].1, 3 * 960, "the last page counts every frame");
}

#[test]
fn a_file_without_audio_holds_its_headers() {
    let encoder = OggOpusEncoder::new(48_000, 1, 64_000);
    assert!(OggOpusEncoder::frames::<u8>(&[], 0).is_empty());
    assert_eq!(read_packets(encoder.mux(Vec::new())).len(), 2);
}

/// A codec that notes its set-up and the first sample of each frame.
type Noted = Vec<u32>;

fn set_up(mut noted: Noted, channels: u8, bitrate: u32) -> (Noted, Result<(), SetUpFailure>) {
    noted.push(channels as u32);
    noted.push(bitrate);
    (noted, Ok(()))
}

#[test]
fn a_file_is_encoded_frame_by_frame() {
    let encoder = OggOpusEncoder::new(48_000, 1, 64_000);
    let samples: Vec<u8> = (0..2_000).map(|n| (n / 960) as u8 + 1).collect();
    let codec = |mut noted: Noted, frame: &[u8]| {
        noted.push(frame[0] as u32);
        (noted, Ok(vec![frame[0], frame[79], frame[80]]))
    };
    let (noted, file) = encoder.encode_to_writer(&samples, 0, Noted::new(), set_up, codec);
    assert_eq!(file.unwrap(), encoder.mux(vec![vec![1, 1, 1], vec![2, 2, 2], vec![3, 3, 0]]));
    assert_eq!(noted, [1, 64_000, 1, 2, 3], "every frame is encoded once, in order");
}

#[test]
fn a_codec_that_fails_ends_the_encoding() {
    let encoder = OggOpusEncoder::new(48_000, 1, 64_000);
    let samples: Vec<u8> = (0..2_880).map(|n| (n / 960) as u8).collect();
    let codec = |mut noted: Noted, frame: &[u8]| {
        noted.push(frame[0] as u32);
        let packet = if frame[0] == 0 {
            Ok(vec![7])
        } else {
            Err("internal error".to_string())
        };
        (noted, packet)
    };
    let (noted, file) = encoder.encode_to_writer(&samples, 0, Noted::new(), set_up, codec);
    assert_eq!(
        file.unwrap_err().message(),
        "encoding error: encode frame 1: internal error"
    );
    assert_eq!(noted, [1, 64_000, 0, 1]);

    let surround = OggOpusEncoder::new(48_000, 6, 64_000);
    let (noted, file) = surround.encode_to_writer(&samples, 0, Noted::new(), set_up, codec);
    assert_eq!(
        file.unwrap_err().message(),
        "encoding error: unsupported channel count: 6"
    );
    assert!(noted.is_empty());

    for (failure, words) in [
        (
            SetUpFailure::Create("no memory".to_string()),
            "encoding error: opus encoder create: no memory",
        ),
        (
            SetUpFailure::Bitrate("bad argument".to_string()),
            "encoding error: set bitrate: bad argument",
        ),
    ] {
        let refused = |noted: Noted, _: u8, _: u32| (noted, Err(failure.clone()));
        let (noted, file) = encoder.encode_to_writer(&samples, 0, Noted::new(), refused, codec);
        assert_eq!(file.unwrap_err().message(), words);
        assert!(noted.is_empty());
    }
}

#[test]
fn only_mono_and_stereo_can_be_encoded() {
    assert_eq!(OggOpusEncoder::new(48_000, 1, 1).opus_channels().unwrap(), 1);
    assert_eq!(OggOpusEncoder::new(48_000, 2, 1).opus_channels().unwrap(), 2);
    let err = OggOpusEncoder::new(48_000, 6, 1).opus_channels().unwrap_err();
    assert_eq!(err.message(), "encoding error: unsupported channel count: 6");
}

// --- engine ----------------------------------------------------------------

fn config(segment_duration_secs: u32) -> AudioConfig {
    AudioConfig {
        segment_duration_secs,
        bitrate: 64_000,
        output_dir: "/data/staging".to_string(),
    }
}

fn buffer(samples: usize, timestamp_ms: i64, source: AudioSource) -> AudioMessage<f32> {
    AudioMessage::Buffer(AudioBuffer {
        samples: vec![0.0_f32; samples],
        timestamp_ms,
        source,
    })
}

/// Writes what the loop hands out, until it waits for something else.
fn write_all(
    encoding: &mut EncodingLoop<f32>,
    first: Option<SegmentJob<f32>>,
    done: &mut Vec<CompletedSegment>,
) {
    let mut next = first;
    while let Some(job) = next {
        let lasted = duration_ms(job.samples.len());
        done.push(job.completed(lasted));
        next = encoding.segment_finished(true);
    }
}

fn receive(
    encoding: &mut EncodingLoop<f32>,
    message: AudioMessage<f32>,
    done: &mut Vec<CompletedSegment>,
) {
    let buffered = match &message {
        AudioMessage::Buffer(b) => match b.source {
            AudioSource::Microphone => duration_ms(encoding.mic.buffer.len()),
            AudioSource::System => duration_ms(encoding.system.buffer.len()),
        },
        _ => 0,
    };
    let job = encoding.message(message, buffered);
    write_all(encoding, job, done);
}

fn close(encoding: &mut EncodingLoop<f32>, done: &mut Vec<CompletedSegment>) {
    let job = encoding.disconnect();
    write_all(encoding, job, done);
    assert_eq!(encoding.phase, Phase::Finished);
}

#[test]
fn encoding_loop_dispatches_buffers_to_correct_accumulator() {
    let mut encoding = EncodingLoop::<f32>::new(&config(1));
    let mut done = Vec::new();
    let timestamp = 1_700_000_000_000_i64;

    receive(&mut encoding, buffer(48_000, timestamp, AudioSource::Microphone), &mut done);
    receive(&mut encoding, buffer(48_000, timestamp, AudioSource::System), &mut done);
    close(&mut encoding, &mut done);

    let mic: Vec<_> = done.iter().filter(|s| s.source == AudioSource::Microphone).collect();
    let sys: Vec<_> = done.iter().filter(|s| s.source == AudioSource::System).collect();
    assert_eq!(mic.len(), 1, "expected 1 mic segment");
    assert_eq!(sys.len(), 1, "expected 1 system segment");
    assert_eq!(mic[0].path, "/data/staging/1700000000000_mic.opus");
    assert_eq!(sys[0].path, "/data/staging/1700000000000_system.opus");
}

#[test]
fn encoding_loop_flushes_partial_segments_on_shutdown() {
    let mut encoding = EncodingLoop::<f32>::new(&config(1));
    let mut done = Vec::new();
    let timestamp = 1_700_000_000_000_i64;

    receive(&mut encoding, buffer(24_000, timestamp, AudioSource::Microphone), &mut done);
    assert!(done.is_empty());
    close(&mut encoding, &mut done);

    assert_eq!(done.len(), 1, "expected 1 partial segment from flush");
    assert_eq!(done[0].source, AudioSource::Microphone);
}

#[test]
fn flush_request_finalizes_partial_mic_segment() {
    let mut encoding = EncodingLoop::<f32>::new(&config(30));
    let mut done = Vec::new();
    let timestamp = 1_700_000_000_000_i64;

    receive(&mut encoding, buffer(24_000, timestamp, AudioSource::Microphone), &mut done);
    receive(&mut encoding, AudioMessage::FlushMic, &mut done);

    assert_eq!(done.len(), 1);
    assert_eq!(done[0].source, AudioSource::Microphone);
    assert_eq!(done[0].start_timestamp, timestamp);
    assert_eq!(done[0].end_timestamp, timestamp + 500);

    close(&mut encoding, &mut done);
    assert_eq!(done.len(), 1, "no extra segment expected from shutdown flush");
}

#[test]
fn flush_request_finalizes_partial_system_segment() {
    let mut encoding = EncodingLoop::<f32>::new(&config(30));
    let mut done = Vec::new();
    let timestamp = 1_700_000_000_000_i64;

    receive(&mut encoding, buffer(24_000, timestamp, AudioSource::System), &mut done);
    receive(&mut encoding, AudioMessage::FlushSystem, &mut done);

    assert_eq!(done.len(), 1);
    assert_eq!(done[0].source, AudioSource::System);
    assert_eq!(done[0].start_timestamp, timestamp);
    assert_eq!(done[0].end_timestamp, timestamp + 500);

    close(&mut encoding, &mut done);
    assert_eq!(done.len(), 1, "no extra segment expected from shutdown flush");
}

#[test]
fn encoding_loop_exits_cleanly_with_no_buffers() {
    let mut encoding = EncodingLoop::<f32>::new(&config(1));
    let mut done = Vec::new();
    close(&mut encoding, &mut done);
    assert!(done.is_empty(), "no segments expected when no buffers sent");
}

#[test]
fn a_failed_segment_does_not_end_the_loop() {
    let mut encoding = EncodingLoop::<f32>::new(&config(1));
    let mut done = Vec::new();
    let job = encoding.message(buffer(48_000, 0, AudioSource::Microphone), 0);
    assert!(job.is_some());
    assert_eq!(encoding.phase, Phase::Encoding(AudioSource::Microphone));
    assert!(encoding.segment_finished(false).is_none());
    assert_eq!(encoding.phase, Phase::Receiving);
    receive(&mut encoding, buffer(48_000, 0, AudioSource::System), &mut done);
    assert_eq!(done.len(), 1);
}

#[test]
fn stop_shuts_down_encoding_thread() {
    let mut parts = PipelineParts::create(true);
    assert!(parts.left_running());
    assert!(parts.stop(), "there is a thread to wait for");
    assert!(!parts.stop(), "and only once");
    assert!(!parts.left_running());
    assert!(PipelineParts::stopped(false).is_ok());
    assert_eq!(
        PipelineParts::stopped(true).unwrap_err().message(),
        "screen capture kit error: encoding thread panicked"
    );
}

#[test]
fn create_returns_pipeline_and_segment_receiver() {
    let parts = PipelineParts::create(true);
    let _token = parts.token(48_000, 1).expect("token available before stop");
}

#[test]
fn token_exposes_audio_settings() {
    let parts = PipelineParts::create(true);
    let (sample_rate, channel_count) = parts.token(48_000, 1).expect("token available");
    assert_eq!(sample_rate, 48_000);
    assert_eq!(channel_count, 1);
}

#[test]
fn token_is_none_after_stop() {
    let mut parts = PipelineParts::create(true);
    parts.stop();
    assert!(parts.token(48_000, 1).is_none());
}

#[test]
fn set_mic_enabled_returns_failed_when_no_mic_path() {
    match set_microphone_enabled(None, true) {
        MicToggleStep::Done(MicToggleOutcome::Failed { .. }) => {}
        other => panic!("expected Failed with no mic path, got {other:?}"),
    }
}

#[test]
fn set_mic_enabled_disabled_when_no_mic_path() {
    assert_eq!(
        set_microphone_enabled(None, false),
        MicToggleStep::Done(MicToggleOutcome::Disabled)
    );
}

#[test]
fn a_toggle_is_idempotent_and_finalizes_the_segment() {
    assert_eq!(
        set_microphone_enabled(Some(true), true),
        MicToggleStep::Done(MicToggleOutcome::Enabled)
    );
    assert_eq!(
        set_microphone_enabled(Some(false), false),
        MicToggleStep::Done(MicToggleOutcome::Disabled)
    );
    assert_eq!(set_microphone_enabled(Some(false), true), MicToggleStep::Start);
    assert_eq!(microphone_started(Ok(())), MicToggleOutcome::Enabled);
    assert_eq!(set_microphone_enabled(Some(true), false), MicToggleStep::Stop);
    assert_eq!(microphone_stopped(Ok(()), true), MicToggleStep::Flush);
    assert_eq!(
        microphone_stopped(Ok(()), false),
        MicToggleStep::Done(MicToggleOutcome::Disabled)
    );
    assert_eq!(microphone_flushed(Ok(())), MicToggleOutcome::Disabled);
    assert_eq!(
        microphone_flushed(Err("closed".to_string())),
        MicToggleOutcome::Failed {
            reason: "failed to finalize microphone segment: closed".to_string()
        }
    );
    assert_eq!(
        microphone_started(Err(AudioError::MicrophonePermissionDenied)),
        MicToggleOutcome::Failed {
            reason: AudioError::MicrophonePermissionDenied.message()
        }
    );
}

#[test]
fn flush_system_segment_succeeds_before_and_after_stop() {
    assert!(
        PipelineParts::flush_system_segment(Some(Ok(()))).is_ok(),
        "flush_system_segment should return Ok before stop"
    );
    assert!(
        PipelineParts::flush_system_segment(None).is_ok(),
        "flush_system_segment should return Ok after stop"
    );
    assert_eq!(
        PipelineParts::flush_system_segment(Some(Err("closed".to_string())))
            .unwrap_err()
            .message(),
        "screen capture kit error: failed to flush system segment: closed"
    );
}

// --- handler ---------------------------------------------------------------

fn floats(bits: &[u32]) -> Vec<f32> {
    bits.iter().map(|b| f32::from_bits(*b)).collect()
}

#[test]
fn audio_buffer_stores_samples_and_metadata() {
    let samples = vec![0.1_f32, 0.2, -0.3];
    let buf = AudioBuffer {
        samples: samples.clone(),
        timestamp_ms: 1_700_000_000_000,
        source: AudioSource::System,
    };

    assert_eq!(buf.samples, samples);
    assert_eq!(buf.timestamp_ms, 1_700_000_000_000);
    assert_eq!(buf.source, AudioSource::System);
}

#[test]
fn audio_buffer_clone_is_independent() {
    let original = AudioBuffer {
        samples: vec![1.0, 2.0],
        timestamp_ms: 100,
        source: AudioSource::Microphone,
    };
    let mut cloned = original.clone();
    cloned.samples.push(3.0);

    assert_eq!(original.samples.len(), 2);
    assert_eq!(cloned.samples.len(), 3);
}

#[test]
fn bytes_to_f32_samples_converts_le_bytes() {
    let values = [0.5_f32, -0.25, 1.0];
    let bytes: Vec<u8> = values.iter().flat_map(|v| v.to_le_bytes()).collect();

    let result = floats(&bytes_to_f32_samples(&bytes));

    assert_eq!(result.len(), 3);
    assert!((result[0] - 0.5).abs() < f32::EPSILON);
    assert!((result[1] - (-0.25)).abs() < f32::EPSILON);
    assert!((result[2] - 1.0).abs() < f32::EPSILON);
}

#[test]
fn bytes_to_f32_samples_truncates_partial_sample() {
    let value = 0.75_f32;
    let mut bytes = value.to_le_bytes().to_vec();
    bytes.push(0xFF);

    let result = floats(&bytes_to_f32_samples(&bytes));

    assert_eq!(result.len(), 1);
    assert!((result[0] - 0.75).abs() < f32::EPSILON);
}

#[test]
fn bytes_to_f32_samples_empty_input_gives_empty_output() {
    let result = bytes_to_f32_samples(&[]);
    assert!(result.is_empty());
}

#[test]
fn bytes_to_f32_samples_too_short_gives_empty_output() {
    let result = bytes_to_f32_samples(&[0, 1, 2]);
    assert!(result.is_empty());
}

#[test]
fn source_from_output_type_maps_audio_to_system() {
    let result = source_from_output_type(StreamOutput::Audio);
    assert_eq!(result, Some(AudioSource::System));
}

#[test]
fn source_from_output_type_ignores_screen() {
    let result = source_from_output_type(StreamOutput::Screen);
    assert!(result.is_none());
    assert!(source_from_output_type(StreamOutput::Other).is_none());
}

#[test]
fn audio_buffer_sent_through_sync_channel() {
    let (tx, rx) = std::sync::mpsc::sync_channel::<AudioMessage<f32>>(4);

    let buf = AudioBuffer {
        samples: vec![0.0; 960],
        timestamp_ms: 1_700_000_000_000,
        source: AudioSource::System,
    };

    assert!(tx.try_send(AudioMessage::Buffer(buf)).is_ok(), "channel should accept the buffer");

    match rx.try_recv() {
        Ok(AudioMessage::Buffer(b)) => {
            assert_eq!(b.samples.len(), 960);
            assert_eq!(b.source, AudioSource::System);
        }
        _ => panic!("expected a buffer message"),
    }
}

#[test]
fn sync_channel_drops_on_full() {
    let (tx, _rx) = std::sync::mpsc::sync_channel::<AudioMessage<f32>>(1);

    let make_buf = || {
        AudioMessage::Buffer(AudioBuffer {
            samples: vec![0.0],
            timestamp_ms: 100,
            source: AudioSource::Microphone,
        })
    };

    assert!(tx.try_send(make_buf()).is_ok(), "first send should work");

    let result = tx.try_send(make_buf());
    assert!(result.is_err(), "should fail when channel is full");
}

#[test]
fn handler_try_send_error_maps_to_the_right_counter() {
    let mut c = AudioDropCounters::default();

    count_system_drop(&mut c, DropCause::Full);
    assert_eq!(c.snapshot().system_full, 1);
    assert_eq!(c.snapshot().system_closed, 0, "full must not bump closed");

    count_system_drop(&mut c, DropCause::Closed);
    assert_eq!(c.snapshot().system_closed, 1);
    assert_eq!(c.snapshot().system_full, 1, "closed must not bump full");
}

#[test]
fn a_callback_delivers_whole_samples_only() {
    let pcm = 0.5_f32.to_le_bytes().to_vec();
    let buf = deliver(StreamOutput::Audio, Some(pcm.clone()), 7).expect("one sample");
    assert_eq!(floats(&buf.samples), vec![0.5]);
    assert_eq!(buf.timestamp_ms, 7);
    assert_eq!(buf.source, AudioSource::System);
    assert!(deliver(StreamOutput::Screen, Some(pcm), 7).is_none());
    assert!(deliver(StreamOutput::Audio, Some(vec![1, 2, 3]), 7).is_none());
    assert!(deliver(StreamOutput::Audio, None, 7).is_none());
}

// --- settings --------------------------------------------------------------

#[test]
fn audio_source_as_str() {
    assert_eq!(AudioSource::Microphone.as_str(), "mic");
    assert_eq!(AudioSource::System.as_str(), "system");
}

#[test]
fn audio_config_defaults() {
    let config = AudioConfig::default();
    assert_eq!(config.segment_duration_secs, 30);
    assert_eq!(config.bitrate, 64_000);
    assert_eq!(SAMPLE_RATE, 48_000);
}

#[test]
fn segment_path_is_flat() {
    let ts = 1774526400_000_i64;
    let path = segment_path("/data/staging", ts, AudioSource::System);
    assert_eq!(path, "/data/staging/1774526400000_system.opus");
}

#[test]
fn segment_path_mic_suffix() {
    let path = segment_path("/tmp", 1774526400_000, AudioSource::Microphone);
    assert_eq!(path, "/tmp/1774526400000_mic.opus");
}

#[test]
fn audio_errors_read_as_documented() {
    assert_eq!(
        AudioError::ScreenCaptureKit("x".to_string()).message(),
        "screen capture kit error: x"
    );
    assert_eq!(AudioError::Encoding("x".to_string()).message(), "encoding error: x");
    assert_eq!(AudioError::Io("x".to_string()).message(), "io error: x");
}

// --- microphone ------------------------------------------------------------

#[test]
fn extract_channels_deinterleaved_splits_both_channels() {
    let left = [1.0_f32, 2.0, 3.0];
    let right = [-1.0_f32, -2.0, -3.0];
    let planes: Vec<&[f32]> = vec![&left, &right];

    let result = extract_channels_from_planes(&planes, 3, 1);

    assert_eq!(result, vec![vec![1.0, 2.0, 3.0], vec![-1.0, -2.0, -3.0]]);
}

#[test]
fn extract_channels_interleaved_splits_both_channels() {
    let interleaved = [1.0_f32, -1.0, 2.0, -2.0, 3.0, -3.0];
    let planes: Vec<&[f32]> = vec![&interleaved[0..], &interleaved[1..]];

    let result = extract_channels_from_planes(&planes, 3, 2);

    assert_eq!(result, vec![vec![1.0, 2.0, 3.0], vec![-1.0, -2.0, -3.0]]);
}

#[test]
fn extract_channels_handles_more_than_two_channels() {
    let a = [1.0_f32, 2.0];
    let b = [3.0_f32, 4.0];
    let c = [5.0_f32, 6.0];
    let d = [7.0_f32, 8.0];
    let planes: Vec<&[f32]> = vec![&a, &b, &c, &d];

    let result = extract_channels_from_planes(&planes, 2, 1);

    assert_eq!(
        result,
        vec![
            vec![1.0, 2.0],
            vec![3.0, 4.0],
            vec![5.0, 6.0],
            vec![7.0, 8.0]
        ]
    );
}

#[test]
fn extract_channels_mono_is_an_identity_copy() {
    let only = [0.5_f32, -0.5];
    let planes: Vec<&[f32]> = vec![&only];

    let result = extract_channels_from_planes(&planes, 2, 1);

    assert_eq!(result, vec![vec![0.5, -0.5]]);
}

#[test]
fn extract_channels_clamps_overlong_frame_count() {
    let short = [1.0_f32, 2.0];
    let planes: Vec<&[f32]> = vec![&short];

    let result = extract_channels_from_planes(&planes, 99, 1);

    assert_eq!(result, vec![vec![1.0, 2.0]]);
}

#[test]
fn extract_channels_clamps_overlong_frame_count_when_interleaved() {
    let interleaved = [1.0_f32, -1.0, 2.0, -2.0, 3.0, -3.0];
    let planes: Vec<&[f32]> = vec![&interleaved[0..5], &interleaved[1..]];

    let result = extract_channels_from_planes(&planes, 99, 2);

    assert_eq!(result, vec![vec![1.0, 2.0, 3.0], vec![-1.0, -2.0, -3.0]]);
}

#[test]
fn extract_channels_keeps_every_channel_the_same_length() {
    let long = [1.0_f32, 2.0, 3.0, 4.0];
    let short = [9.0_f32, 8.0];
    let planes: Vec<&[f32]> = vec![&long, &short];

    let result = extract_channels_from_planes(&planes, 4, 1);

    assert_eq!(result, vec![vec![1.0, 2.0], vec![9.0, 8.0]]);
    assert_eq!(
        result[0].len(),
        result[1].len(),
        "channels must be equal length"
    );
}

#[test]
fn extract_channels_degenerate_inputs_give_empty() {
    let plane = [1.0_f32];
    let planes: Vec<&[f32]> = vec![&plane];

    assert!(
        extract_channels_from_planes(&planes, 0, 1).is_empty(),
        "zero frames"
    );
    assert!(
        extract_channels_from_planes::<f32>(&[], 4, 1).is_empty(),
        "no planes"
    );
    assert!(
        extract_channels_from_planes(&planes, 4, 0).is_empty(),
        "zero stride"
    );

    let empty: [f32; 0] = [];
    let mixed: Vec<&[f32]> = vec![&plane, &empty];
    assert!(
        extract_channels_from_planes(&mixed, 4, 1).is_empty(),
        "one empty plane among non-empty"
    );
}

#[test]
fn extract_channels_is_identical_across_layouts() {
    let left = [0.0_f32, 1.0, 2.0, 3.0];
    let right = [10.0_f32, 11.0, 12.0, 13.0];
    let woven = [0.0_f32, 10.0, 1.0, 11.0, 2.0, 12.0, 3.0, 13.0];

    let apart = readable_plane(true, 4, 2, 1).expect("f32 buffer should be readable");
    assert_eq!(apart, 4);
    let deinterleaved = extract_channels(&[&left[..], &right[..]], 4, 1);

    let run = readable_plane(true, 4, 2, 2).expect("f32 buffer should be readable");
    assert_eq!(run, 7);
    let interleaved = extract_channels(&[&woven[0..run], &woven[1..1 + run]], 4, 2);

    let expected = vec![left.to_vec(), right.to_vec()];
    assert_eq!(deinterleaved, expected, "deinterleaved layout");
    assert_eq!(interleaved, expected, "interleaved layout");
}

#[test]
fn extract_channels_returns_none_for_a_zero_frame_buffer() {
    assert!(readable_plane(true, 0, 2, 1).is_none());
    assert!(readable_plane(true, 4, 0, 1).is_none());
    assert!(readable_plane(true, 4, 2, 0).is_none());
    assert!(readable_plane(true, usize::MAX, 2, 2).is_none());
}

#[test]
fn extract_channels_returns_none_for_non_f32() {
    assert!(readable_plane(false, 4, 2, 1).is_none());
}

#[test]
fn mix_eligibility_is_stereo_for_f32_two_channels() {
    assert_eq!(
        MixEligibility::classify(CommonFormat::Float32, 2),
        MixEligibility::Stereo
    );
}

#[test]
fn mix_eligibility_is_mono_for_f32_one_channel() {
    assert_eq!(
        MixEligibility::classify(CommonFormat::Float32, 1),
        MixEligibility::Mono
    );
}

#[test]
fn mix_eligibility_is_ineligible_above_two_channels() {
    for channels in [3, 4, 8] {
        assert_eq!(
            MixEligibility::classify(CommonFormat::Float32, channels),
            MixEligibility::Ineligible,
            "{channels} channels must not be eligible"
        );
    }
}

#[test]
fn mix_eligibility_is_ineligible_for_non_f32() {
    for format in [
        CommonFormat::Int16,
        CommonFormat::Int32,
        CommonFormat::Float64,
        CommonFormat::Other,
    ] {
        for channels in [1, 2] {
            assert_eq!(
                MixEligibility::classify(format, channels),
                MixEligibility::Ineligible,
                "format {format:?} at {channels} ch must not be eligible"
            );
        }
    }
}

#[test]
fn mix_eligibility_is_ineligible_for_zero_channels() {
    assert_eq!(
        MixEligibility::classify(CommonFormat::Float32, 0),
        MixEligibility::Ineligible
    );
}

#[test]
fn common_format_names_are_distinct_and_stable() {
    assert_eq!(common_format_name(CommonFormat::from_raw(1)), "f32");
    assert_eq!(common_format_name(CommonFormat::from_raw(2)), "f64");
    assert_eq!(common_format_name(CommonFormat::from_raw(3)), "i16");
    assert_eq!(common_format_name(CommonFormat::from_raw(4)), "i32");
    assert_eq!(common_format_name(CommonFormat::from_raw(0)), "other");
}

#[test]
fn common_format_name_surfaces_unknown_values() {
    assert_eq!(common_format_name(CommonFormat::from_raw(99)), "unknown(99)");
}

#[test]
fn mix_eligibility_labels_are_distinct_and_stable() {
    assert_eq!(MixEligibility::Mono.as_str(), "mono");
    assert_eq!(MixEligibility::Stereo.as_str(), "stereo");
    assert_eq!(MixEligibility::Ineligible.as_str(), "ineligible");
}

#[test]
fn mono_samples_copies_channel_zero() {
    let channel = [0.1_f32, -0.2, 0.3, -0.4, 0.5];
    let result = mono_samples(&channel, 5);

    assert_eq!(result, vec![0.1_f32, -0.2, 0.3, -0.4, 0.5]);
}

#[test]
fn mono_samples_respects_frame_count() {
    let channel = [1.0_f32, 2.0, 3.0, 0.0, 0.0, 0.0];
    let result = mono_samples(&channel, 3);

    assert_eq!(result, vec![1.0_f32, 2.0, 3.0]);
}

#[test]
fn mono_samples_clamps_overlong_frame_count() {
    let channel = [1.0_f32, 2.0];
    let result = mono_samples(&channel, 99);

    assert_eq!(result, vec![1.0_f32, 2.0]);
}

#[test]
fn mono_samples_empty_channel_gives_empty_vec() {
    let result = mono_samples::<f32>(&[], 0);
    assert!(result.is_empty());
}

#[test]
fn into_produced_keeps_only_samples() {
    assert_eq!(
        ConversionOutcome::Produced(vec![0.5]).into_produced(),
        Some(vec![0.5])
    );
    assert_eq!(ConversionOutcome::<f32>::HeldTail.into_produced(), None);
    assert_eq!(ConversionOutcome::<f32>::Failed.into_produced(), None);
}

#[test]
fn convert_reports_held_tail_for_a_zero_frame_buffer() {
    let mut counters = AudioDropCounters::default();
    let outcome = convert_to_mono_samples::<f32>(Conversion::NoInput, &mut counters);
    assert_eq!(outcome, ConversionOutcome::HeldTail);
    assert_eq!(
        counters.snapshot().mic_convert_failed,
        0,
        "a zero-frame buffer is not a conversion failure"
    );
}

#[test]
fn only_a_failed_conversion_is_counted() {
    let mut counters = AudioDropCounters::default();
    let ran = Conversion::Ran { output_frames: 2, channel: Some(vec![0.5_f32, 0.25, 9.0]) };
    assert_eq!(
        convert_to_mono_samples(ran, &mut counters),
        ConversionOutcome::Produced(vec![0.5, 0.25])
    );
    let dry = Conversion::Ran { output_frames: 0, channel: Some(vec![0.5_f32]) };
    assert_eq!(convert_to_mono_samples(dry, &mut counters), ConversionOutcome::HeldTail);
    assert_eq!(counters.snapshot().mic_convert_failed, 0);
    for failed in [
        Conversion::<f32>::Error,
        Conversion::NoOutputBuffer,
        Conversion::Ran { output_frames: 1, channel: None },
    ] {
        assert_eq!(convert_to_mono_samples(failed, &mut counters), ConversionOutcome::Failed);
    }
    assert_eq!(counters.snapshot().mic_convert_failed, 3);
}

#[test]
fn the_output_buffer_has_headroom() {
    assert_eq!(output_capacity(1_000), 5_096);
    assert_eq!(output_capacity(u32::MAX), u32::MAX);
}

#[test]
fn characterize_buffer_carries_both_channels_and_the_outcome() {
    let mut counters = AudioDropCounters::default();
    let mut seq = 0u64;
    let native = vec![vec![0.25_f32; 4_800], vec![-0.25_f32; 4_800]];
    let ran = || Conversion::Ran { output_frames: 1, channel: Some(vec![0.125_f32]) };

    let frame = characterize_buffer(4_800, Some(native.clone()), ran(), &mut counters, &mut seq)
        .expect("a 4800-frame f32 buffer must produce a frame");

    assert_eq!(frame.seq, 0);
    assert_eq!(frame.native, native, "one Vec per channel");
    assert_eq!(frame.outcome, ConversionOutcome::Produced(vec![0.125]));
    assert_eq!(seq, 1, "one frame, one seq");

    let second = characterize_buffer(4_800, Some(native), ran(), &mut counters, &mut seq)
        .expect("second frame");
    assert_eq!(second.seq, 1, "seq must be monotonic");
    assert_eq!(counters.snapshot().mic_convert_failed, 0);
}

#[test]
fn characterize_buffer_skips_a_zero_frame_buffer_without_a_seq() {
    let mut counters = AudioDropCounters::default();
    let mut seq = 0u64;
    let none =
        characterize_buffer::<f32>(0, None, Conversion::NoInput, &mut counters, &mut seq);
    assert!(none.is_none());
    assert_eq!(seq, 0);
}

#[test]
fn characterize_buffer_marks_an_unreadable_buffer_as_empty() {
    let mut counters = AudioDropCounters::default();
    let mut seq = 0u64;
    let frame = characterize_buffer::<f32>(64, None, Conversion::Error, &mut counters, &mut seq)
        .expect("an unreadable buffer with frames still produces a frame");
    assert_eq!(frame.seq, 0);
    assert!(frame.native.is_empty(), "no f32 planes to read");
    assert_eq!(seq, 1, "the hole consumed a seq");
}

#[test]
fn characterization_input_check_admits_only_float32() {
    let mut format = NativeFormat {
        channels: 2,
        sample_rate: 48_000.0,
        interleaved: false,
        common_format: "f32".into(),
        float32: true,
    };
    assert!(characterization_input_check(&format).is_ok());

    format.common_format = "i16".into();
    format.float32 = false;
    let err = characterization_input_check(&format).unwrap_err();
    assert!(err.message().contains("i16"), "{}", err.message());
}

#[test]
fn a_format_is_described_with_its_eligibility() {
    let (format, mix) = NativeFormat::describe(CommonFormat::Float32, 2, 44_100.0, false);
    assert!(format.float32);
    assert_eq!(format.common_format, "f32");
    assert_eq!(format.channels, 2);
    assert_eq!(format.sample_rate, 44_100.0);
    assert_eq!(mix, MixEligibility::Stereo);
    let (format, mix) = NativeFormat::describe(CommonFormat::Int16, 2, 44_100.0, true);
    assert!(!format.float32 && format.interleaved);
    assert_eq!(mix, MixEligibility::Ineligible);
}

#[test]
fn a_failed_setup_says_which_step_failed() {
    let target = SetupStep::TargetFormat.failed();
    assert!(target.message().ends_with("failed to build 48kHz mono target format"));
    let converter = SetupStep::Converter.failed();
    assert!(converter.message().ends_with("failed to build microphone format converter"));
    assert!(start_failed("busy")
        .message()
        .ends_with("failed to start microphone engine: busy"));
}

#[test]
fn a_tap_buffer_is_handed_over_once() {
    let mut feed = InputFeed::new();
    assert_eq!(feed.next(), InputStatus::HaveData);
    assert_eq!(feed.next(), InputStatus::NoDataNow);
    assert_eq!(feed.next(), InputStatus::NoDataNow);
}

#[test]
fn the_microphone_is_speech() {
    assert!(AudioSource::Microphone.is_speech());
    assert!(!AudioSource::System.is_speech());
}

#[test]
fn the_split_into_pushes_makes_no_difference() {
    let all: Vec<f32> = (0..3 * SAMPLES_PER_SEGMENT + 100).map(|n| n as f32).collect();
    let first_ms = 1_700_000_000_000_i64;
    for size in [100, 4_800, SAMPLES_PER_SEGMENT, SAMPLES_PER_SEGMENT + 1, all.len()] {
        let mut acc = make_accumulator("out");
        let mut cuts = Vec::new();
        for (i, samples) in all.chunks(size).enumerate() {
            let late = (i * size * 1_000 / RATE as usize) as i64 + 1_999;
            let timestamp = if i == 0 { first_ms } else { first_ms + late };
            let buffered = (acc.buffer.len() * 1_000 / RATE as usize) as i64;
            let mut next = acc.push(samples, timestamp, buffered);
            while let Some(job) = next {
                let samples = job.samples.clone();
                let done = job.completed(-1);
                cuts.push((samples, done.start_timestamp, done.end_timestamp));
                next = acc.encoded();
            }
        }
        assert_eq!(cuts.len(), 3, "pushes of {size}");
        for (k, (samples, start, end)) in cuts.iter().enumerate() {
            assert_eq!(samples, &all[k * SAMPLES_PER_SEGMENT..(k + 1) * SAMPLES_PER_SEGMENT]);
            assert_eq!(*start, first_ms + 1_000 * k as i64);
            assert_eq!(*end, start + 1_000, "a full segment lasts its set length");
        }
        assert_eq!(acc.buffer, &all[3 * SAMPLES_PER_SEGMENT..]);
    }
}

#[test]
fn a_run_of_the_loop_hands_out_every_sample() {
    let mut encoding = EncodingLoop::<u16>::new(&AudioConfig {
        segment_duration_secs: 1,
        ..AudioConfig::default()
    });
    let mut pushed = [Vec::new(), Vec::new()];
    let mut handed_out = [Vec::new(), Vec::new()];
    let slot = |source| if source == AudioSource::Microphone { 0 } else { 1 };
    let mut value = 0_u16;
    for (step, size) in [30_000, 100_000, 7, 48_000, 20_001, 60_000].into_iter().enumerate() {
        let source = if step % 2 == 0 { AudioSource::Microphone } else { AudioSource::System };
        let samples: Vec<u16> = (0..size)
            .map(|_| {
                value = value.wrapping_add(1);
                value
            })
            .collect();
        pushed[slot(source)].extend_from_slice(&samples);
        let buffer = AudioBuffer { samples, timestamp_ms: step as i64 * 5_000, source };
        let mut next = encoding.message(AudioMessage::Buffer(buffer), 0);
        while let Some(job) = next {
            handed_out[slot(job.source)].extend_from_slice(&job.samples);
            next = encoding.segment_finished(true);
        }
        let flush = encoding.message(AudioMessage::FlushMic, 0);
        if let Some(job) = flush {
            handed_out[0].extend_from_slice(&job.samples);
            assert!(encoding.segment_finished(true).is_none());
        }
    }
    let mut next = encoding.disconnect();
    while let Some(job) = next {
        handed_out[slot(job.source)].extend_from_slice(&job.samples);
        next = encoding.segment_finished(true);
    }
    assert_eq!(encoding.phase, Phase::Finished);
    assert_eq!(handed_out, pushed);
}
