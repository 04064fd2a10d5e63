use chronicle::audio::encoder::OggOpusEncoder;
use chronicle::transcription::checksum::{digest_matches, to_hex, ModelCheck};
use chronicle::transcription::decode::{
    check_decoded, decode_opus_16k_mono, read_head, trim_pcm, Decoded, OpusStream,
};
use chronicle::transcription::state::{assemble, transcribe, RawTranscription, StateSlot};
use chronicle::transcription::{
    concat_segment_text, is_whisper_marker, model_info, model_path, model_present,
    parse_variant, short_buffer_error, ModelVariant, Transcript, TranscriptionError, EMPTY_MSG,
    MODELS_SUBDIR, SUPPORTED_VARIANTS,
};

fn variant(name: &str) -> ModelVariant {
    parse_variant(name).expect("test variant must be allow-listed")
}

// --- models ----------------------------------------------------------------

#[test]
fn empty_msg_matches_whisper_rs() {
    assert_eq!(EMPTY_MSG, "Input sample buffer was empty.");
}

#[test]
fn short_buffer_guard_splits_empty_from_too_short() {
    let msg = |len| match short_buffer_error(len) {
        Some(TranscriptionError::Whisper(m)) => Some(m),
        Some(other) => panic!("unexpected variant: {other:?}"),
        None => None,
    };
    assert_eq!(msg(0).as_deref(), Some("Input sample buffer was empty."));
    assert_eq!(
        msg(1).as_deref(),
        Some("input sample buffer too short: got 1, need at least 41 samples")
    );
    assert_eq!(
        msg(40).as_deref(),
        Some("input sample buffer too short: got 40, need at least 41 samples")
    );
    assert_eq!(msg(41), None);
}

#[test]
fn supported_variants_constants() {
    assert_eq!(SUPPORTED_VARIANTS, ["base", "small", "medium"]);
    assert_eq!(ModelVariant::default().as_str(), "base");
    assert_eq!(MODELS_SUBDIR, "models");
}

#[test]
fn parse_variant_accepts_allow_list() {
    assert_eq!(parse_variant("base").unwrap().as_str(), "base");
    assert_eq!(parse_variant("small").unwrap().as_str(), "small");
    assert_eq!(parse_variant("medium").unwrap().as_str(), "medium");
}

#[test]
fn parse_variant_rejects_empty_and_unknown() {
    assert_eq!(parse_variant(""), None);
    assert_eq!(parse_variant("BASE"), None, "case-sensitive");
    assert_eq!(parse_variant("tiny"), None);
    assert_eq!(parse_variant("base "), None, "trailing space");
}

#[test]
fn parse_variant_rejects_path_traversal_inputs() {
    assert_eq!(parse_variant("../base"), None);
    assert_eq!(parse_variant("base/"), None);
    assert_eq!(parse_variant("/base"), None);
    assert_eq!(parse_variant("../../etc/passwd"), None);
}

#[test]
fn model_path_joins_base_models_filename() {
    let base = "/tmp/chronicle";
    assert_eq!(
        model_path(base, variant("base")),
        "/tmp/chronicle/models/ggml-base.bin",
    );
    assert_eq!(
        model_path(base, variant("medium")),
        "/tmp/chronicle/models/ggml-medium.bin",
    );
}

#[test]
fn model_present_false_when_file_missing() {
    assert!(!model_present("/data", variant("base"), |_: &str| false));
}

#[test]
fn model_present_true_when_file_exists() {
    let is_file = |path: &str| path == "/data/models/ggml-base.bin";
    assert!(model_present("/data", variant("base"), is_file));
    assert!(!model_present("/data", variant("small"), is_file));
}

#[test]
fn manifest_covers_every_supported_variant() {
    for v in SUPPORTED_VARIANTS {
        let variant = parse_variant(v).unwrap();
        let info = model_info(variant);
        assert_eq!(info.variant, variant);
        assert!(info.url.starts_with("https://huggingface.co/"));
        assert!(
            info.url.ends_with(&format!("ggml-{v}.bin")),
            "{v}: url must point at its own variant's file"
        );
        assert_eq!(info.sha1.len(), 40, "sha1 must be 40 hex chars");
        assert!(info.sha1.chars().all(|c| c.is_ascii_hexdigit()));
        assert!(info.size_bytes > 100_000_000, "all variants exceed 100 MB");
    }
}

#[test]
fn manifest_sizes_are_pinned() {
    assert_eq!(model_info(variant("base")).size_bytes, 148_000_000);
    assert_eq!(model_info(variant("small")).size_bytes, 488_000_000);
    assert_eq!(model_info(variant("medium")).size_bytes, 1_534_000_000);
}

#[test]
fn transcription_errors_read_as_documented() {
    let x = || "x".to_string();
    assert_eq!(TranscriptionError::ModelLoad(x()).message(), "model load failed: x");
    assert_eq!(TranscriptionError::Decode(x()).message(), "opus decode failed: x");
    assert_eq!(TranscriptionError::Whisper(x()).message(), "whisper failed: x");
}

// --- state -----------------------------------------------------------------

#[test]
fn state_slot_creates_once_and_reuses() {
    let creations = std::cell::Cell::new(0);
    let mut slot: StateSlot<u32> = StateSlot::new();

    for _ in 0..5 {
        let out: Result<u32, ()> = slot.with(
            || {
                creations.set(creations.get() + 1);
                Ok(7)
            },
            |state: &mut u32| Ok(*state),
        );
        assert_eq!(out, Ok(7));
    }

    assert_eq!(creations.get(), 1, "five calls must share one state");
    assert_eq!(slot.creation_count(), 1, "the slot's own counter must agree");
}

#[test]
fn state_slot_discards_a_state_that_errored() {
    let creations = std::cell::Cell::new(0);
    let mut slot: StateSlot<u32> = StateSlot::new();
    let make = || {
        creations.set(creations.get() + 1);
        Ok(7)
    };

    let first: Result<u32, &str> = slot.with(make, |_: &mut u32| Err("boom"));
    assert_eq!(first, Err("boom"));

    let second: Result<u32, &str> = slot.with(make, |state: &mut u32| Ok(*state));
    assert_eq!(second, Ok(7));

    assert_eq!(
        creations.get(),
        2,
        "the errored state must be dropped, forcing a rebuild"
    );
    assert_eq!(slot.creation_count(), 2, "the slot's own counter must agree");
}

#[test]
fn a_failed_rebuild_leaves_the_slot_empty() {
    let mut slot: StateSlot<u32> = StateSlot::new();
    let _: Result<u32, &str> = slot.with(|| Ok(7), |state: &mut u32| Ok(*state));
    slot.discard();

    let failed: Result<u32, &str> = slot.with(|| Err("no gpu"), |state: &mut u32| Ok(*state));
    assert_eq!(failed, Err("no gpu"));

    let recovered: Result<u32, &str> = slot.with(|| Ok(99), |state: &mut u32| Ok(*state));
    assert_eq!(
        recovered,
        Ok(99),
        "a failed rebuild must leave the slot empty, not the old state"
    );
}

#[test]
fn a_short_buffer_touches_no_state() {
    let mut slot: StateSlot<u32> = StateSlot::new();
    let run = |_: &mut u32| -> Result<RawTranscription, TranscriptionError> {
        unreachable!("a short buffer is not decoded")
    };
    let err = transcribe(&mut slot, 1, || Ok(1), run).unwrap_err();
    assert_eq!(
        err.message(),
        "whisper failed: input sample buffer too short: got 1, need at least 41 samples"
    );
    assert_eq!(slot.creation_count(), 0);

    let run = |state: &mut u32| {
        *state += 1;
        Ok(RawTranscription {
            segments: vec![" the fox".to_string(), "[BLANK_AUDIO]".to_string()],
            language: Some("en".to_string()),
        })
    };
    for _ in 0..2 {
        assert_eq!(
            transcribe(&mut slot, 41, || Ok(1), run),
            Ok(Transcript { text: "the fox".to_string(), language: Some("en".to_string()) })
        );
    }
    assert_eq!(slot.slot, Some(3), "two transcriptions share one state");
    assert_eq!(slot.creation_count(), 1);
    assert!(transcribe(&mut slot, 0, || Ok(1), run).is_err());
    assert_eq!(slot.slot, Some(3), "a rejected buffer does not discard the state");

    let fail = |_: &mut u32| -> Result<RawTranscription, TranscriptionError> {
        Err(TranscriptionError::Whisper("bad".to_string()))
    };
    assert_eq!(
        transcribe(&mut slot, 41, || Ok(1), fail),
        Err(TranscriptionError::Whisper("bad".to_string()))
    );
    assert_eq!(slot.slot, None);
}

#[test]
fn a_run_without_segments_is_an_empty_transcript() {
    let raw = RawTranscription { segments: Vec::new(), language: None };
    assert_eq!(assemble(raw), Transcript { text: String::new(), language: None });
}

// --- checksums -------------------------------------------------------------

fn verify_sha1(bytes: &[u8], expected: &str) -> bool {
    let mut check = ModelCheck::new();
    for chunk in bytes.chunks(8_192) {
        check.update(chunk);
    }
    check.verify_sha1(expected)
}

#[test]
fn verify_sha1_accepts_matching_digest() {
    assert!(verify_sha1(b"hello world", "2aae6c35c94fcfb415dbe95f408b9ce91ee846ed"));
}

#[test]
fn verify_sha1_rejects_mismatch() {
    assert!(!verify_sha1(b"hello world", "0000000000000000000000000000000000000000"));
    assert!(!verify_sha1(b"hello world!", "2aae6c35c94fcfb415dbe95f408b9ce91ee846ed"));
    assert!(!verify_sha1(b"hello world", ""));
}

#[test]
fn verify_sha1_hashes_beyond_one_read_buffer() {
    let big = "a".repeat(100_000);
    assert!(verify_sha1(big.as_bytes(), "c4d4b30851182fc4eb8675494d42fd7f17e29c93"));
}

#[test]
fn verify_sha1_compare_ignores_digest_case() {
    assert!(verify_sha1(b"hello world", "2AAE6C35C94FCFB415DBE95F408B9CE91EE846ED"));
}

#[test]
fn a_digest_is_written_in_hexadecimal() {
    let hex: String = to_hex(&[0x00, 0x0f, 0xa0, 0xff]).into_iter().collect();
    assert_eq!(hex, "000fa0ff");
    assert!(digest_matches(&[0xab], "aB"));
    assert!(!digest_matches(&[0xab], "ac"));
    assert!(!digest_matches(&[0xab], "ab0"));
}

// --- text ------------------------------------------------------------------

#[test]
fn concat_segment_text_joins_and_trims() {
    let segs = ["  hello ", "world  "];
    assert_eq!(concat_segment_text(&segs), "hello world");
}

#[test]
fn concat_segment_text_empty_for_no_segments() {
    let segs: [&str; 0] = [];
    assert_eq!(concat_segment_text(&segs), "");
}

#[test]
fn concat_segment_text_empty_for_whitespace_only() {
    let segs = ["   ", "\n\t"];
    assert_eq!(concat_segment_text(&segs), "");
}

#[test]
fn concat_segment_text_drops_blank_audio_marker() {
    let segs = ["[BLANK_AUDIO]"];
    assert_eq!(concat_segment_text(&segs), "");
}

#[test]
fn concat_segment_text_drops_marker_but_keeps_speech() {
    let segs = ["hello ", "[BLANK_AUDIO]", " world"];
    assert_eq!(concat_segment_text(&segs), "hello  world");
}

#[test]
fn concat_segment_text_drops_other_bracketed_markers() {
    let segs = ["[Motor]", "[_BEG_]"];
    assert_eq!(concat_segment_text(&segs), "");
}

#[test]
fn concat_segment_text_keeps_brackets_inside_prose() {
    let segs = ["the [sic] answer"];
    assert_eq!(concat_segment_text(&segs), "the [sic] answer");
}

#[test]
fn concat_segment_text_drops_bracketed_token_split_into_own_segment() {
    let segs = ["the ", "[sic]", " answer"];
    assert_eq!(
        concat_segment_text(&segs),
        "the  answer",
        "a bracketed token in its own segment is dropped"
    );
}

#[test]
fn concat_segment_text_drops_split_marker_but_keeps_neighbouring_speech() {
    let segs = ["[BLANK_AUDIO]", " >> and the second thing we tried."];
    assert_eq!(
        concat_segment_text(&segs),
        ">> and the second thing we tried."
    );
}

#[test]
fn concat_segment_text_keeps_multiword_bracketed_text() {
    let segs = ["[hello world]"];
    assert_eq!(concat_segment_text(&segs), "[hello world]");
}

#[test]
fn concat_segment_text_keeps_bracketed_text_in_spaceless_scripts() {
    for s in ["[这是一个完整的句子]", "[こんにちは世界]", "[สวัสดีชาวโลก]"] {
        let segs = [s];
        assert_eq!(
            concat_segment_text(&segs),
            s,
            "spaceless-script speech must survive the marker filter"
        );
    }
}

#[test]
fn concat_segment_text_keeps_unclosed_bracket() {
    let segs = ["[unclosed"];
    assert_eq!(concat_segment_text(&segs), "[unclosed");
}

#[test]
fn concat_segment_text_keeps_empty_brackets() {
    let segs = ["[]"];
    assert_eq!(concat_segment_text(&segs), "[]");
}

#[test]
fn concat_segment_text_keeps_trailing_bracket_alone() {
    let segs = ["sic]"];
    assert_eq!(concat_segment_text(&segs), "sic]");
}

#[test]
fn concat_segment_text_drops_a_marker_carrying_a_leading_space() {
    let segs = ["hello", " [BLANK_AUDIO]", " world"];
    assert_eq!(concat_segment_text(&segs), "hello world");
}

#[test]
fn a_marker_is_one_bracketed_ascii_word() {
    assert!(is_whisper_marker(" [Music]\n"));
    assert!(!is_whisper_marker("[a b]"));
    assert!(!is_whisper_marker("[é]"));
    assert!(!is_whisper_marker("[]"));
    assert!(!is_whisper_marker("["));
    assert!(!is_whisper_marker("]["));
}

// --- decoding --------------------------------------------------------------

/// Reads a file with a decoder that keeps its packets, and puts out `per_packet` samples for
/// each.
fn decode(file: Vec<u8>, per_packet: usize) -> Result<(Vec<Vec<u8>>, Vec<u32>), TranscriptionError> {
    let (packets, pcm) = decode_opus_16k_mono(
        file,
        Vec::new(),
        |packets| (packets, Ok(())),
        |mut packets: Vec<Vec<u8>>, packet: &[u8]| {
            let start = packets.len() * per_packet;
            packets.push(packet.to_vec());
            let samples = (start..start + per_packet).map(|n| n as u32).collect();
            (packets, Ok(Decoded { samples, count: per_packet }))
        },
    );
    Ok((packets, pcm?))
}

fn encode(samples: usize) -> (Vec<Vec<u8>>, Vec<u8>) {
    let frames = OggOpusEncoder::frames(&vec![0u8; samples], 0);
    let packets: Vec<Vec<u8>> =
        (0..frames.len()).map(|i| vec![i as u8, (i / 256) as u8, 9]).collect();
    let file = OggOpusEncoder::new(48_000, 1, 24_000).mux(packets.clone());
    (packets, file)
}

#[test]
fn decode_round_trips_to_16k_mono() {
    let (packets, file) = encode(48_000);
    let (read, pcm) = decode(file, 320).unwrap();
    assert_eq!(read, packets);
    assert_eq!(pcm.len(), 16_000);
}

#[test]
fn decode_handles_partial_final_frame() {
    let (packets, file) = encode(24_137);
    let (read, pcm) = decode(file, 320).unwrap();
    assert_eq!(read.len(), 26);
    assert_eq!(read, packets);
    assert_eq!(pcm.len(), 26 * 320);
}

#[test]
fn decode_rejects_non_opus_file() {
    let garbage = b"not an ogg opus file at all".to_vec();
    assert!(matches!(decode(garbage, 320), Err(TranscriptionError::Decode(_))));
    assert_eq!(
        decode(Vec::new(), 320).unwrap_err().message(),
        "opus decode failed: read OpusHead: No Ogg capture pattern found"
    );
    assert!(matches!(OpusStream::open(vec![0; 64]), Err(TranscriptionError::Decode(_))));
}

#[test]
fn decode_empty_audio_returns_empty_pcm() {
    let (_, file) = encode(0);
    let (read, pcm) = decode(file, 320).unwrap();
    assert!(read.is_empty());
    assert!(
        pcm.is_empty(),
        "expected empty PCM, got {} samples",
        pcm.len()
    );
}

#[test]
fn a_decoder_that_fails_ends_the_decoding() {
    let (_, file) = encode(9_600);
    let (seen, result) = decode_opus_16k_mono(
        file.clone(),
        0,
        |seen| (seen, Ok(())),
        |seen: usize, _: &[u8]| {
            let decoded = if seen < 2 {
                Ok(Decoded { samples: vec![0u8; 320], count: 320 })
            } else {
                Err("corrupted stream".to_string())
            };
            (seen + 1, decoded)
        },
    );
    let err = result.unwrap_err();
    assert_eq!(err.message(), "opus decode failed: decode: corrupted stream");
    assert_eq!(seen, 3);

    let err = decode(file, 1_921).unwrap_err();
    assert_eq!(
        err.message(),
        "opus decode failed: decode returned 1921 samples (buffer holds 1920)"
    );
}

#[test]
fn a_decoder_is_created_once_the_headers_are_read() {
    let create = |tried: usize| (tried + 1, Err("no memory".to_string()));
    let decode = |tried: usize, _: &[u8]| -> (usize, Result<Decoded<u8>, String>) {
        unreachable!("nothing is decoded without a decoder, after {tried}")
    };
    let (tried, result) = decode_opus_16k_mono(encode(960).1, 0, create, decode);
    assert_eq!(result.unwrap_err().message(), "opus decode failed: decoder create: no memory");
    assert_eq!(tried, 1);
    let (tried, result) = decode_opus_16k_mono(vec![0; 64], 0, create, decode);
    assert!(result.unwrap_err().message().starts_with("opus decode failed: read OpusHead: "));
    assert_eq!(tried, 0);
}

#[test]
fn a_damaged_file_is_refused() {
    let (_, mut file) = encode(9_600);
    let last = file.len() - 1;
    file[last] ^= 0xff;
    let err = decode(file, 320).unwrap_err();
    assert!(err.message().starts_with("opus decode failed: read packet: "), "{}", err.message());
}

#[test]
fn a_stream_begins_with_an_opus_head() {
    let head = OggOpusEncoder::new(48_000, 1, 1).build_opus_head();
    assert_eq!(read_head(&head), Ok(0));
    let mut skipping = head.clone();
    skipping[10] = 0x38;
    skipping[11] = 0x01;
    assert_eq!(read_head(&skipping), Ok(312));
    for bad in [&head[..11], &b"OpusTags----"[..], &[][..]] {
        assert_eq!(
            read_head(bad).unwrap_err().message(),
            "opus decode failed: missing OpusHead"
        );
    }
}

#[test]
fn the_audio_is_cut_at_both_ends() {
    let pcm: Vec<u32> = (0..1_000).collect();
    assert_eq!(trim_pcm(pcm.clone(), 300, 0), (100..1_000).collect::<Vec<u32>>());
    assert_eq!(trim_pcm(pcm.clone(), 300, 900), (100..300).collect::<Vec<u32>>());
    assert_eq!(trim_pcm(pcm.clone(), 0, 3_000), pcm);
    assert_eq!(trim_pcm(pcm.clone(), 0, u64::MAX), pcm);
    assert_eq!(trim_pcm(pcm.clone(), 60_000, 0), Vec::<u32>::new());
}

#[test]
fn a_sample_count_past_the_buffer_is_refused() {
    assert!(check_decoded(1_920).is_ok());
    assert_eq!(
        check_decoded(1_921).unwrap_err().message(),
        "opus decode failed: decode returned 1921 samples (buffer holds 1920)"
    );
}
