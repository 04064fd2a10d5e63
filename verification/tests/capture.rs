use chronicle::audio::drops::DropCause;
use chronicle::audio::handler::StreamOutput;
use chronicle::capture::drops::{
    count_frame_drop, send_frame, CaptureDropCounters, CaptureDropSnapshot, FrameCounters,
};
use chronicle::capture::encoder::{
    check_data, check_frame, write_failed, HeifStep, BGRA_BITMAP_INFO, BGRA_FOURCC,
};
use chronicle::capture::engine::{
    displays_found, enumerate_displays, is_benign_stop_error, primary_display_id, start_stream,
    stop_completed, stop_stream, CaptureEngine, Display, EngineDeps, EngineState,
    EngineStatusProbe, OpenFailure, StartConfig, StopError, Waited,
    ATTEMPT_TO_STOP_STREAM_STATE,
};
use chronicle::capture::error::CaptureError;
use chronicle::capture::handler::{frame_received, should_warn, FrameStep};
use chronicle::capture::metadata::{
    get_frontmost_app, get_window_title_for_pid, AppMetadata, FrontmostApp, WindowInfo,
};
use chronicle::capture::pixel_buffer::{
    LockOutcome, PixelBufferGuard, K_CV_PIXEL_BUFFER_LOCK_READ_ONLY,
};
use chronicle::capture::DEFAULT_CHANNEL_BUFFER_SIZE;
use std::cell::Cell;

// --- drops -----------------------------------------------------------------

#[test]
fn snapshot_reads_both_causes() {
    let mut c = CaptureDropCounters::default();
    c.full += 7;
    c.closed += 2;

    let s = c.snapshot();

    assert_eq!(s.full, 7);
    assert_eq!(s.closed, 2);
}

/// Why a channel refused a value, in the library's terms.
fn cause<T>(error: &tokio::sync::mpsc::error::TrySendError<T>) -> DropCause {
    match error {
        tokio::sync::mpsc::error::TrySendError::Full(_) => DropCause::Full,
        tokio::sync::mpsc::error::TrySendError::Closed(_) => DropCause::Closed,
    }
}

#[test]
fn drops_try_send_error_maps_to_the_right_counter() {
    let (full_tx, _full_rx) = tokio::sync::mpsc::channel::<u8>(1);
    full_tx.try_send(1).unwrap();
    let full_err = full_tx.try_send(2).unwrap_err();

    let (closed_tx, closed_rx) = tokio::sync::mpsc::channel::<u8>(1);
    drop(closed_rx);
    let closed_err = closed_tx.try_send(1).unwrap_err();

    let mut c = CaptureDropCounters::default();

    count_frame_drop(&mut c, cause(&full_err));
    assert_eq!(c.snapshot().full, 1);
    assert_eq!(c.snapshot().closed, 0, "full must not bump closed");

    count_frame_drop(&mut c, cause(&closed_err));
    assert_eq!(c.snapshot().closed, 1);
    assert_eq!(c.snapshot().full, 1, "closed must not bump full");
}

#[test]
fn a_frame_is_either_captured_or_dropped() {
    let mut frames = FrameCounters { frames_captured: 0, frames_dropped: 0 };
    let mut c = CaptureDropCounters::default();
    send_frame(Ok(()), &mut frames, &mut c);
    assert_eq!(c.snapshot(), CaptureDropSnapshot::default());
    send_frame(Err(DropCause::Closed), &mut frames, &mut c);
    send_frame(Err(DropCause::Full), &mut frames, &mut c);
    send_frame(Err(DropCause::Full), &mut frames, &mut c);
    assert_eq!(frames, FrameCounters { frames_captured: 1, frames_dropped: 3 });
    assert_eq!(c.snapshot(), CaptureDropSnapshot { full: 2, closed: 1 });
}

// --- engine ----------------------------------------------------------------

#[test]
fn already_stopped_error_is_benign() {
    assert!(is_benign_stop_error(true, ATTEMPT_TO_STOP_STREAM_STATE));
}

#[test]
fn other_stop_errors_are_not_benign() {
    let internal_error = -3811;
    assert!(!is_benign_stop_error(true, internal_error));
    assert!(!is_benign_stop_error(false, ATTEMPT_TO_STOP_STREAM_STATE));
}

#[test]
fn engine_state_variants_compile_and_compare() {
    assert_eq!(EngineState::Running, EngineState::Running);
    assert_ne!(EngineState::Running, EngineState::Idle);
    assert_ne!(EngineState::Stopping, EngineState::Poisoned);
}

#[test]
fn engine_states_survive_publication() {
    for state in [
        EngineState::Running,
        EngineState::Stopping,
        EngineState::Idle,
        EngineState::Poisoned,
    ] {
        assert_eq!(EngineState::from_u8(state.to_u8()), state);
        assert_eq!(state.to_u8(), state as u8);
    }
    assert_eq!(EngineState::from_u8(4), EngineState::Poisoned);
    assert_eq!(EngineState::from_u8(255), EngineState::Poisoned);
}

fn start_config() -> StartConfig {
    StartConfig {
        interval_is_positive: true,
        channel_buffer_size: DEFAULT_CHANNEL_BUFFER_SIZE,
        audio: false,
        main_display: 1,
    }
}

fn displays(ids: &[u32]) -> Vec<Display<()>> {
    ids.iter().map(|id| Display { id: *id, handle: () }).collect()
}

/// What was done to the streams, in order.
type Log = Vec<String>;

type Listed = (Log, Result<Vec<Display<()>>, CaptureError>);
type Opened = (Log, Result<u32, OpenFailure>);
type Done = (Log, Result<(), String>);

fn noted(mut log: Log, what: &str, stream: u32) -> Log {
    log.push(format!("{what} {stream}"));
    log
}

fn opens(log: Log, d: &Display<()>, audio: bool) -> Opened {
    (noted(log, if audio { "open with audio" } else { "open" }, d.id), Ok(d.id))
}

fn starts(log: Log, s: &u32) -> Done {
    (noted(log, "start", *s), Ok(()))
}

fn stops(log: Log, s: &u32) -> Done {
    (noted(log, "stop", *s), Ok(()))
}

fn never_stops(log: Log, s: &u32) -> Done {
    (noted(log, "stop", *s), Err("injected stop failure".to_string()))
}

fn lists(ids: &'static [u32]) -> impl Fn(Log) -> Listed {
    move |mut log: Log| {
        log.push("list".to_string());
        (log, Ok(displays(ids)))
    }
}

#[test]
fn start_with_deps_rejects_empty_display_list() {
    let deps = EngineDeps {
        enumerate_displays: lists(&[]),
        open_stream: |_: Log, _: &Display<()>, _: bool| -> Opened {
            unreachable!("open should not be called when there are no displays")
        },
        start_stream: |_: Log, _: &u32| -> Done {
            unreachable!("start should not be called when there are no displays")
        },
        stop_stream: |_: Log, _: &u32| -> Done {
            unreachable!("stop should not be called when there are no displays")
        },
    };
    let (log, result) = CaptureEngine::start_with_deps(start_config(), Log::new(), &deps);
    assert!(matches!(result, Err(CaptureError::NoDisplays)));
    assert_eq!(log, ["list"]);
}

#[test]
fn a_start_without_an_interval_or_a_buffer_is_refused() {
    let deps = EngineDeps {
        enumerate_displays: |_: Log| -> Listed {
            unreachable!("nothing is enumerated on a refused start")
        },
        open_stream: opens,
        start_stream: starts,
        stop_stream: stops,
    };
    let config = StartConfig { interval_is_positive: false, ..start_config() };
    let (log, result) = CaptureEngine::start_with_deps(config, Log::new(), &deps);
    assert_eq!(
        result.err().unwrap().message(),
        "screen capture kit error: frame_interval_secs must be positive"
    );
    assert!(log.is_empty());
    let config = StartConfig { channel_buffer_size: 0, ..start_config() };
    let (log, result) = CaptureEngine::start_with_deps(config, Log::new(), &deps);
    assert_eq!(
        result.err().unwrap().message(),
        "screen capture kit error: channel_buffer_size must be at least 1"
    );
    assert!(log.is_empty());
}

#[test]
fn a_failed_enumeration_is_passed_on() {
    let deps = EngineDeps {
        enumerate_displays: |log: Log| -> Listed { (log, enumerate_displays(Waited::TimedOut)) },
        open_stream: opens,
        start_stream: starts,
        stop_stream: stops,
    };
    let (log, result) = CaptureEngine::start_with_deps(start_config(), Log::new(), &deps);
    assert_eq!(
        result.err().unwrap().message(),
        "screen capture kit error: display enumeration timed out"
    );
    assert!(log.is_empty());
}

#[test]
fn rollback_reports_partial_teardown_when_stop_fails() {
    let start_calls = Cell::new(0);
    let stop_calls = Cell::new(0);
    let deps = EngineDeps {
        enumerate_displays: lists(&[11, 12, 13]),
        open_stream: opens,
        start_stream: |log: Log, s: &u32| -> Done {
            let n = start_calls.get();
            start_calls.set(n + 1);
            let result = if n == 2 {
                Err("injected failure on 3rd stream".into())
            } else {
                Ok(())
            };
            (noted(log, "start", *s), result)
        },
        stop_stream: |log: Log, s: &u32| -> Done {
            let n = stop_calls.get();
            stop_calls.set(n + 1);
            let result = if n == 0 {
                Err("injected stop failure".into())
            } else {
                Ok(())
            };
            (noted(log, "stop", *s), result)
        },
    };
    let (log, result) = CaptureEngine::start_with_deps(start_config(), Log::new(), &deps);
    let err = result.err().expect("rollback should fail");
    assert_eq!(stop_calls.get(), 2, "both running streams are stopped");
    assert_eq!(
        log,
        [
            "list", "open 11", "start 11", "open 12", "start 12", "open 13", "start 13",
            "stop 11", "stop 12",
        ]
    );
    match err {
        CaptureError::PartialTeardown { survivors, stop_errors, original } => {
            assert_eq!(survivors, vec![11], "expected one survivor");
            assert_eq!(stop_errors, vec![(11, "injected stop failure".to_string())]);
            assert_eq!(
                original.message(),
                "screen capture kit error: failed to start capture on display 13: \
                 injected failure on 3rd stream"
            );
        }
        other => panic!("expected PartialTeardown, got {other:?}"),
    }
}

#[test]
fn rollback_no_error_when_all_stops_succeed() {
    let start_calls = Cell::new(0);
    let deps = EngineDeps {
        enumerate_displays: lists(&[11, 12, 13]),
        open_stream: opens,
        start_stream: |log: Log, s: &u32| -> Done {
            let n = start_calls.get();
            start_calls.set(n + 1);
            let result = if n == 1 {
                Err("injected failure on 2nd stream".into())
            } else {
                Ok(())
            };
            (noted(log, "start", *s), result)
        },
        stop_stream: stops,
    };
    let (log, result) = CaptureEngine::start_with_deps(start_config(), Log::new(), &deps);
    let err = result.err().expect("rollback should surface the start error");
    assert!(
        matches!(err, CaptureError::ScreenCaptureKit(_)),
        "clean rollback should return ScreenCaptureKit, got {err:?}"
    );
    assert_eq!(start_calls.get(), 2, "nothing is started after a failure");
    assert_eq!(log, ["list", "open 11", "start 11", "open 12", "start 12", "stop 11"]);
}

#[test]
fn audio_goes_with_the_primary_display() {
    let deps = EngineDeps {
        enumerate_displays: lists(&[11, 12, 13]),
        open_stream: opens,
        start_stream: starts,
        stop_stream: stops,
    };
    let opened = |config| {
        let (log, engine) = CaptureEngine::start_with_deps(config, Log::new(), &deps);
        let opened: Log = log.into_iter().filter(|entry| entry.starts_with("open")).collect();
        (opened, engine.expect("starts"))
    };
    let config = StartConfig { audio: true, main_display: 12, ..start_config() };
    let (log, engine) = opened(config);
    assert_eq!(log, ["open 11", "open with audio 12", "open 13"]);
    assert_eq!(engine.display_ids, vec![11, 12, 13]);
    assert_eq!(engine.streams, vec![11, 12, 13]);

    let config = StartConfig { audio: true, main_display: 99, ..start_config() };
    assert_eq!(opened(config).0, ["open with audio 11", "open 12", "open 13"]);

    let config = StartConfig { main_display: 12, ..start_config() };
    assert_eq!(opened(config).0, ["open 11", "open 12", "open 13"]);

    assert_eq!(primary_display_id(&displays(&[3, 4]), 4), 4);
    assert_eq!(primary_display_id(&displays(&[3, 4]), 5), 3);
}

#[test]
fn a_stream_that_cannot_be_opened_ends_the_start() {
    for (failure, words) in [
        (
            OpenFailure::Output("no".to_string()),
            "screen capture kit error: failed to add output handler for display 12: no",
        ),
        (
            OpenFailure::Audio("no".to_string()),
            "screen capture kit error: failed to register audio handler on primary display: no",
        ),
    ] {
        let deps = EngineDeps {
            enumerate_displays: lists(&[11, 12]),
            open_stream: |log: Log, d: &Display<()>, _: bool| -> Opened {
                let result = if d.id == 12 {
                    Err(failure.clone())
                } else {
                    Ok(d.id)
                };
                (noted(log, "open", d.id), result)
            },
            start_stream: starts,
            stop_stream: |_: Log, _: &u32| -> Done {
                unreachable!("nothing is rolled back when a stream cannot be opened")
            },
        };
        let (log, result) = CaptureEngine::start_with_deps(start_config(), Log::new(), &deps);
        assert_eq!(result.err().unwrap().message(), words);
        assert_eq!(log, ["list", "open 11", "start 11", "open 12"]);
    }
}

fn test_engine_with_state(state: EngineState) -> CaptureEngine<u32> {
    CaptureEngine {
        streams: Vec::new(),
        display_ids: Vec::new(),
        state,
        active_displays: if state == EngineState::Poisoned { 1 } else { 0 },
    }
}

#[test]
fn stop_on_idle_is_idempotent() {
    let mut engine = test_engine_with_state(EngineState::Idle);
    let (_, result) = engine.stop(Log::new(), &never_stops);
    result.expect("stop on Idle must be idempotent");
    assert_eq!(engine.state, EngineState::Idle);
}

#[test]
fn stop_on_poisoned_returns_poisoned_err() {
    let mut engine = test_engine_with_state(EngineState::Poisoned);
    let (_, result) = engine.stop(Log::new(), &never_stops);
    let err = result.expect_err("stop on Poisoned must error");
    assert!(matches!(err, CaptureError::Poisoned));
    assert_eq!(engine.state, EngineState::Poisoned);
}

#[test]
fn stop_success_transitions_to_idle() {
    let mut engine = test_engine_with_state(EngineState::Running);
    let (_, result) = engine.stop(Log::new(), &never_stops);
    result.expect("stop on Running with no streams must succeed");
    assert_eq!(engine.state, EngineState::Idle);
}

#[test]
fn stop_failure_transitions_to_poisoned() {
    let mut engine = CaptureEngine {
        streams: vec![5u32, 6, 7],
        display_ids: vec![51, 61, 71],
        state: EngineState::Running,
        active_displays: 3,
    };
    let counters = FrameCounters { frames_captured: 9, frames_dropped: 2 };
    assert_eq!(engine.status(&counters).active_displays, 3);
    let (log, result) = engine.stop(Log::new(), &|log: Log, s: &u32| -> Done {
        let result = if *s == 6 { Ok(()) } else { Err(format!("stuck {s}")) };
        (noted(log, "stop", *s), result)
    });
    assert_eq!(log, ["stop 5", "stop 6", "stop 7"], "each is tried once");
    let err = result.expect_err("stop must fail when a stream does not stop");
    match err {
        CaptureError::PartialTeardown { survivors, stop_errors, original } => {
            assert_eq!(survivors, vec![51, 71]);
            assert_eq!(
                stop_errors,
                vec![(51, "stuck 5".to_string()), (71, "stuck 7".to_string())]
            );
            assert_eq!(original.message(), "screen capture kit error: engine stop failed");
        }
        other => panic!("expected PartialTeardown, got {other:?}"),
    }
    assert_eq!(engine.state(), EngineState::Poisoned);
    assert_eq!(engine.status(&counters).active_displays, 0);
    let snap = engine.status_probe(&counters).snapshot();
    assert_eq!(snap.active_displays, 2, "the survivors");
    assert_eq!(snap.state, EngineState::Poisoned);
    assert_eq!((snap.frames_captured, snap.frames_dropped), (9, 2));
    let (log, result) = engine.stop(Log::new(), &never_stops);
    assert!(matches!(result, Err(CaptureError::Poisoned)));
    assert!(log.is_empty(), "no stream is tried again");
}

#[test]
fn status_probe_reads_live_state_and_counters() {
    let mut probe = EngineStatusProbe {
        frames_captured: 42,
        frames_dropped: 3,
        state: EngineState::Running as u8,
        active_displays: 2,
    };
    let snap = probe.snapshot();
    assert_eq!(snap.frames_captured, 42);
    assert_eq!(snap.frames_dropped, 3);
    assert_eq!(snap.state, EngineState::Running);
    assert_eq!(snap.active_displays, 2);

    probe.state = EngineState::Idle as u8;
    probe.active_displays = 0;
    let snap2 = probe.snapshot();
    assert_eq!(snap2.state, EngineState::Idle);
    assert_eq!(snap2.active_displays, 0);
}

#[test]
fn a_completion_handler_that_does_not_reply_is_an_error() {
    assert!(start_stream(Waited::Reply(None)).is_ok());
    assert_eq!(start_stream(Waited::Reply(Some("x".to_string()))), Err("x".to_string()));
    assert_eq!(start_stream(Waited::TimedOut), Err("start capture timed out".to_string()));
    assert_eq!(
        start_stream(Waited::Closed),
        Err("start capture completion handler channel closed".to_string())
    );
    assert!(stop_stream(Waited::Reply(None)).is_ok());
    assert_eq!(stop_stream(Waited::Reply(Some("x".to_string()))), Err("x".to_string()));
    assert_eq!(stop_stream(Waited::TimedOut), Err("stop capture timed out".to_string()));
    assert_eq!(
        stop_stream(Waited::Closed),
        Err("stop capture completion handler channel closed".to_string())
    );
}

#[test]
fn an_enumeration_gives_displays_or_the_reason() {
    assert_eq!(displays_found(None, Some(vec![1, 2])), Ok(vec![1, 2]));
    assert_eq!(
        displays_found::<i32>(Some("denied".to_string()), None),
        Err("denied".to_string())
    );
    assert_eq!(
        displays_found::<i32>(None, None),
        Err("SCShareableContent was null".to_string())
    );
    assert_eq!(enumerate_displays(Waited::Reply(Ok(vec![1, 2]))).unwrap(), vec![1, 2]);
    assert_eq!(
        enumerate_displays::<i32>(Waited::Reply(Err("denied".to_string())))
            .unwrap_err()
            .message(),
        "screen capture kit error: denied"
    );
    assert_eq!(
        enumerate_displays::<i32>(Waited::Closed).unwrap_err().message(),
        "screen capture kit error: display enumeration channel closed"
    );
}

#[test]
fn a_stream_that_was_already_stopped_counts_as_stopped() {
    let error = |code: i64| {
        Some(StopError { is_stream_domain: true, code, description: "bad".to_string() })
    };
    assert_eq!(stop_completed(None), None);
    assert_eq!(stop_completed(error(-3808)), None);
    assert_eq!(stop_completed(error(-3811)), Some("bad".to_string()));
}

// --- errors ----------------------------------------------------------------

#[test]
fn error_displays_message() {
    let err = CaptureError::ScreenCaptureKit("permission denied".into());
    assert!(err.message().contains("permission denied"));
}

#[test]
fn no_displays_error_displays() {
    let err = CaptureError::NoDisplays;
    assert_eq!(err.message(), "no displays found");
}

#[test]
fn encoding_error_displays() {
    let err = CaptureError::Encoding("pixel buffer locked".into());
    assert!(err.message().contains("pixel buffer locked"));
    assert!(err.message().contains("heif encoding failed"));
}

#[test]
fn partial_teardown_error_includes_survivor_count() {
    let err = CaptureError::PartialTeardown {
        survivors: vec![1, 2],
        stop_errors: vec![(1, "timeout".into()), (2, "hung".into())],
        original: Box::new(CaptureError::ScreenCaptureKit("boom".into())),
    };
    let s = err.message();
    assert!(
        s.contains("2"),
        "message should include survivor count: {s}"
    );
    assert!(
        s.contains("[1, 2]"),
        "message should include survivor ids: {s}"
    );
    assert_eq!(
        s,
        "capture teardown failed; 2 stream(s) may still be running: [1, 2]"
    );
}

#[test]
fn poisoned_error_displays() {
    let err = CaptureError::Poisoned;
    assert_eq!(err.message(), "engine is poisoned after stop failure");
}

// --- frames ----------------------------------------------------------------

#[test]
fn should_warn_fires_first_then_every_nth() {
    assert!(should_warn(1));
    assert!(!should_warn(2));
    assert!(!should_warn(149));
    assert!(should_warn(150));
    assert!(!should_warn(151));
    assert!(should_warn(300));
}

#[test]
fn a_frame_without_an_image_is_skipped() {
    let mut count = 0;
    assert_eq!(frame_received(StreamOutput::Audio, false, &mut count), FrameStep::Ignore);
    assert_eq!(frame_received(StreamOutput::Screen, true, &mut count), FrameStep::Send);
    assert_eq!(count, 0);
    assert_eq!(
        frame_received(StreamOutput::Screen, false, &mut count),
        FrameStep::Skip { count: 1, warn: true }
    );
    assert_eq!(
        frame_received(StreamOutput::Screen, false, &mut count),
        FrameStep::Skip { count: 2, warn: false }
    );
    assert_eq!(count, 2);
}

#[test]
fn read_only_lock_flag_is_correct() {
    assert_eq!(K_CV_PIXEL_BUFFER_LOCK_READ_ONLY, 1);
}

#[test]
fn a_pixel_buffer_is_measured_before_it_is_read() {
    let locked = LockOutcome::Locked { width: 3, height: 2, bytes_per_row: 16 };
    let guard = PixelBufferGuard::new(locked).unwrap();
    assert_eq!(guard.data_len, 32);
    assert_eq!((guard.width, guard.height, guard.bytes_per_row), (3, 2, 16));

    let err = PixelBufferGuard::new(LockOutcome::Failed { status: -6660 }).unwrap_err();
    assert!(!err.unlock);
    assert_eq!(
        err.error.message(),
        "heif encoding failed: failed to lock pixel buffer: CVReturn -6660"
    );

    let err = PixelBufferGuard::new(LockOutcome::NoBaseAddress).unwrap_err();
    assert!(err.unlock);
    assert_eq!(
        err.error.message(),
        "heif encoding failed: pixel buffer base address is null"
    );

    for height in [usize::MAX, isize::MAX as usize] {
        let huge = LockOutcome::Locked { width: 1, height, bytes_per_row: 2 };
        let err = PixelBufferGuard::new(huge).unwrap_err();
        assert!(err.unlock);
        assert_eq!(
            err.error.message(),
            "heif encoding failed: pixel buffer size overflow while computing data_len"
        );
    }
}

#[test]
fn only_bgra_frames_are_encoded() {
    assert_eq!(BGRA_FOURCC, u32::from_be_bytes(*b"BGRA"));
    assert_eq!(BGRA_BITMAP_INFO, 0x2002);
    assert!(check_frame(true, Some(BGRA_FOURCC)).is_ok());
    assert_eq!(
        check_frame(false, None).unwrap_err().message(),
        "heif encoding failed: quality must be between 0.0 and 1.0"
    );
    assert_eq!(
        check_frame(true, None).unwrap_err().message(),
        "heif encoding failed: failed to extract pixel buffer"
    );
    assert_eq!(
        check_frame(true, Some(0xabc)).unwrap_err().message(),
        "heif encoding failed: expected BGRA pixel format, got 0x00000ABC"
    );
}

#[test]
fn create_cgimage_from_bgra_valid_data() {
    assert!(check_data(50 * 50 * 4, 50, 50 * 4).is_ok());
    assert_eq!(
        check_data(10, 3, 4).unwrap_err().message(),
        "heif encoding failed: data slice too small: 10 < 12"
    );
    let saturated = check_data(10, usize::MAX, 4).unwrap_err().message();
    assert!(saturated.ends_with(&format!("10 < {}", usize::MAX)));
}

#[test]
fn an_image_that_is_not_written_says_why() {
    for (step, words) in [
        (HeifStep::Url, "failed to create URL from path"),
        (HeifStep::Destination, "failed to create image destination"),
        (HeifStep::Finalize, "failed to finalize HEIF output"),
    ] {
        assert_eq!(
            write_failed(step).message(),
            format!("heif encoding failed: {words}")
        );
    }
}

// --- metadata --------------------------------------------------------------

fn safari() -> Option<FrontmostApp> {
    Some(FrontmostApp {
        name: Some("Safari".to_string()),
        bundle_id: Some("com.apple.Safari".to_string()),
        pid: 501,
    })
}

fn window(owner_pid: i32, layer: i32, name: &str) -> WindowInfo {
    WindowInfo {
        owner_pid: Some(owner_pid),
        layer: Some(layer),
        name: Some(name.to_string()),
    }
}

#[test]
fn get_frontmost_app_returns_metadata() {
    let meta = get_frontmost_app(safari(), &[window(501, 0, "Google - Safari")]);
    assert!(
        meta.app_name.is_some(),
        "expected app_name to be Some, got None"
    );
    assert_eq!(meta.app_name.as_deref(), Some("Safari"));
    assert_eq!(meta.window_title.as_deref(), Some("Google - Safari"));
}

#[test]
fn get_frontmost_app_never_panics() {
    for _ in 0..100 {
        let _ = get_frontmost_app(safari(), &[window(501, 0, "")]);
        let _ = get_frontmost_app(None, &[]);
    }
}

#[test]
fn app_metadata_default_is_all_none() {
    let meta = AppMetadata::default();
    assert!(meta.app_name.is_none());
    assert!(meta.app_bundle_id.is_none());
    assert!(meta.window_title.is_none());
}

#[test]
fn bundle_id_looks_like_reverse_dns() {
    let meta = get_frontmost_app(safari(), &[]);
    if let Some(ref bundle_id) = meta.app_bundle_id {
        assert!(
            bundle_id.contains('.'),
            "bundle_id '{bundle_id}' doesn't look like reverse-DNS"
        );
    }
}

#[test]
fn app_metadata_debug_format() {
    let meta = get_frontmost_app(safari(), &[]);
    let debug_str = format!("{meta:?}");
    assert!(debug_str.contains("AppMetadata"));
}

#[test]
fn the_first_titled_window_of_the_process_counts() {
    let windows = vec![
        window(7, 0, "of another process"),
        window(501, 25, "a menu"),
        window(501, 0, ""),
        WindowInfo { owner_pid: Some(501), layer: Some(0), name: None },
        WindowInfo { owner_pid: None, layer: Some(0), name: Some("of nobody".to_string()) },
        window(501, 0, "first"),
        window(501, 0, "second"),
    ];
    assert_eq!(get_window_title_for_pid(&windows, 501).as_deref(), Some("first"));
    assert_eq!(get_window_title_for_pid(&windows, 8), None);
    let meta = get_frontmost_app(None, &windows);
    assert_eq!(meta, AppMetadata::default());
}
