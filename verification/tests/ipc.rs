use chronicle::ipc::retention::{
    Rejected, Retention, DEFAULT_RETENTION_DAYS, MAX_RETENTION_DAYS,
};
use chronicle::ipc::server::{
    after_reply, bind_failed, frame, harden_socket_permissions, line_received, refusal, respond,
    serve_line,
    start, LineStep, ReplyOutcome, ServerError, SocketProbe, SocketStep, MAX_REQUEST_LINE,
    SOCKET_MODE,
};
use chronicle::ipc::{
    AudioStats, CaptureStats, ErrorCode, MicState, ModelEntry, OcrStats, Request,
    RequestHandler, Response, StatusData, StorageStats, TranscriptionState, TranscriptionStats,
};

// --- microphone state ------------------------------------------------------

#[test]
fn mic_state_default_is_off() {
    assert_eq!(MicState::default(), MicState::Off);
}

#[test]
fn mic_state_from_u8_on() {
    assert_eq!(MicState::from_u8(1), MicState::On);
}

#[test]
fn mic_state_from_u8_unknown_maps_to_off() {
    assert_eq!(MicState::from_u8(99), MicState::Off);
}

#[test]
fn mic_state_atom_round_trip_holds_for_every_variant() {
    for variant in [
        MicState::Off,
        MicState::On,
        MicState::PermissionDenied,
        MicState::Error,
    ] {
        assert_eq!(MicState::from_u8(variant as u8), variant);
        assert_eq!(MicState::from_u8(variant.to_u8()), variant);
    }
}

// --- defaults --------------------------------------------------------------

#[test]
fn fresh_statistics_are_all_zero() {
    assert_eq!(
        CaptureStats::default(),
        CaptureStats {
            state: String::new(),
            active_displays: 0,
            frames_captured: 0,
            frames_dropped: 0,
            frames_processed: 0,
            frames_failed: 0,
            paused: false,
        }
    );
    assert_eq!(OcrStats::default(), OcrStats { enqueued: 0, dropped: 0 });
    assert_eq!(AudioStats::default().mic_state, MicState::Off);
    assert_eq!(StorageStats::default().oldest_entry_ms, None);
    assert_eq!(ModelEntry::default().size_bytes, 0);
    assert_eq!(TranscriptionState::default(), TranscriptionState::Missing);
    let stats = TranscriptionStats::default();
    assert_eq!(stats.state, TranscriptionState::Missing);
    assert_eq!(stats.error, None);
    assert_eq!(stats.download_bytes, None);
    assert_eq!(stats.download_total_bytes, None);
    assert!(stats.models.is_empty());
}

// --- retention -------------------------------------------------------------

#[test]
fn zero_is_disabled() {
    assert_eq!(Retention::classify("0"), Ok(Retention::Disabled));
}

#[test]
fn a_positive_value_within_the_bound_is_days() {
    assert_eq!(Retention::classify("30"), Ok(Retention::Days { value: 30 }));
}

#[test]
fn retention_the_bound_itself_is_accepted() {
    let at_bound = MAX_RETENTION_DAYS.to_string();
    assert_eq!(
        Retention::classify(&at_bound),
        Ok(Retention::Days {
            value: MAX_RETENTION_DAYS as u32
        })
    );
}

#[test]
fn one_past_the_bound_is_refused_as_above_max() {
    let past = (MAX_RETENTION_DAYS + 1).to_string();
    assert_eq!(Retention::classify(&past), Err(Rejected::AboveMax));
}

#[test]
fn a_negative_value_is_refused_as_negative() {
    assert_eq!(Retention::classify("-1"), Err(Rejected::Negative));
}

#[test]
fn text_is_refused_as_not_a_number() {
    assert_eq!(Retention::classify("thirty"), Err(Rejected::NotANumber));
}

#[test]
fn a_value_too_large_for_i64_is_not_a_number() {
    assert_eq!(
        Retention::classify("99999999999999999999"),
        Err(Rejected::NotANumber)
    );
}

#[test]
fn surrounding_whitespace_is_ignored() {
    assert_eq!(
        Retention::classify(" 30 "),
        Ok(Retention::Days { value: 30 })
    );
}

#[test]
fn parse_collapses_every_refusal_to_invalid() {
    for raw in ["thirty", "-1", "99999999999999999999"] {
        assert_eq!(Retention::parse(raw), Retention::Invalid, "raw={raw}");
    }
    let past = (MAX_RETENTION_DAYS + 1).to_string();
    assert_eq!(Retention::parse(&past), Retention::Invalid);
}

#[test]
fn an_absent_row_is_the_default_not_a_refusal() {
    assert_eq!(
        Retention::from_stored(None),
        Retention::Days {
            value: DEFAULT_RETENTION_DAYS
        }
    );
}

#[test]
fn a_present_row_goes_through_parse() {
    assert_eq!(Retention::from_stored(Some("0")), Retention::Disabled);
    assert_eq!(Retention::from_stored(Some("bad")), Retention::Invalid);
}

#[test]
fn the_default_is_the_documented_retention() {
    assert_eq!(
        Retention::default(),
        Retention::Days {
            value: DEFAULT_RETENTION_DAYS
        }
    );
}

#[test]
fn the_policy_numbers_are_what_the_design_says() {
    assert_eq!(DEFAULT_RETENTION_DAYS, 30);
    assert_eq!(MAX_RETENTION_DAYS, 36_500);
}

#[test]
fn the_default_is_a_value_classify_accepts() {
    assert_eq!(
        Retention::classify(&DEFAULT_RETENTION_DAYS.to_string()),
        Ok(Retention::default())
    );
}

#[test]
fn an_empty_value_is_not_a_number() {
    assert_eq!(Retention::classify(""), Err(Rejected::NotANumber));
    assert_eq!(Retention::classify("   "), Err(Rejected::NotANumber));
}

#[test]
fn a_leading_plus_is_accepted() {
    assert_eq!(
        Retention::classify("+30"),
        Ok(Retention::Days { value: 30 })
    );
}

#[test]
fn a_sign_alone_is_not_a_number() {
    assert_eq!(Retention::classify("-"), Err(Rejected::NotANumber));
    assert_eq!(Retention::classify("+"), Err(Rejected::NotANumber));
    assert_eq!(Retention::classify("-0"), Ok(Retention::Disabled));
    assert_eq!(Retention::classify("3 0"), Err(Rejected::NotANumber));
}

// --- server ----------------------------------------------------------------

struct MockHandler;

impl RequestHandler<f64> for MockHandler {
    fn handle(&self, req: Request) -> Response<f64> {
        match req {
            Request::Status => Response::Status {
                ok: true,
                data: StatusData {
                    uptime_secs: 42,
                    version: "0.1.0-test".to_string(),
                    capture: CaptureStats::default(),
                    ocr: OcrStats::default(),
                    audio: AudioStats::default(),
                    storage: StorageStats::default(),
                    transcription: TranscriptionStats::default(),
                },
            },
            Request::SetMicEnabled { .. } => Response::SetMicEnabled {
                ok: true,
                state: MicState::On,
            },
            Request::Search { .. } => Response::Search { ok: true, hits: vec![] },
            Request::GetScreenshot { .. } => Response::GetScreenshot { ok: true, hit: None },
            Request::PauseCapture => Response::PauseCapture { ok: true, paused: false },
            Request::ResumeCapture => Response::ResumeCapture { ok: true, paused: false },
            Request::SetWhisperModel { .. } => Response::SetWhisperModel {
                ok: true,
                status: TranscriptionStats::default(),
            },
        }
    }
}

/// The requests that the handler was given, in order.
type Log = Vec<Request>;

fn handle(mut log: Log, request: Request) -> (Log, Response<f64>) {
    log.push(request.clone());
    (log, MockHandler.handle(request))
}

fn answer(parsed: Option<Request>) -> Response<f64> {
    let (log, response) = respond(Log::new(), &handle, parsed.clone());
    assert_eq!(log, parsed.into_iter().collect::<Log>(), "once for a request, and only then");
    response
}

#[test]
fn every_line_has_its_answer_and_the_handler_runs_for_requests_alone() {
    let parse = |text: &str| match text {
        "status" => Some(Request::Status),
        "pause" => Some(Request::PauseCapture),
        _ => None,
    };
    let lines: [&[u8]; 6] =
        [b" status \n", b"junk\n", b"\xff\n", b"pause\n", b"\n", b"status"];
    let mut log = Log::new();
    let mut codes = Vec::new();
    for line in lines {
        let (after, served) = serve_line(log, line, &parse, &handle);
        log = after;
        codes.push(match served.reply {
            Some(Response::Error { code, .. }) => Some(code),
            Some(_) => None,
            None => panic!("a line is always answered"),
        });
        assert!(after_reply(&served.step, ReplyOutcome::Written));
    }
    assert_eq!(log, [Request::Status, Request::PauseCapture, Request::Status]);
    assert_eq!(
        codes,
        [
            None,
            Some(ErrorCode::InvalidRequest),
            Some(ErrorCode::InvalidUtf8),
            None,
            Some(ErrorCode::InvalidRequest),
            None,
        ]
    );

    let (log, served) = serve_line(Log::new(), &vec![b'x'; 65_536], &parse, &handle);
    assert!(log.is_empty());
    assert!(matches!(
        served.reply,
        Some(Response::Error { code: ErrorCode::RequestTooLarge, .. })
    ));
    assert!(!after_reply(&served.step, ReplyOutcome::Written));
    let (log, served) = serve_line(Log::new(), &[], &parse, &handle);
    assert!(log.is_empty());
    assert_eq!(served.reply, None);
    assert_eq!(served.step, LineStep::Close);
}

#[test]
fn server_responds_to_status_request() {
    match answer(Some(Request::Status)) {
        Response::Status { ok, data } => {
            assert!(ok);
            assert_eq!(data.uptime_secs, 42);
            assert_eq!(data.version, "0.1.0-test");
        }
        other => panic!("expected Status, got {other:?}"),
    }
}

#[test]
fn server_responds_to_set_mic_enabled_request() {
    assert_eq!(
        answer(Some(Request::SetMicEnabled { enabled: true })),
        Response::SetMicEnabled { ok: true, state: MicState::On }
    );
}

#[test]
fn server_responds_to_set_whisper_model_request() {
    let request = Request::SetWhisperModel { variant: "small".to_string() };
    assert_eq!(
        answer(Some(request)),
        Response::SetWhisperModel { ok: true, status: TranscriptionStats::default() }
    );
}

#[test]
fn server_returns_error_for_invalid_json() {
    let step = line_received(b"not json\n");
    assert_eq!(step, LineStep::Parse("not json".to_string()));
    assert_eq!(
        answer(None),
        Response::Error {
            ok: false,
            code: ErrorCode::InvalidRequest,
            message: "invalid request".to_string(),
        }
    );
    assert!(after_reply(&step, ReplyOutcome::Written));
}

#[test]
fn server_error_for_oversized_request_has_code() {
    // More than the limit, with no newline; the server reads up to the limit.
    let big = vec![b'x'; 64 * 1024 + 1];
    let step = line_received(&big[..MAX_REQUEST_LINE]);
    assert_eq!(step, LineStep::RefuseAndClose(ErrorCode::RequestTooLarge));
    assert_eq!(
        refusal::<f64>(ErrorCode::RequestTooLarge),
        Response::Error {
            ok: false,
            code: ErrorCode::RequestTooLarge,
            message: "request too large".to_string(),
        }
    );
    assert!(!after_reply(&step, ReplyOutcome::Written));
}

#[test]
fn server_error_for_invalid_utf8_has_code() {
    let step = line_received(&[0xff, 0xfe, b'\n']);
    assert_eq!(step, LineStep::Refuse(ErrorCode::InvalidUtf8));
    assert_eq!(
        refusal::<f64>(ErrorCode::InvalidUtf8),
        Response::Error {
            ok: false,
            code: ErrorCode::InvalidUtf8,
            message: "invalid UTF-8".to_string(),
        }
    );
    assert!(after_reply(&step, ReplyOutcome::NotWritten), "the connection stays open");
}

#[test]
fn a_line_of_exactly_the_limit_is_read() {
    let mut line = vec![b'x'; MAX_REQUEST_LINE - 1];
    line.push(b'\n');
    match line_received(&line) {
        LineStep::Parse(text) => assert_eq!(text.len(), MAX_REQUEST_LINE - 1),
        other => panic!("expected Parse, got {other:?}"),
    }
    let short = vec![b'x'; MAX_REQUEST_LINE - 1];
    assert!(matches!(line_received(&short), LineStep::Parse(_)));
}

#[test]
fn a_line_is_read_without_the_white_space_around_it() {
    assert_eq!(
        line_received("  {\"type\":\"é\"}\u{a0}\r\n".as_bytes()),
        LineStep::Parse("{\"type\":\"é\"}".to_string())
    );
    assert_eq!(line_received(b"\n"), LineStep::Parse(String::new()));
    assert_eq!(line_received(b""), LineStep::Close);
    assert_eq!(
        line_received(&[0xe2, 0x82, b'\n']),
        LineStep::Refuse(ErrorCode::InvalidUtf8),
        "a cut character"
    );
}

#[test]
fn a_reply_is_one_line() {
    assert_eq!(frame("{\"ok\":true}"), "{\"ok\":true}\n");
}

#[test]
fn a_failed_reply_closes_the_connection() {
    let step = LineStep::Parse(String::new());
    assert!(!after_reply(&step, ReplyOutcome::NotWritten));
    assert!(!after_reply(&step, ReplyOutcome::NotSerialized));
    assert!(!after_reply(&LineStep::Close, ReplyOutcome::Written));
}

#[test]
fn server_removes_stale_socket_on_start() {
    assert_eq!(start("/tmp/s", SocketProbe::Absent), Ok(SocketStep::Bind));
    assert_eq!(start("/tmp/s", SocketProbe::Stale), Ok(SocketStep::RemoveAndBind));
}

#[test]
fn a_running_daemon_is_not_clobbered() {
    let err = start("/tmp/s", SocketProbe::Answered).unwrap_err();
    assert_eq!(
        err.message(),
        "failed to bind socket at /tmp/s: another daemon is already listening on this socket"
    );
    assert_eq!(
        bind_failed("/tmp/s", "denied").message(),
        "failed to bind socket at /tmp/s: denied"
    );
}

#[test]
fn server_socket_has_owner_only_permissions() {
    assert_eq!(SOCKET_MODE, 0o600);
    assert!(harden_socket_permissions("/tmp/s", None).is_ok());
}

#[test]
fn harden_socket_permissions_errors_on_missing_path() {
    let missing = "/tmp/does-not-exist.sock";
    let (err, remove) = harden_socket_permissions(missing, Some("not found")).unwrap_err();
    assert!(matches!(err, ServerError::Permissions { .. }));
    assert!(remove, "no under-permissioned socket is left");
    assert_eq!(
        err.message(),
        "failed to set permissions on socket at /tmp/does-not-exist.sock: not found"
    );
}

#[test]
fn server_handles_multiple_requests_per_connection() {
    for _ in 0..2 {
        let step = line_received(b"{\"type\":\"status\"}\n");
        assert_eq!(step, LineStep::Parse("{\"type\":\"status\"}".to_string()));
        assert!(after_reply(&step, ReplyOutcome::Written));
    }
}
