//! The capture engine: one stream per display, started together and stopped together.

use vstd::prelude::*;
use crate::capture::drops::FrameCounters;
use crate::capture::error::CaptureError;
use crate::capture::CaptureStatus;
use crate::text::{concat, concat3, decimal, decimal_u64, owned};

verus! {

/// How long a stream may take to start, in seconds.
pub const START_TIMEOUT_SECS: u64 = 10;

/// How long a stream may take to stop, in seconds. Shorter, because a hung stop would make the
/// daemon unkillable.
pub const STOP_TIMEOUT_SECS: u64 = 5;

/// The code of an attempt to stop a stream that is already stopped.
pub const ATTEMPT_TO_STOP_STREAM_STATE: i64 = -3808;

/// Post-construction lifecycle state of an engine.
///
/// `Running` on successful construction. A stop leads through `Stopping` to either `Idle` (clean
/// teardown) or `Poisoned` (one or more streams failed to stop).
#[derive(Debug, Clone, Copy, PartialEq, Eq, Structural)]
pub enum EngineState {
    Running,
    Stopping,
    Idle,
    Poisoned,
}

impl EngineState {
    /// The number under which the state is published.
    pub open spec fn number(self) -> u8 {
        match self {
            EngineState::Running => 0,
            EngineState::Stopping => 1,
            EngineState::Idle => 2,
            EngineState::Poisoned => 3,
        }
    }

    /// The state that is published under a number. Any unknown one is `Poisoned`.
    pub open spec fn published(value: u8) -> EngineState {
        if value == 0 {
            EngineState::Running
        } else if value == 1 {
            EngineState::Stopping
        } else if value == 2 {
            EngineState::Idle
        } else {
            EngineState::Poisoned
        }
    }

    /// Reconstruct from the `u8` under which the state is published.
    pub fn from_u8(value: u8) -> (r: Self)
        ensures
            r == EngineState::published(value),
    {
        match value {
            0 => EngineState::Running,
            1 => EngineState::Stopping,
            2 => EngineState::Idle,
            _ => EngineState::Poisoned,
        }
    }

    /// The number under which the state is published.
    pub fn to_u8(self) -> (r: u8)
        ensures
            r == self.number(),
    {
        match self {
            EngineState::Running => 0,
            EngineState::Stopping => 1,
            EngineState::Idle => 2,
            EngineState::Poisoned => 3,
        }
    }
}

/// A state that is published is the one that is read.
pub proof fn a_published_engine_state_is_read_back(state: EngineState)
    ensures
        EngineState::published(state.number()) == state,
{
}

/// A connected display.
#[derive(Debug, Clone, Copy, PartialEq, Eq)]
pub struct Display<D> {
    pub id: u32,
    /// What a stream is opened on.
    pub handle: D,
}

/// Why a stream could not be opened.
#[derive(Debug, Clone, PartialEq, Eq)]
pub enum OpenFailure {
    /// The handler of its frames could not be added.
    Output(String),
    /// The handler of its audio could not be added.
    Audio(String),
}

impl OpenFailure {
    /// What is said about the display.
    pub open spec fn words(self, display_id: u32) -> Seq<char> {
        match self {
            OpenFailure::Output(why) => "failed to add output handler for display "@ + decimal(
                display_id as int,
            ) + ": "@ + why@,
            OpenFailure::Audio(why) => "failed to register audio handler on primary display: "@
                + why@,
        }
    }

    fn message(&self, display_id: u32) -> (r: String)
        ensures
            r@ == self.words(display_id),
    {
        match self {
            OpenFailure::Output(why) => {
                let id = decimal_u64(display_id as u64);
                let on = concat3("failed to add output handler for display ", id.as_str(), ": ");
                concat(on.as_str(), why.as_str())
            },
            OpenFailure::Audio(why) => concat(
                "failed to register audio handler on primary display: ",
                why.as_str(),
            ),
        }
    }
}

/// The operations on displays and streams that the engine performs.
///
/// Each takes the state of the system that it works on, and gives back what it has left. The
/// engine hands that on from one operation to the next, so its states tell which operations
/// ran, and in which order.
pub struct EngineDeps<E, O, B, T> {
    /// List the connected displays.
    pub enumerate_displays: E,
    /// Open a stream on a display, with or without audio.
    pub open_stream: O,
    pub start_stream: B,
    pub stop_stream: T,
}

/// What the engine is started with.
#[derive(Debug, Clone, Copy, PartialEq, Eq, Structural)]
pub struct StartConfig {
    /// Whether the minimum time between frames is more than nothing.
    pub interval_is_positive: bool,
    /// Backpressure buffer size of the frame channel.
    pub channel_buffer_size: usize,
    /// Whether audio is captured, on the primary display's stream.
    pub audio: bool,
    /// The display that the system calls its main one.
    pub main_display: u32,
}

/// The primary display: the main one, or the first if the main one is not among them (as
/// during display hot-plug).
pub open spec fn primary<D>(displays: Seq<Display<D>>, main_display: u32) -> u32 {
    if exists|i: int| 0 <= i < displays.len() && (#[trigger] displays[i]).id == main_display {
        main_display
    } else {
        displays[0].id
    }
}

/// Identify the primary display for audio.
pub fn primary_display_id<D>(displays: &[Display<D>], main_display: u32) -> (r: u32)
    requires
        displays@.len() > 0,
    ensures
        r == primary(displays@, main_display),
{
    let mut i: usize = 0;
    while i < displays.len()
        invariant
            i <= displays@.len(),
            forall|k: int| 0 <= k < i ==> (#[trigger] displays@[k]).id != main_display,
        decreases displays@.len() - i,
    {
        if displays[i].id == main_display {
            return main_display;
        }
        i += 1;
    }
    displays[0].id
}

/// The display whose stream carries audio, if there is to be any.
pub open spec fn audio_display<D>(config: StartConfig, displays: Seq<Display<D>>) -> Option<u32> {
    if config.audio {
        Some(primary(displays, config.main_display))
    } else {
        None
    }
}

/// Whether opening a stream on the display can lead from one state to the other, and come out
/// so.
pub open spec fn opens<W, D, S, O: Fn(W, &Display<D>, bool) -> (W, Result<S, OpenFailure>)>(
    open_stream: O,
    display: Display<D>,
    audio: Option<u32>,
    before: W,
    after: W,
    r: Result<S, OpenFailure>,
) -> bool {
    call_ensures(open_stream, (before, &display, audio == Some(display.id)), (after, r))
}

/// Whether starting or stopping the stream can lead from one state to the other, and come out
/// so.
pub open spec fn yields<W, S, F: Fn(W, &S) -> (W, Result<(), String>)>(
    operation: F,
    stream: S,
    before: W,
    after: W,
    r: Result<(), String>,
) -> bool {
    call_ensures(operation, (before, &stream), (after, r))
}

/// Whether the stream was opened on its display and then started, which led from one state to
/// the other.
pub open spec fn comes_up<
    W,
    D,
    S,
    O: Fn(W, &Display<D>, bool) -> (W, Result<S, OpenFailure>),
    B: Fn(W, &S) -> (W, Result<(), String>),
>(
    open_stream: O,
    start_stream: B,
    display: Display<D>,
    audio: Option<u32>,
    stream: S,
    before: W,
    after: W,
) -> bool {
    exists|opened: W| #[trigger]
        opens(open_stream, display, audio, before, opened, Ok(stream)) && yields(
            start_stream,
            stream,
            opened,
            after,
            Ok(()),
        )
}

/// Whether these streams were opened and started, each once on its display, one after the
/// other: `states` has what the system was at first and what it was after each.
pub open spec fn started<
    W,
    D,
    S,
    O: Fn(W, &Display<D>, bool) -> (W, Result<S, OpenFailure>),
    B: Fn(W, &S) -> (W, Result<(), String>),
>(
    open_stream: O,
    start_stream: B,
    displays: Seq<Display<D>>,
    audio: Option<u32>,
    streams: Seq<S>,
    states: Seq<W>,
) -> bool {
    &&& streams.len() <= displays.len()
    &&& states.len() == streams.len() + 1
    &&& forall|i: int|
        0 <= i < streams.len() ==> comes_up(
            open_stream,
            start_stream,
            displays[i],
            audio,
            #[trigger] streams[i],
            states[i],
            states[i + 1],
        )
}

/// Whether these streams were stopped, each once and in order, and that came out so: `states`
/// has what the system was at first and what it was after each.
pub open spec fn stopped<W, S, T: Fn(W, &S) -> (W, Result<(), String>)>(
    stop_stream: T,
    streams: Seq<S>,
    stops: Seq<Result<(), String>>,
    states: Seq<W>,
) -> bool {
    &&& stops.len() == streams.len()
    &&& states.len() == streams.len() + 1
    &&& forall|i: int|
        0 <= i < streams.len() ==> yields(
            stop_stream,
            #[trigger] streams[i],
            states[i],
            states[i + 1],
            stops[i],
        )
}

/// The displays whose streams did not stop, and why.
pub open spec fn failures(ids: Seq<u32>, stops: Seq<Result<(), String>>) -> Seq<(u32, Seq<char>)>
    decreases stops.len(),
{
    if stops.len() == 0 {
        Seq::empty()
    } else {
        let before = failures(ids, stops.drop_last());
        match stops.last() {
            Ok(_) => before,
            Err(why) => before.push((ids[stops.len() - 1], why@)),
        }
    }
}

/// The errors as they read.
pub open spec fn error_views(errors: Seq<(u32, String)>) -> Seq<(u32, Seq<char>)> {
    Seq::new(errors.len(), |i: int| (errors[i].0, errors[i].1@))
}

/// The displays of the errors.
pub open spec fn failed_ids(failed: Seq<(u32, Seq<char>)>) -> Seq<u32> {
    Seq::new(failed.len(), |i: int| failed[i].0)
}

/// The ids of the displays.
pub open spec fn display_ids<D>(displays: Seq<Display<D>>) -> Seq<u32> {
    Seq::new(displays.len(), |i: int| displays[i].id)
}

/// Whether the error says that these streams did not stop, when they had to because of this
/// cause.
pub open spec fn reports_survivors(
    error: CaptureError,
    failed: Seq<(u32, Seq<char>)>,
    cause: Seq<char>,
) -> bool {
    match error {
        CaptureError::PartialTeardown { survivors, stop_errors, original } => {
            &&& survivors@ == failed_ids(failed)
            &&& error_views(stop_errors@) == failed
            &&& original.blames_kit(cause)
        },
        _ => false,
    }
}

/// What is said when a display's stream does not start.
pub open spec fn start_words(display_id: u32, why: Seq<char>) -> Seq<char> {
    "failed to start capture on display "@ + decimal(display_id as int) + ": "@ + why
}

/// Whether the error is that of a start that was rolled back: the cause itself if every stream
/// stopped, and the survivors otherwise.
pub open spec fn rolled_back(
    error: CaptureError,
    failed: Seq<(u32, Seq<char>)>,
    cause: Seq<char>,
) -> bool {
    if failed.len() == 0 {
        error.blames_kit(cause)
    } else {
        reports_survivors(error, failed, cause)
    }
}

/// Whether a start came to its end on this display with this error, and led from one state to
/// the other. A stream that cannot be opened ends it there; one that does not start has the
/// others stopped again.
pub open spec fn ends_on<
    W,
    D,
    S,
    E,
    O: Fn(W, &Display<D>, bool) -> (W, Result<S, OpenFailure>),
    B: Fn(W, &S) -> (W, Result<(), String>),
    T: Fn(W, &S) -> (W, Result<(), String>),
>(
    deps: EngineDeps<E, O, B, T>,
    displays: Seq<Display<D>>,
    audio: Option<u32>,
    streams: Seq<S>,
    before: W,
    after: W,
    error: CaptureError,
) -> bool {
    let display = displays[streams.len() as int];
    ||| exists|why: OpenFailure|
        #[trigger] opens(
            deps.open_stream,
            display,
            audio,
            before,
            after,
            Err::<S, OpenFailure>(why),
        ) && error.blames_kit(why.words(display.id))
    ||| exists|stream: S, opened: W, why: String, stops: Seq<Result<(), String>>, states: Seq<W>|
        {
            &&& #[trigger] opens(
                deps.open_stream,
                display,
                audio,
                before,
                opened,
                Ok::<S, OpenFailure>(stream),
            )
            &&& #[trigger] yields(
                deps.start_stream,
                stream,
                opened,
                states[0],
                Err::<(), String>(why),
            )
            &&& #[trigger] stopped(deps.stop_stream, streams, stops, states)
            &&& states.last() == after
            &&& rolled_back(
                error,
                failures(display_ids(displays), stops),
                start_words(display.id, why@),
            )
        }
}

/// Multi-display capture engine.
pub struct CaptureEngine<S> {
    /// The streams that run.
    pub streams: Vec<S>,
    /// The display of each stream.
    pub display_ids: Vec<u32>,
    pub state: EngineState,
    /// Displays whose streams run or may still be running.
    pub active_displays: usize,
}

/// Whether a start on these displays can lead from one state to the other, and come out so.
pub open spec fn start_result<
    W,
    D,
    S,
    E,
    O: Fn(W, &Display<D>, bool) -> (W, Result<S, OpenFailure>),
    B: Fn(W, &S) -> (W, Result<(), String>),
    T: Fn(W, &S) -> (W, Result<(), String>),
>(
    config: StartConfig,
    deps: EngineDeps<E, O, B, T>,
    displays: Seq<Display<D>>,
    before: W,
    after: W,
    r: Result<CaptureEngine<S>, CaptureError>,
) -> bool {
    let audio = audio_display(config, displays);
    match r {
        Ok(engine) => {
            &&& displays.len() > 0
            &&& engine.state == EngineState::Running
            &&& engine.well_formed()
            &&& engine.display_ids@ == display_ids(displays)
            &&& exists|states: Seq<W>|
                {
                    &&& #[trigger] started(
                        deps.open_stream,
                        deps.start_stream,
                        displays,
                        audio,
                        engine.streams@,
                        states,
                    )
                    &&& states[0] == before
                    &&& states.last() == after
                }
        },
        Err(error) => if displays.len() == 0 {
            error is NoDisplays && after == before
        } else {
            exists|streams: Seq<S>, states: Seq<W>|
                {
                    &&& #[trigger] started(
                        deps.open_stream,
                        deps.start_stream,
                        displays,
                        audio,
                        streams,
                        states,
                    )
                    &&& states[0] == before
                    &&& streams.len() < displays.len()
                    &&& ends_on(deps, displays, audio, streams, states.last(), after, error)
                }
        },
    }
}

/// Whether a stop can lead from one engine to the other and from one state of the system to the
/// other, with this result.
///
/// Nothing changes where there is nothing to stop any more. A running engine has every stream
/// tried; it is idle if all of them stopped, and poisoned by those that did not.
pub open spec fn stops_to<W, S, T: Fn(W, &S) -> (W, Result<(), String>)>(
    before: CaptureEngine<S>,
    after: CaptureEngine<S>,
    stop_stream: T,
    system: W,
    left: W,
    r: Result<(), CaptureError>,
) -> bool {
    match before.state {
        EngineState::Idle => r is Ok && after == before && left == system,
        EngineState::Stopping => r is Ok && after == before && left == system,
        EngineState::Poisoned => r is Err && r->Err_0 is Poisoned && after == before && left
            == system,
        EngineState::Running => exists|stops: Seq<Result<(), String>>, states: Seq<W>|
            {
                let failed = failures(before.display_ids@, stops);
                &&& #[trigger] stopped(stop_stream, before.streams@, stops, states)
                &&& states[0] == system
                &&& states.last() == left
                &&& after.streams@.len() == 0
                &&& after.active_displays == failed.len()
                &&& r is Ok <==> failed.len() == 0
                &&& after.state == (if failed.len() == 0 {
                    EngineState::Idle
                } else {
                    EngineState::Poisoned
                })
                &&& r is Err ==> reports_survivors(r->Err_0, failed, "engine stop failed"@)
            },
    }
}

/// What came of stopping streams: the errors of those that did not stop, how each stop came
/// out, and the states of the system.
struct StopRun<W> {
    errors: Vec<(u32, String)>,
    stops: Ghost<Seq<Result<(), String>>>,
    states: Ghost<Seq<W>>,
}

/// Stop every stream, and collect why the others did not stop.
fn stop_all<W, S, T: Fn(W, &S) -> (W, Result<(), String>)>(
    streams: &[S],
    ids: &[u32],
    system: W,
    stop_stream: &T,
) -> (r: (W, StopRun<W>))
    requires
        streams@.len() <= ids@.len(),
        forall|system: W, stream: &S| call_requires(*stop_stream, (system, stream)),
    ensures
        stopped(*stop_stream, streams@, r.1.stops@, r.1.states@),
        r.1.states@[0] == system,
        r.1.states@.last() == r.0,
        error_views(r.1.errors@) == failures(ids@, r.1.stops@),
{
    let mut errors: Vec<(u32, String)> = Vec::new();
    let ghost mut stops: Seq<Result<(), String>> = Seq::empty();
    let ghost mut states: Seq<W> = seq![system];
    let mut current = system;
    let mut i: usize = 0;
    proof {
        assert(error_views(errors@) =~= failures(ids@, stops));
    }
    while i < streams.len()
        invariant
            i <= streams@.len() <= ids@.len(),
            forall|system: W, stream: &S| call_requires(*stop_stream, (system, stream)),
            stops.len() == i,
            states.len() == i + 1,
            states[0] == system,
            states.last() == current,
            forall|k: int|
                0 <= k < i ==> yields(
                    *stop_stream,
                    #[trigger] streams@[k],
                    states[k],
                    states[k + 1],
                    stops[k],
                ),
            error_views(errors@) == failures(ids@, stops),
        decreases streams@.len() - i,
    {
        let (next, result) = stop_stream(current, &streams[i]);
        let ghost before = stops;
        let ghost earlier = states;
        proof {
            assert(yields(*stop_stream, streams@[i as int], states.last(), next, result));
            stops = stops.push(result);
            states = states.push(next);
            assert(stops.drop_last() =~= before);
            assert forall|k: int| 0 <= k < i + 1 implies yields(
                *stop_stream,
                #[trigger] streams@[k],
                states[k],
                states[k + 1],
                stops[k],
            ) by {
                if k < i {
                    assert(states[k] == earlier[k] && states[k + 1] == earlier[k + 1]);
                }
            }
        }
        current = next;
        if let Err(why) = result {
            let ghost collected = errors@;
            errors.push((ids[i], why));
            proof {
                assert(error_views(errors@) =~= error_views(collected).push(
                    (ids@[i as int], why@),
                ));
            }
        }
        i += 1;
    }
    (current, StopRun { errors, stops: Ghost(stops), states: Ghost(states) })
}

/// The displays of the errors.
fn survivors_of(errors: &[(u32, String)]) -> (r: Vec<u32>)
    ensures
        r@ == failed_ids(error_views(errors@)),
{
    let mut out: Vec<u32> = Vec::new();
    let mut i: usize = 0;
    while i < errors.len()
        invariant
            i <= errors@.len(),
            out@ == failed_ids(error_views(errors@)).take(i as int),
        decreases errors@.len() - i,
    {
        out.push(errors[i].0);
        i += 1;
        proof {
            assert(out@ =~= failed_ids(error_views(errors@)).take(i as int));
        }
    }
    proof {
        assert(out@ =~= failed_ids(error_views(errors@)));
    }
    out
}

proof fn lemma_failures_ignore_the_rest(
    a: Seq<u32>,
    b: Seq<u32>,
    stops: Seq<Result<(), String>>,
)
    requires
        stops.len() <= a.len(),
        stops.len() <= b.len(),
        a.take(stops.len() as int) == b.take(stops.len() as int),
    ensures
        failures(a, stops) == failures(b, stops),
    decreases stops.len(),
{
    if stops.len() > 0 {
        let n = stops.len() as int;
        assert(a.take(n)[n - 1] == b.take(n)[n - 1]);
        assert(a.take(n - 1) =~= a.take(n).take(n - 1));
        assert(b.take(n - 1) =~= b.take(n).take(n - 1));
        lemma_failures_ignore_the_rest(a, b, stops.drop_last());
    }
}

impl<S> CaptureEngine<S> {
    /// A running engine has a stream per display and counts them; one that was stopped has
    /// none, and counts the survivors.
    pub open spec fn well_formed(self) -> bool {
        &&& self.streams@.len() == self.display_ids@.len()
        &&& match self.state {
            EngineState::Running => self.active_displays == self.streams@.len(),
            EngineState::Stopping => true,
            EngineState::Idle => self.streams@.len() == 0 && self.active_displays == 0,
            EngineState::Poisoned => self.streams@.len() == 0 && self.active_displays > 0,
        }
    }

    /// Start one capture stream per display.
    ///
    /// Audio goes with the stream of the primary display. If a stream does not start, those
    /// that did are stopped again.
    pub fn start_with_deps<
        W,
        D,
        E: Fn(W) -> (W, Result<Vec<Display<D>>, CaptureError>),
        O: Fn(W, &Display<D>, bool) -> (W, Result<S, OpenFailure>),
        B: Fn(W, &S) -> (W, Result<(), String>),
        T: Fn(W, &S) -> (W, Result<(), String>),
    >(config: StartConfig, system: W, deps: &EngineDeps<E, O, B, T>) -> (r: (
        W,
        Result<Self, CaptureError>,
    ))
        requires
            forall|system: W| call_requires(deps.enumerate_displays, (system,)),
            forall|system: W, display: &Display<D>, audio: bool|
                call_requires(deps.open_stream, (system, display, audio)),
            forall|system: W, stream: &S| call_requires(deps.start_stream, (system, stream)),
            forall|system: W, stream: &S| call_requires(deps.stop_stream, (system, stream)),
        ensures
            !config.interval_is_positive ==> r.0 == system && r.1 is Err && r.1->Err_0.blames_kit(
                "frame_interval_secs must be positive"@,
            ),
            config.interval_is_positive && config.channel_buffer_size == 0 ==> r.0 == system
                && r.1 is Err && r.1->Err_0.blames_kit(
                "channel_buffer_size must be at least 1"@,
            ),
            config.interval_is_positive && config.channel_buffer_size > 0 ==> exists|
                listed: W,
                found: Result<Vec<Display<D>>, CaptureError>,
            |
                {
                    &&& #[trigger] call_ensures(
                        deps.enumerate_displays,
                        (system,),
                        (listed, found),
                    )
                    &&& match found {
                        Err(error) => r.0 == listed && r.1 == Err::<Self, CaptureError>(error),
                        Ok(displays) => start_result(
                            config,
                            *deps,
                            displays@,
                            listed,
                            r.0,
                            r.1,
                        ),
                    }
                },
    {
        if !config.interval_is_positive {
            let error = CaptureError::ScreenCaptureKit(
                owned("frame_interval_secs must be positive"),
            );
            return (system, Err(error));
        }
        if config.channel_buffer_size == 0 {
            let error = CaptureError::ScreenCaptureKit(
                owned("channel_buffer_size must be at least 1"),
            );
            return (system, Err(error));
        }
        let (listed, found) = (deps.enumerate_displays)(system);
        match found {
            Err(error) => (listed, Err(error)),
            Ok(displays) => Self::start_on(config, listed, deps, displays),
        }
    }

    /// Start one capture stream on each of these displays.
    pub fn start_on<
        W,
        D,
        E,
        O: Fn(W, &Display<D>, bool) -> (W, Result<S, OpenFailure>),
        B: Fn(W, &S) -> (W, Result<(), String>),
        T: Fn(W, &S) -> (W, Result<(), String>),
    >(
        config: StartConfig,
        system: W,
        deps: &EngineDeps<E, O, B, T>,
        displays: Vec<Display<D>>,
    ) -> (r: (W, Result<Self, CaptureError>))
        requires
            forall|system: W, display: &Display<D>, audio: bool|
                call_requires(deps.open_stream, (system, display, audio)),
            forall|system: W, stream: &S| call_requires(deps.start_stream, (system, stream)),
            forall|system: W, stream: &S| call_requires(deps.stop_stream, (system, stream)),
        ensures
            start_result(config, *deps, displays@, system, r.0, r.1),
    {
        if displays.len() == 0 {
            return (system, Err(CaptureError::NoDisplays));
        }
        let primary_id: u32 = primary_display_id(displays.as_slice(), config.main_display);
        let ghost audio = audio_display(config, displays@);
        let ghost mut states: Seq<W> = seq![system];
        let mut current = system;
        let mut streams: Vec<S> = Vec::new();
        let mut ids: Vec<u32> = Vec::new();
        let mut i: usize = 0;
        while i < displays.len()
            invariant
                i <= displays@.len(),
                displays@.len() > 0,
                primary_id == primary(displays@, config.main_display),
                audio == audio_display(config, displays@),
                forall|system: W, display: &Display<D>, audio: bool|
                    call_requires(deps.open_stream, (system, display, audio)),
                forall|system: W, stream: &S| call_requires(deps.start_stream, (system, stream)),
                forall|system: W, stream: &S| call_requires(deps.stop_stream, (system, stream)),
                streams@.len() == i,
                ids@ == display_ids(displays@).take(i as int),
                states[0] == system,
                states.last() == current,
                started(
                    deps.open_stream,
                    deps.start_stream,
                    displays@,
                    audio,
                    streams@,
                    states,
                ),
            decreases displays@.len() - i,
        {
            let with_audio = config.audio && displays[i].id == primary_id;
            assert(with_audio == (audio == Some(displays@[i as int].id)));
            let (opened, outcome) = (deps.open_stream)(current, &displays[i], with_audio);
            assert(opens(
                deps.open_stream,
                displays@[i as int],
                audio,
                states.last(),
                opened,
                outcome,
            ));
            let stream = match outcome {
                Err(why) => {
                    let error = CaptureError::ScreenCaptureKit(why.message(displays[i].id));
                    assert(ends_on(
                        *deps,
                        displays@,
                        audio,
                        streams@,
                        states.last(),
                        opened,
                        error,
                    ));
                    return (opened, Err(error));
                },
                Ok(stream) => stream,
            };
            let ghost was_opened = opened;
            let (tried, result) = (deps.start_stream)(opened, &stream);
            assert(yields(deps.start_stream, stream, was_opened, tried, result));
            if let Err(why) = result {
                let (left, run) = stop_all(
                    streams.as_slice(),
                    ids.as_slice(),
                    tried,
                    &deps.stop_stream,
                );
                let errors = run.errors;
                let ghost stops = run.stops@;
                let id = decimal_u64(displays[i].id as u64);
                let on = concat3("failed to start capture on display ", id.as_str(), ": ");
                let original = CaptureError::ScreenCaptureKit(concat(on.as_str(), why.as_str()));
                proof {
                    assert(ids@.take(i as int) =~= display_ids(displays@).take(i as int));
                    lemma_failures_ignore_the_rest(ids@, display_ids(displays@), stops);
                    assert(failures(ids@, stops) == failures(display_ids(displays@), stops));
                }
                let error = if errors.len() == 0 {
                    original
                } else {
                    let survivors = survivors_of(errors.as_slice());
                    CaptureError::PartialTeardown {
                        survivors,
                        stop_errors: errors,
                        original: Box::new(original),
                    }
                };
                assert(rolled_back(
                    error,
                    failures(display_ids(displays@), stops),
                    start_words(displays@[i as int].id, why@),
                ));
                assert(yields(deps.start_stream, stream, was_opened, run.states@[0], Err(why)));
                assert(ends_on(
                    *deps,
                    displays@,
                    audio,
                    streams@,
                    states.last(),
                    left,
                    error,
                ));
                return (left, Err(error));
            }
            assert(result->Ok_0 == ());
            assert(yields(deps.start_stream, stream, was_opened, tried, Ok(())));
            assert(comes_up(
                deps.open_stream,
                deps.start_stream,
                displays@[i as int],
                audio,
                stream,
                states.last(),
                tried,
            ));
            let ghost before = streams@;
            let ghost earlier = states;
            streams.push(stream);
            ids.push(displays[i].id);
            proof {
                states = states.push(tried);
            }
            current = tried;
            i += 1;
            proof {
                assert(ids@ =~= display_ids(displays@).take(i as int));
                assert forall|k: int| 0 <= k < streams@.len() implies comes_up(
                    deps.open_stream,
                    deps.start_stream,
                    displays@[k],
                    audio,
                    #[trigger] streams@[k],
                    states[k],
                    states[k + 1],
                ) by {
                    if k < before.len() {
                        assert(streams@[k] == before[k]);
                        assert(states[k] == earlier[k] && states[k + 1] == earlier[k + 1]);
                    }
                }
            }
        }
        proof {
            assert(ids@ =~= display_ids(displays@));
        }
        let active_displays: usize = streams.len();
        let engine = CaptureEngine {
            streams,
            display_ids: ids,
            state: EngineState::Running,
            active_displays,
        };
        (current, Ok(engine))
    }

    /// Stop all active capture streams and collect per-stream teardown errors.
    ///
    /// Idempotent on `Idle` and `Stopping`. On `Poisoned` an error, because the engine cannot
    /// be stopped cleanly any more. On `Running` every stream is tried; any failure is
    /// collected and leaves the engine `Poisoned`.
    pub fn stop<W, T: Fn(W, &S) -> (W, Result<(), String>)>(
        &mut self,
        system: W,
        stop_stream: &T,
    ) -> (r: (W, Result<(), CaptureError>))
        requires
            old(self).well_formed(),
            forall|system: W, stream: &S| call_requires(*stop_stream, (system, stream)),
        ensures
            final(self).well_formed(),
            stops_to(*old(self), *final(self), *stop_stream, system, r.0, r.1),
    {
        match self.state {
            EngineState::Idle => {
                return (system, Ok(()));
            },
            EngineState::Stopping => {
                return (system, Ok(()));
            },
            EngineState::Poisoned => {
                return (system, Err(CaptureError::Poisoned));
            },
            EngineState::Running => {},
        }
        self.state = EngineState::Stopping;
        let (left, run) = stop_all(
            self.streams.as_slice(),
            self.display_ids.as_slice(),
            system,
            stop_stream,
        );
        let errors = run.errors;
        let ghost failed = failures(old(self).display_ids@, run.stops@);
        assert(error_views(errors@).len() == errors@.len());
        self.streams = Vec::new();
        self.display_ids = Vec::new();
        self.active_displays = errors.len();
        if errors.len() == 0 {
            self.state = EngineState::Idle;
            (left, Ok(()))
        } else {
            let survivors = survivors_of(errors.as_slice());
            self.state = EngineState::Poisoned;
            let error = CaptureError::PartialTeardown {
                survivors,
                stop_errors: errors,
                original: Box::new(CaptureError::ScreenCaptureKit(owned("engine stop failed"))),
            };
            assert(reports_survivors(error, failed, "engine stop failed"@));
            (left, Err(error))
        }
    }

    /// Return a point-in-time health snapshot.
    pub fn status(&self, counters: &FrameCounters) -> (r: CaptureStatus)
        ensures
            r == (CaptureStatus {
                active_displays: self.streams@.len() as usize,
                total_frames_captured: counters.frames_captured,
                total_frames_dropped: counters.frames_dropped,
            }),
    {
        CaptureStatus {
            active_displays: self.streams.len(),
            total_frames_captured: counters.frames_captured,
            total_frames_dropped: counters.frames_dropped,
        }
    }

    /// Return the current post-construction state.
    pub fn state(&self) -> (r: EngineState)
        ensures
            r == self.state,
    {
        self.state
    }

    /// Return what the engine publishes.
    pub fn status_probe(&self, counters: &FrameCounters) -> (r: EngineStatusProbe)
        ensures
            r == (EngineStatusProbe {
                frames_captured: counters.frames_captured,
                frames_dropped: counters.frames_dropped,
                state: self.state.number(),
                active_displays: self.active_displays,
            }),
    {
        EngineStatusProbe {
            frames_captured: counters.frames_captured,
            frames_dropped: counters.frames_dropped,
            state: self.state.to_u8(),
            active_displays: self.active_displays,
        }
    }
}

/// The engine's health as it is published, for a reader that does not hold the engine.
#[derive(Debug, Clone, Copy, PartialEq, Eq, Structural)]
pub struct EngineStatusProbe {
    pub frames_captured: u64,
    pub frames_dropped: u64,
    /// The number of the engine's state.
    pub state: u8,
    pub active_displays: usize,
}

/// One tick's worth of engine status.
#[derive(Debug, Clone, Copy, PartialEq, Eq, Structural)]
pub struct EngineStatusSnapshot {
    pub frames_captured: u64,
    pub frames_dropped: u64,
    pub state: EngineState,
    pub active_displays: usize,
}

impl EngineStatusProbe {
    /// Read all four values.
    pub fn snapshot(&self) -> (r: EngineStatusSnapshot)
        ensures
            r == (EngineStatusSnapshot {
                frames_captured: self.frames_captured,
                frames_dropped: self.frames_dropped,
                state: EngineState::published(self.state),
                active_displays: self.active_displays,
            }),
    {
        EngineStatusSnapshot {
            frames_captured: self.frames_captured,
            frames_dropped: self.frames_dropped,
            state: EngineState::from_u8(self.state),
            active_displays: self.active_displays,
        }
    }
}

/// Survivors are displays of the engine: none is made up, and there are at most as many.
pub proof fn survivors_were_running(ids: Seq<u32>, stops: Seq<Result<(), String>>)
    requires
        stops.len() <= ids.len(),
    ensures
        failures(ids, stops).len() <= stops.len(),
        forall|i: int|
            0 <= i < failures(ids, stops).len() ==> ids.contains(
                (#[trigger] failures(ids, stops)[i]).0,
            ),
    decreases stops.len(),
{
    if stops.len() > 0 {
        survivors_were_running(ids, stops.drop_last());
        assert(ids.contains(ids[stops.len() - 1]));
    }
}

/// A stop is clean if and only if every stream stopped.
pub proof fn a_clean_stop_stopped_everything(ids: Seq<u32>, stops: Seq<Result<(), String>>)
    ensures
        failures(ids, stops).len() == 0 <==> (forall|i: int|
            0 <= i < stops.len() ==> (#[trigger] stops[i]) is Ok),
    decreases stops.len(),
{
    if stops.len() > 0 {
        a_clean_stop_stopped_everything(ids, stops.drop_last());
        let last = stops.len() - 1;
        if stops[last] is Ok {
            assert forall|i: int| failures(ids, stops).len() == 0 && 0 <= i < stops.len() implies (
            #[trigger] stops[i]) is Ok by {
                if i < last {
                    assert(stops.drop_last()[i] == stops[i]);
                }
            }
            assert forall|i: int|
                (forall|k: int| 0 <= k < stops.len() ==> (#[trigger] stops[k]) is Ok) && 0 <= i
                    < stops.drop_last().len() implies (#[trigger] stops.drop_last()[i]) is Ok by {
                assert(stops[i] is Ok);
            }
        } else {
            assert(!(stops[last] is Ok));
        }
    }
}

/// Stopping an engine again changes nothing: it stays idle without complaint, or poisoned, and
/// no stream is tried again.
pub proof fn stopping_again_changes_nothing<W, S, T: Fn(W, &S) -> (W, Result<(), String>)>(
    first: CaptureEngine<S>,
    second: CaptureEngine<S>,
    third: CaptureEngine<S>,
    stop_stream: T,
    system: W,
    left: W,
    left_again: W,
    r: Result<(), CaptureError>,
    again: Result<(), CaptureError>,
)
    requires
        stops_to(first, second, stop_stream, system, left, r),
        stops_to(second, third, stop_stream, left, left_again, again),
    ensures
        third == second,
        left_again == left,
        r is Ok ==> again is Ok,
        r is Err ==> again is Err && again->Err_0 is Poisoned,
{
}

/// A start that was rolled back and does not report survivors left nothing running.
pub proof fn a_clean_rollback_stopped_everything(
    error: CaptureError,
    ids: Seq<u32>,
    stops: Seq<Result<(), String>>,
    cause: Seq<char>,
)
    requires
        rolled_back(error, failures(ids, stops), cause),
        !(error is PartialTeardown),
    ensures
        forall|i: int| 0 <= i < stops.len() ==> (#[trigger] stops[i]) is Ok,
{
    a_clean_stop_stopped_everything(ids, stops);
}

/// What came of waiting for a completion handler.
#[derive(Debug, Clone, PartialEq, Eq)]
pub enum Waited<T> {
    Reply(T),
    TimedOut,
    /// The handler went away without a reply.
    Closed,
}

/// What the enumeration of displays gave.
pub fn enumerate_displays<D>(waited: Waited<Result<Vec<D>, String>>) -> (r: Result<
    Vec<D>,
    CaptureError,
>)
    ensures
        match waited {
            Waited::Reply(Ok(displays)) => r == Ok::<Vec<D>, CaptureError>(displays),
            Waited::Reply(Err(why)) => r is Err && r->Err_0.blames_kit(why@),
            Waited::TimedOut => r is Err && r->Err_0.blames_kit("display enumeration timed out"@),
            Waited::Closed => r is Err && r->Err_0.blames_kit(
                "display enumeration channel closed"@,
            ),
        },
{
    match waited {
        Waited::Reply(Ok(displays)) => Ok(displays),
        Waited::Reply(Err(why)) => Err(CaptureError::ScreenCaptureKit(why)),
        Waited::TimedOut => Err(
            CaptureError::ScreenCaptureKit(owned("display enumeration timed out")),
        ),
        Waited::Closed => Err(
            CaptureError::ScreenCaptureKit(owned("display enumeration channel closed")),
        ),
    }
}

/// The reply of the display enumeration: an error, nothing at all, or the displays.
pub fn displays_found<D>(error: Option<String>, content: Option<Vec<D>>) -> (r: Result<
    Vec<D>,
    String,
>)
    ensures
        error is Some ==> r == Err::<Vec<D>, String>(error->0),
        error is None && content is Some ==> r == Ok::<Vec<D>, String>(content->0),
        error is None && content is None ==> r is Err && r->Err_0@
            == "SCShareableContent was null"@,
{
    match error {
        Some(why) => Err(why),
        None => match content {
            Some(displays) => Ok(displays),
            None => Err(owned("SCShareableContent was null")),
        },
    }
}

/// What the start of a stream gave, whose completion handler replies with an error or none.
pub fn start_stream(waited: Waited<Option<String>>) -> (r: Result<(), String>)
    ensures
        match waited {
            Waited::Reply(None) => r is Ok,
            Waited::Reply(Some(why)) => r == Err::<(), String>(why),
            Waited::TimedOut => r is Err && r->Err_0@ == "start capture timed out"@,
            Waited::Closed => r is Err && r->Err_0@
                == "start capture completion handler channel closed"@,
        },
{
    match waited {
        Waited::Reply(None) => Ok(()),
        Waited::Reply(Some(why)) => Err(why),
        Waited::TimedOut => Err(owned("start capture timed out")),
        Waited::Closed => Err(owned("start capture completion handler channel closed")),
    }
}

/// An error that a stop-completion handler was given.
#[derive(Debug, Clone, PartialEq, Eq)]
pub struct StopError {
    /// Whether it is from the domain of stream errors.
    pub is_stream_domain: bool,
    pub code: i64,
    pub description: String,
}

/// True when a stop-completion error means the stream was already stopped: the goal state,
/// reached before it was asked for. Displays that go to sleep get there first, so this is a
/// routine race, not a teardown failure.
pub fn is_benign_stop_error(is_stream_domain: bool, code: i64) -> (r: bool)
    ensures
        r == (is_stream_domain && code == ATTEMPT_TO_STOP_STREAM_STATE),
{
    is_stream_domain && code == ATTEMPT_TO_STOP_STREAM_STATE
}

/// The reply of a stop-completion handler: none also for an error that is benign.
pub fn stop_completed(error: Option<StopError>) -> (r: Option<String>)
    ensures
        r == match error {
            None => None,
            Some(e) => if e.is_stream_domain && e.code == ATTEMPT_TO_STOP_STREAM_STATE {
                None
            } else {
                Some(e.description)
            },
        },
{
    match error {
        None => None,
        Some(e) => if is_benign_stop_error(e.is_stream_domain, e.code) {
            None
        } else {
            Some(e.description)
        },
    }
}

/// What the stop of a stream gave.
pub fn stop_stream(waited: Waited<Option<String>>) -> (r: Result<(), String>)
    ensures
        match waited {
            Waited::Reply(None) => r is Ok,
            Waited::Reply(Some(why)) => r == Err::<(), String>(why),
            Waited::TimedOut => r is Err && r->Err_0@ == "stop capture timed out"@,
            Waited::Closed => r is Err && r->Err_0@
                == "stop capture completion handler channel closed"@,
        },
{
    match waited {
        Waited::Reply(None) => Ok(()),
        Waited::Reply(Some(why)) => Err(why),
        Waited::TimedOut => Err(owned("stop capture timed out")),
        Waited::Closed => Err(owned("stop capture completion handler channel closed")),
    }
}

/// Each state has its number, and a number that none has stands for the worst of them.
pub proof fn a_state_has_its_number(state: EngineState, n: u8, value: u8, r: EngineState)
    requires
        call_ensures(EngineState::to_u8, (state,), n),
        call_ensures(EngineState::from_u8, (value,), r),
    ensures
        n == 0 <==> state is Running,
        n == 1 <==> state is Stopping,
        n == 2 <==> state is Idle,
        n == 3 <==> state is Poisoned,
        n <= 3,
        r is Running <==> value == 0,
        r is Stopping <==> value == 1,
        r is Idle <==> value == 2,
        r is Poisoned <==> value >= 3,
{
}

/// The primary display is the main one if it is connected, and the first one if it is not.
pub proof fn the_main_display_is_primary<D>(displays: &[Display<D>], main_display: u32, r: u32)
    requires
        displays@.len() > 0,
        call_ensures(primary_display_id::<D>, (displays, main_display), r),
    ensures
        (exists|i: int| 0 <= i < displays@.len() && (#[trigger] displays@[i]).id == main_display)
            ==> r == main_display,
        (forall|i: int| 0 <= i < displays@.len() ==> (#[trigger] displays@[i]).id != main_display)
            ==> r == displays@[0].id,
{
}

/// The failed stops are listed one by one, in order, each with its display and its reason; a
/// stream that stopped is not among them.
pub proof fn each_failed_stop_is_listed(
    ids: Seq<u32>,
    stops: Seq<Result<(), String>>,
    stop: Result<(), String>,
)
    ensures
        failures(ids, Seq::empty()).len() == 0,
        stop is Ok ==> failures(ids, stops.push(stop)) == failures(ids, stops),
        stop is Err ==> failures(ids, stops.push(stop)) == failures(ids, stops).push(
            (ids[stops.len() as int], stop->Err_0@),
        ),
{
    assert(stops.push(stop).drop_last() =~= stops);
}

/// The survivors that an error reports are those whose stop failed, each with its reason, beside
/// what had them stopped.
pub proof fn a_report_names_every_survivor(
    error: CaptureError,
    failed: Seq<(u32, Seq<char>)>,
    cause: Seq<char>,
)
    requires
        rolled_back(error, failed, cause),
    ensures
        failed.len() == 0 ==> error is ScreenCaptureKit && error->ScreenCaptureKit_0@ == cause,
        failed.len() > 0 ==> {
            &&& error matches CaptureError::PartialTeardown { survivors, stop_errors, original }
            &&& survivors@.len() == failed.len()
            &&& stop_errors@.len() == failed.len()
            &&& forall|i: int|
                0 <= i < failed.len() ==> #[trigger] survivors@[i] == failed[i].0
                    && stop_errors@[i].0 == failed[i].0 && stop_errors@[i].1@ == failed[i].1
            &&& *original is ScreenCaptureKit
            &&& (*original)->ScreenCaptureKit_0@ == cause
        },
{
    if failed.len() > 0 {
        match error {
            CaptureError::PartialTeardown { survivors, stop_errors, original } => {
                assert(error_views(stop_errors@) == failed);
                assert(survivors@ == failed_ids(failed));
                assert forall|i: int| 0 <= i < failed.len() implies #[trigger] survivors@[i]
                    == failed[i].0 && stop_errors@[i].0 == failed[i].0 && stop_errors@[i].1@
                    == failed[i].1 by {
                    assert(error_views(stop_errors@)[i] == failed[i]);
                    assert(failed_ids(failed)[i] == failed[i].0);
                }
            },
            _ => {},
        }
    }
}

/// A stop of a running engine tries each stream once, in order, and leaves none. The engine is
/// idle if all of them stopped; otherwise it is poisoned, and the error names those that did not.
pub proof fn a_stop_tries_each_stream_once<W, S, T: Fn(W, &S) -> (W, Result<(), String>)>(
    before: CaptureEngine<S>,
    after: CaptureEngine<S>,
    stop_stream: T,
    system: W,
    left: W,
    r: Result<(), CaptureError>,
)
    requires
        stops_to(before, after, stop_stream, system, left, r),
    ensures
        before.state is Idle || before.state is Stopping ==> r is Ok && after == before && left
            == system,
        before.state is Poisoned ==> r is Err && r->Err_0 is Poisoned && after == before && left
            == system,
        before.state is Running ==> exists|stops: Seq<Result<(), String>>, states: Seq<W>|
            {
                &&& stops.len() == before.streams@.len()
                &&& states.len() == before.streams@.len() + 1
                &&& states[0] == system
                &&& states[before.streams@.len() as int] == left
                &&& forall|i: int|
                    0 <= i < before.streams@.len() ==> #[trigger] call_ensures(
                        stop_stream,
                        (states[i], &before.streams@[i]),
                        (states[i + 1], stops[i]),
                    )
                &&& after.streams@.len() == 0
                &&& after.active_displays == #[trigger] failures(before.display_ids@, stops).len()
                &&& failures(before.display_ids@, stops).len() == 0 ==> r is Ok
                    && after.state is Idle
                &&& failures(before.display_ids@, stops).len() > 0 ==> r is Err
                    && after.state is Poisoned && rolled_back(
                    r->Err_0,
                    failures(before.display_ids@, stops),
                    "engine stop failed"@,
                )
                &&& #[trigger] states.len() > 0
            },
{
    if before.state is Running {
        let (stops, states) = choose|stops: Seq<Result<(), String>>, states: Seq<W>|
            {
                let failed = failures(before.display_ids@, stops);
                &&& #[trigger] stopped(stop_stream, before.streams@, stops, states)
                &&& states[0] == system
                &&& states.last() == left
                &&& after.streams@.len() == 0
                &&& after.active_displays == failed.len()
                &&& r is Ok <==> failed.len() == 0
                &&& after.state == (if failed.len() == 0 {
                    EngineState::Idle
                } else {
                    EngineState::Poisoned
                })
                &&& r is Err ==> reports_survivors(r->Err_0, failed, "engine stop failed"@)
            };
        assert forall|i: int| 0 <= i < before.streams@.len() implies #[trigger] call_ensures(
            stop_stream,
            (states[i], &before.streams@[i]),
            (states[i + 1], stops[i]),
        ) by {
            assert(yields(stop_stream, before.streams@[i], states[i], states[i + 1], stops[i]));
        }
        assert(states.len() > 0);
        assert(failures(before.display_ids@, stops).len() >= 0);
    }
}

/// An engine that started has one stream for each display, in order, each opened once and then
/// started once. Audio, if there is any, goes with the primary display alone.
pub proof fn an_engine_starts_each_display_once<
    W,
    D,
    S,
    E,
    O: Fn(W, &Display<D>, bool) -> (W, Result<S, OpenFailure>),
    B: Fn(W, &S) -> (W, Result<(), String>),
    T: Fn(W, &S) -> (W, Result<(), String>),
>(
    config: StartConfig,
    deps: EngineDeps<E, O, B, T>,
    displays: &[Display<D>],
    primary_id: u32,
    before: W,
    after: W,
    engine: CaptureEngine<S>,
)
    requires
        displays@.len() > 0,
        call_ensures(primary_display_id::<D>, (displays, config.main_display), primary_id),
        start_result(config, deps, displays@, before, after, Ok(engine)),
    ensures
        engine.state is Running,
        engine.streams@.len() == displays@.len(),
        engine.display_ids@.len() == displays@.len(),
        engine.active_displays == displays@.len(),
        forall|i: int|
            0 <= i < displays@.len() ==> #[trigger] engine.display_ids@[i] == displays@[i].id,
        exists|states: Seq<W>, opened: Seq<W>|
            {
                &&& #[trigger] states.len() == displays@.len() + 1
                &&& #[trigger] opened.len() == displays@.len()
                &&& states[0] == before
                &&& states[displays@.len() as int] == after
                &&& forall|i: int|
                    0 <= i < displays@.len() ==> call_ensures(
                        deps.open_stream,
                        (
                            states[i],
                            &displays@[i],
                            config.audio && displays@[i].id == primary_id,
                        ),
                        (opened[i], Ok(#[trigger] engine.streams@[i])),
                    ) && call_ensures(
                        deps.start_stream,
                        (opened[i], &engine.streams@[i]),
                        (states[i + 1], Ok(())),
                    )
            },
{
    let audio = audio_display(config, displays@);
    let states = choose|states: Seq<W>|
        {
            &&& #[trigger] started(
                deps.open_stream,
                deps.start_stream,
                displays@,
                audio,
                engine.streams@,
                states,
            )
            &&& states[0] == before
            &&& states.last() == after
        };
    assert(engine.display_ids@.len() == displays@.len());
    let opened = Seq::new(
        displays@.len(),
        |i: int|
            choose|opened: W| #[trigger]
                opens(
                    deps.open_stream,
                    displays@[i],
                    audio,
                    states[i],
                    opened,
                    Ok(engine.streams@[i]),
                ) && yields(
                    deps.start_stream,
                    engine.streams@[i],
                    opened,
                    states[i + 1],
                    Ok(()),
                ),
    );
    assert forall|i: int| 0 <= i < displays@.len() implies call_ensures(
        deps.open_stream,
        (states[i], &displays@[i], config.audio && displays@[i].id == primary_id),
        (opened[i], Ok(#[trigger] engine.streams@[i])),
    ) && call_ensures(
        deps.start_stream,
        (opened[i], &engine.streams@[i]),
        (states[i + 1], Ok(())),
    ) by {
        assert(comes_up(
            deps.open_stream,
            deps.start_stream,
            displays@[i],
            audio,
            engine.streams@[i],
            states[i],
            states[i + 1],
        ));
        let with_audio = config.audio && displays@[i].id == primary_id;
        assert(with_audio == (audio == Some(displays@[i].id)));
        assert(opens(
            deps.open_stream,
            displays@[i],
            audio,
            states[i],
            opened[i],
            Ok(engine.streams@[i]),
        ));
    }
    assert(states.len() == displays@.len() + 1);
    assert(opened.len() == displays@.len());
}

/// A start on no display is refused, and one that failed came to a display whose stream could not
/// be opened, or did not start. In the second case each stream before it was stopped once, in
/// order, and the error names those that did not stop.
pub proof fn a_failed_start_is_rolled_back<
    W,
    D,
    S,
    E,
    O: Fn(W, &Display<D>, bool) -> (W, Result<S, OpenFailure>),
    B: Fn(W, &S) -> (W, Result<(), String>),
    T: Fn(W, &S) -> (W, Result<(), String>),
>(
    config: StartConfig,
    deps: EngineDeps<E, O, B, T>,
    displays: Seq<Display<D>>,
    before: W,
    after: W,
    error: CaptureError,
)
    requires
        start_result::<W, D, S, E, O, B, T>(config, deps, displays, before, after, Err(error)),
    ensures
        displays.len() == 0 ==> error is NoDisplays && after == before,
        displays.len() > 0 && !(exists|at: int, audio: bool, from: W, why: OpenFailure|
            #![trigger displays[at], call_ensures(
                deps.open_stream,
                (from, &displays[at], audio),
                (after, Err::<S, OpenFailure>(why)),
            )]
            0 <= at < displays.len() && call_ensures(
                deps.open_stream,
                (from, &displays[at], audio),
                (after, Err::<S, OpenFailure>(why)),
            ) && error.blames_kit(why.words(displays[at].id))) ==> exists|
            streams: Seq<S>,
            failed: S,
            opened: W,
            why: String,
            stops: Seq<Result<(), String>>,
            states: Seq<W>,
        |
            {
                &&& streams.len() < displays.len()
                &&& #[trigger] call_ensures(
                    deps.start_stream,
                    (opened, &failed),
                    (states[0], Err::<(), String>(why)),
                )
                &&& #[trigger] stopped(deps.stop_stream, streams, stops, states)
                &&& states[streams.len() as int] == after
                &&& rolled_back(
                    error,
                    failures(display_ids(displays), stops),
                    "failed to start capture on display "@ + decimal(
                        displays[streams.len() as int].id as int,
                    ) + ": "@ + why@,
                )
            },
{
    if displays.len() > 0 {
        let audio = audio_display(config, displays);
        let (streams, states) = choose|streams: Seq<S>, states: Seq<W>|
            {
                &&& #[trigger] started(
                    deps.open_stream,
                    deps.start_stream,
                    displays,
                    audio,
                    streams,
                    states,
                )
                &&& states[0] == before
                &&& streams.len() < displays.len()
                &&& ends_on(deps, displays, audio, streams, states.last(), after, error)
            };
        let at = streams.len() as int;
        let display = displays[at];
        let from = states.last();
        if exists|why: OpenFailure|
            #[trigger] opens(
                deps.open_stream,
                display,
                audio,
                from,
                after,
                Err::<S, OpenFailure>(why),
            ) && error.blames_kit(why.words(display.id)) {
            let why = choose|why: OpenFailure|
                #[trigger] opens(
                    deps.open_stream,
                    display,
                    audio,
                    from,
                    after,
                    Err::<S, OpenFailure>(why),
                ) && error.blames_kit(why.words(display.id));
            let with_audio = audio == Some(display.id);
            assert(call_ensures(
                deps.open_stream,
                (from, &displays[at], with_audio),
                (after, Err::<S, OpenFailure>(why)),
            ));
        } else {
            let (stream, opened, why, stops, rolled) = choose|
                stream: S,
                opened: W,
                why: String,
                stops: Seq<Result<(), String>>,
                rolled: Seq<W>,
            |
                {
                    &&& #[trigger] opens(
                        deps.open_stream,
                        display,
                        audio,
                        from,
                        opened,
                        Ok::<S, OpenFailure>(stream),
                    )
                    &&& #[trigger] yields(
                        deps.start_stream,
                        stream,
                        opened,
                        rolled[0],
                        Err::<(), String>(why),
                    )
                    &&& #[trigger] stopped(deps.stop_stream, streams, stops, rolled)
                    &&& rolled.last() == after
                    &&& rolled_back(
                        error,
                        failures(display_ids(displays), stops),
                        start_words(display.id, why@),
                    )
                };
            assert(call_ensures(
                deps.start_stream,
                (opened, &stream),
                (rolled[0], Err::<(), String>(why)),
            ));
            assert(stopped(deps.stop_stream, streams, stops, rolled));
        }
    }
}

/// Stopping streams is stopping each of them once, in order.
pub proof fn streams_are_stopped_in_order<W, S, T: Fn(W, &S) -> (W, Result<(), String>)>(
    stop_stream: T,
    streams: Seq<S>,
    stops: Seq<Result<(), String>>,
    states: Seq<W>,
)
    requires
        stopped(stop_stream, streams, stops, states),
    ensures
        stops.len() == streams.len(),
        states.len() == streams.len() + 1,
        forall|i: int|
            0 <= i < streams.len() ==> #[trigger] call_ensures(
                stop_stream,
                (states[i], &streams[i]),
                (states[i + 1], stops[i]),
            ),
{
    assert forall|i: int| 0 <= i < streams.len() implies #[trigger] call_ensures(
        stop_stream,
        (states[i], &streams[i]),
        (states[i + 1], stops[i]),
    ) by {
        assert(yields(stop_stream, streams[i], states[i], states[i + 1], stops[i]));
    }
}

/// A stream that cannot be opened is reported with its display, or as the one with the audio.
pub proof fn an_unopened_stream_is_reported(failure: OpenFailure, display_id: u32)
    ensures
        failure matches OpenFailure::Output(why) ==> failure.words(display_id)
            == "failed to add output handler for display "@ + decimal(display_id as int) + ": "@
            + why@,
        failure matches OpenFailure::Audio(why) ==> failure.words(display_id)
            == "failed to register audio handler on primary display: "@ + why@,
{
}

/// The status counts the streams and the frames as they are, and what is published of it is read
/// as it was written.
pub proof fn a_status_counts_streams_and_frames<S>(
    engine: CaptureEngine<S>,
    counters: FrameCounters,
    status: CaptureStatus,
    probe: EngineStatusProbe,
    snapshot: EngineStatusSnapshot,
)
    requires
        call_ensures(CaptureEngine::<S>::status, (&engine, &counters), status),
        call_ensures(CaptureEngine::<S>::status_probe, (&engine, &counters), probe),
        call_ensures(EngineStatusProbe::snapshot, (&probe,), snapshot),
        engine.streams@.len() <= usize::MAX,
    ensures
        status.active_displays == engine.streams@.len(),
        status.total_frames_captured == counters.frames_captured,
        status.total_frames_dropped == counters.frames_dropped,
        snapshot.frames_captured == counters.frames_captured,
        snapshot.frames_dropped == counters.frames_dropped,
        snapshot.active_displays == engine.active_displays,
        snapshot.state == engine.state,
{
}

/// A stream is stopped if the handler said so, or if it says that it was stopped already; what
/// else it says, or its silence, is a failure.
pub proof fn only_a_stopped_stream_counts_as_stopped(
    error: Option<StopError>,
    reply: Option<String>,
    waited: Waited<Option<String>>,
    stopped_so: Result<(), String>,
    started_so: Result<(), String>,
)
    requires
        call_ensures(stop_completed, (error,), reply),
        call_ensures(stop_stream, (waited,), stopped_so),
        call_ensures(start_stream, (waited,), started_so),
    ensures
        reply is None <==> error is None || (error->0.is_stream_domain && error->0.code == -3808),
        reply is Some ==> reply->0 == error->0.description,
        stopped_so is Ok <==> waited is Reply && waited->Reply_0 is None,
        started_so is Ok <==> waited is Reply && waited->Reply_0 is None,
        waited is Reply && waited->Reply_0 is Some ==> stopped_so->Err_0 == waited->Reply_0->0
            && started_so->Err_0 == waited->Reply_0->0,
{
}

/// The displays are those that the enumeration found; an error, an empty reply or silence is a
/// failure.
pub proof fn the_displays_are_those_that_were_found<D>(
    error: Option<String>,
    content: Option<Vec<D>>,
    found: Result<Vec<D>, String>,
    waited: Waited<Result<Vec<D>, String>>,
    r: Result<Vec<D>, CaptureError>,
)
    requires
        call_ensures(displays_found::<D>, (error, content), found),
        call_ensures(enumerate_displays::<D>, (waited,), r),
    ensures
        found is Ok <==> error is None && content is Some,
        found is Ok ==> found->Ok_0 == content->0,
        error is Some ==> found->Err_0 == error->0,
        error is None && content is None ==> found->Err_0@ == "SCShareableContent was null"@,
        r is Ok <==> waited is Reply && waited->Reply_0 is Ok,
        r is Ok ==> r->Ok_0 == waited->Reply_0->Ok_0,
        r is Err ==> r->Err_0 is ScreenCaptureKit && (r->Err_0)->ScreenCaptureKit_0@ == (
        if waited is TimedOut {
            "display enumeration timed out"@
        } else if waited is Closed {
            "display enumeration channel closed"@
        } else {
            waited->Reply_0->Err_0@
        }),
{
}

/// A start with bad settings is refused before anything is done; otherwise the displays are listed
/// once, and a stream is started on each.
pub proof fn a_start_lists_the_displays_first<
    W,
    D,
    S,
    E: Fn(W) -> (W, Result<Vec<Display<D>>, CaptureError>),
    O: Fn(W, &Display<D>, bool) -> (W, Result<S, OpenFailure>),
    B: Fn(W, &S) -> (W, Result<(), String>),
    T: Fn(W, &S) -> (W, Result<(), String>),
>(
    config: StartConfig,
    system: W,
    deps: &EngineDeps<E, O, B, T>,
    r: (W, Result<CaptureEngine<S>, CaptureError>),
)
    requires
        call_ensures(
            CaptureEngine::<S>::start_with_deps::<W, D, E, O, B, T>,
            (config, system, deps),
            r,
        ),
    ensures
        !config.interval_is_positive || config.channel_buffer_size == 0 ==> r.0 == system
            && r.1 is Err && r.1->Err_0 is ScreenCaptureKit && (
        r.1->Err_0)->ScreenCaptureKit_0@ == (if !config.interval_is_positive {
            "frame_interval_secs must be positive"@
        } else {
            "channel_buffer_size must be at least 1"@
        }),
        config.interval_is_positive && config.channel_buffer_size > 0 ==> exists|
            listed: W,
            found: Result<Vec<Display<D>>, CaptureError>,
        |
            {
                &&& #[trigger] call_ensures(deps.enumerate_displays, (system,), (listed, found))
                &&& found is Err ==> r.0 == listed && r.1 == Err::<CaptureEngine<S>, CaptureError>(
                    found->Err_0,
                )
                &&& found is Ok ==> start_result(
                    config,
                    *deps,
                    found->Ok_0@,
                    listed,
                    r.0,
                    r.1,
                )
            },
{
}

/// A start on given displays and a stop are what the laws on them say; the state is the engine's.
pub proof fn an_engine_does_as_it_is_told<
    W,
    D,
    S,
    E,
    O: Fn(W, &Display<D>, bool) -> (W, Result<S, OpenFailure>),
    B: Fn(W, &S) -> (W, Result<(), String>),
    T: Fn(W, &S) -> (W, Result<(), String>),
>(
    config: StartConfig,
    system: W,
    deps: &EngineDeps<E, O, B, T>,
    displays: Vec<Display<D>>,
    r: (W, Result<CaptureEngine<S>, CaptureError>),
    stop_with: &T,
    ended: (W, Result<(), CaptureError>),
    engine: CaptureEngine<S>,
    state: EngineState,
    domain: bool,
    code: i64,
    benign: bool,
)
    requires
        call_ensures(
            CaptureEngine::<S>::start_on::<W, D, E, O, B, T>,
            (config, system, deps, displays),
            r,
        ),
        call_ensures(CaptureEngine::<S>::state, (&engine,), state),
        call_ensures(is_benign_stop_error, (domain, code), benign),
    ensures
        start_result(config, *deps, displays@, system, r.0, r.1),
        state == engine.state,
        benign <==> domain && code == -3808,
        forall|e: &mut CaptureEngine<S>| #[trigger]
            call_ensures(CaptureEngine::<S>::stop::<W, T>, (e, system, stop_with), ended)
                ==> stops_to(*e, *final(e), *stop_with, system, ended.0, ended.1),
{
}

/// A stream that could not be started or stopped says why: what was replied, or that no reply came.
pub proof fn an_unanswered_stream_is_reported(
    waited: Waited<Option<String>>,
    started: Result<(), String>,
    stopped: Result<(), String>,
)
    requires
        call_ensures(start_stream, (waited,), started),
        call_ensures(stop_stream, (waited,), stopped),
    ensures
        started is Ok <==> waited is Reply && waited->Reply_0 is None,
        stopped is Ok <==> waited is Reply && waited->Reply_0 is None,
        waited is Reply && waited->Reply_0 is Some ==> started->Err_0 == waited->Reply_0->0
            && stopped->Err_0 == waited->Reply_0->0,
        waited is TimedOut ==> started->Err_0@ == "start capture timed out"@ && stopped->Err_0@
            == "stop capture timed out"@,
        waited is Closed ==> started->Err_0@ == "start capture completion handler channel closed"@
            && stopped->Err_0@ == "stop capture completion handler channel closed"@,
{
}

} // verus!
