//! The encoding pipeline: which buffer goes where, what is flushed when, and how the
//! microphone is turned on and off.

use vstd::prelude::*;
use crate::audio::accumulator::{
    abandoned, cut_samples, flush_hands_out_every_sample, flushed, fresh, held,
    push_keeps_every_sample, pushed, written, written_keeps_every_sample, Cut, Model, SegmentAccumulator, SegmentJob, Step,
};
use crate::audio::handler::AudioMessage;
use crate::audio::{AudioConfig, AudioError, AudioSource, SAMPLE_RATE};
use crate::text::{concat, owned};

verus! {

/// Where the encoding loop stands.
#[derive(Debug, Clone, Copy, PartialEq, Eq, Structural)]
pub enum Phase {
    /// The next message may come.
    Receiving,
    /// A segment of this source is being encoded.
    Encoding(AudioSource),
    /// The channel is closed and the last mic segment is being encoded.
    LastMic,
    /// The last system segment is being encoded.
    LastSystem,
    /// Everything has been flushed.
    Finished,
}

/// The encoding loop: the two accumulators and where it stands.
///
/// Whoever drives it receives a message in `Receiving`, encodes the segment it hands out and
/// reports how that went, and reports the end of the channel.
pub struct EncodingLoop<T> {
    pub mic: SegmentAccumulator<T>,
    pub system: SegmentAccumulator<T>,
    pub phase: Phase,
}

/// The changing part of an encoding loop.
pub struct LoopModel<T> {
    pub mic: Model<T>,
    pub system: Model<T>,
    pub phase: Phase,
}

/// A loop as it is created.
pub open spec fn fresh_loop<T>() -> LoopModel<T> {
    LoopModel { mic: fresh(), system: fresh(), phase: Phase::Receiving }
}

/// A step of the loop: what it is afterwards, and the segment it hands out.
pub struct LoopStep<T> {
    pub next: LoopModel<T>,
    pub cut: Option<Cut<T>>,
}

/// The loop after a step of one source's accumulator.
pub open spec fn with_step<T>(m: LoopModel<T>, source: AudioSource, step: Step<T>) -> LoopStep<T> {
    let phase = if step.cut is Some {
        Phase::Encoding(source)
    } else {
        Phase::Receiving
    };
    match source {
        AudioSource::Microphone => LoopStep {
            next: LoopModel { mic: step.next, phase, ..m },
            cut: step.cut,
        },
        AudioSource::System => LoopStep {
            next: LoopModel { system: step.next, phase, ..m },
            cut: step.cut,
        },
    }
}

/// The accumulator of a source.
pub open spec fn of_source<T>(m: LoopModel<T>, source: AudioSource) -> Model<T> {
    match source {
        AudioSource::Microphone => m.mic,
        AudioSource::System => m.system,
    }
}

/// A buffer is pushed to the accumulator of its source.
pub open spec fn buffer_received<T>(
    m: LoopModel<T>,
    source: AudioSource,
    samples: Seq<T>,
    timestamp_ms: i64,
    buffered_ms: i64,
    per_segment: nat,
) -> LoopStep<T> {
    with_step(
        m,
        source,
        pushed(of_source(m, source), samples, timestamp_ms, buffered_ms, per_segment),
    )
}

/// A flush request goes to the accumulator of its source.
pub open spec fn flush_received<T>(m: LoopModel<T>, source: AudioSource) -> LoopStep<T> {
    with_step(m, source, flushed(of_source(m, source)))
}

/// A message goes to the accumulator of its source.
pub open spec fn message_received<T>(
    m: LoopModel<T>,
    message: AudioMessage<T>,
    buffered_ms: i64,
    per_segment: nat,
) -> LoopStep<T> {
    match message {
        AudioMessage::Buffer(buffer) => buffer_received(
            m,
            buffer.source,
            buffer.samples@,
            buffer.timestamp_ms,
            buffered_ms,
            per_segment,
        ),
        AudioMessage::FlushMic => flush_received(m, AudioSource::Microphone),
        AudioMessage::FlushSystem => flush_received(m, AudioSource::System),
    }
}

/// What is left of the system audio is flushed, and the loop ends.
pub open spec fn finish_system<T>(m: LoopModel<T>) -> LoopStep<T> {
    let step = flushed(m.system);
    LoopStep {
        next: LoopModel {
            system: step.next,
            phase: if step.cut is Some {
                Phase::LastSystem
            } else {
                Phase::Finished
            },
            ..m
        },
        cut: step.cut,
    }
}

/// The channel is closed: what is left of the microphone is flushed, then the system audio.
pub open spec fn disconnected<T>(m: LoopModel<T>) -> LoopStep<T> {
    let step = flushed(m.mic);
    if step.cut is Some {
        LoopStep {
            next: LoopModel { mic: step.next, phase: Phase::LastMic, ..m },
            cut: step.cut,
        }
    } else {
        finish_system(LoopModel { mic: step.next, ..m })
    }
}

/// An accumulator after its segment was written or lost.
pub open spec fn settled<T>(m: Model<T>, ok: bool, per_segment: nat, segment_ms: int) -> Step<T> {
    if ok {
        written(m, per_segment, segment_ms)
    } else {
        Step { next: abandoned(m), cut: None }
    }
}

/// The segment handed out last was written, or could not be.
pub open spec fn segment_done<T>(
    m: LoopModel<T>,
    ok: bool,
    per_segment: nat,
    segment_ms: int,
) -> LoopStep<T> {
    match m.phase {
        Phase::Encoding(source) => with_step(
            m,
            source,
            settled(of_source(m, source), ok, per_segment, segment_ms),
        ),
        Phase::LastMic => finish_system(
            LoopModel { mic: settled(m.mic, ok, per_segment, segment_ms).next, ..m },
        ),
        Phase::LastSystem => LoopStep {
            next: LoopModel {
                system: settled(m.system, ok, per_segment, segment_ms).next,
                phase: Phase::Finished,
                ..m
            },
            cut: None,
        },
        _ => LoopStep { next: m, cut: None },
    }
}

impl<T> EncodingLoop<T> {
    pub open spec fn model(self) -> LoopModel<T> {
        LoopModel { mic: self.mic.model(), system: self.system.model(), phase: self.phase }
    }

    pub open spec fn well_formed(self) -> bool {
        &&& self.mic.well_formed()
        &&& self.system.well_formed()
        &&& self.mic.source == AudioSource::Microphone
        &&& self.system.source == AudioSource::System
        &&& self.mic.samples_per_segment == self.system.samples_per_segment
        &&& self.mic.segment_duration_secs == self.system.segment_duration_secs
        &&& self.mic.waiting is Nothing <==> !(self.phase == Phase::Encoding(
            AudioSource::Microphone,
        ) || self.phase == Phase::LastMic)
        &&& self.system.waiting is Nothing <==> !(self.phase == Phase::Encoding(
            AudioSource::System,
        ) || self.phase == Phase::LastSystem)
        &&& self.phase == Phase::LastMic ==> self.mic.waiting is LastSegment
        &&& self.phase == Phase::LastSystem ==> self.system.waiting is LastSegment
    }

    /// The accumulator of a source.
    pub open spec fn accumulator(self, source: AudioSource) -> SegmentAccumulator<T> {
        match source {
            AudioSource::Microphone => self.mic,
            AudioSource::System => self.system,
        }
    }

    /// Whether two loops differ in their changing part only.
    pub open spec fn same_setup(self, other: Self) -> bool {
        self.mic.same_setup(other.mic) && self.system.same_setup(other.system)
    }

    /// The samples of a full segment.
    pub open spec fn per_segment(self) -> nat {
        self.mic.samples_per_segment as nat
    }

    /// Whether the job is the segment that the step hands out, from the source that the
    /// loop is encoding then.
    pub open spec fn hands_out(self, job: Option<SegmentJob<T>>, step: LoopStep<T>) -> bool {
        match step.next.phase {
            Phase::Encoding(source) => self.accumulator(source).hands_out(job, step.cut),
            Phase::LastMic => self.mic.hands_out(job, step.cut),
            Phase::LastSystem => self.system.hands_out(job, step.cut),
            _ => job is None && step.cut is None,
        }
    }
}

impl<T: Copy> EncodingLoop<T> {
    /// The two accumulators of a pipeline, both at the fixed sample rate.
    pub fn new(config: &AudioConfig) -> (r: Self)
        requires
            0 < SAMPLE_RATE * config.segment_duration_secs <= usize::MAX,
        ensures
            r.well_formed(),
            r.phase == Phase::Receiving,
            r.mic.sample_rate == SAMPLE_RATE,
            r.system.sample_rate == SAMPLE_RATE,
            r.mic.segment_duration_secs == config.segment_duration_secs,
            r.mic.output_dir@ == config.output_dir@,
            r.system.output_dir@ == config.output_dir@,
            r.model() == fresh_loop::<T>(),
    {
        EncodingLoop {
            mic: SegmentAccumulator::new(
                AudioSource::Microphone,
                SAMPLE_RATE,
                config.segment_duration_secs,
                config.output_dir.as_str(),
            ),
            system: SegmentAccumulator::new(
                AudioSource::System,
                SAMPLE_RATE,
                config.segment_duration_secs,
                config.output_dir.as_str(),
            ),
            phase: Phase::Receiving,
        }
    }

    /// A message came in. A buffer is pushed to the accumulator of its source, with
    /// `buffered_ms` the time that what it has buffered lasts; a flush request flushes one.
    pub fn message(&mut self, message: AudioMessage<T>, buffered_ms: i64) -> (r: Option<
        SegmentJob<T>,
    >)
        requires
            old(self).well_formed(),
            old(self).phase == Phase::Receiving,
            message matches AudioMessage::Buffer(buffer) ==> {
                let acc = old(self).accumulator(buffer.source);
                &&& acc.segment_start_ms is Some ==> i64::MIN <= acc.segment_start_ms->0
                    + buffered_ms && i64::MIN <= acc.segment_start_ms->0 + buffered_ms
                    + crate::audio::accumulator::GAP_THRESHOLD_MS <= i64::MAX
                &&& acc.buffer@.len() + buffer.samples@.len() <= usize::MAX
            },
        ensures
            final(self).well_formed(),
            final(self).same_setup(*old(self)),
            ({
                let step = message_received(
                    old(self).model(),
                    message,
                    buffered_ms,
                    old(self).per_segment(),
                );
                final(self).model() == step.next && old(self).hands_out(r, step)
            }),
    {
        match message {
            AudioMessage::Buffer(buffer) => match buffer.source {
                AudioSource::Microphone => {
                    let job = self.mic.push(
                        buffer.samples.as_slice(),
                        buffer.timestamp_ms,
                        buffered_ms,
                    );
                    self.mic_job(job)
                },
                AudioSource::System => {
                    let job = self.system.push(
                        buffer.samples.as_slice(),
                        buffer.timestamp_ms,
                        buffered_ms,
                    );
                    self.system_job(job)
                },
            },
            AudioMessage::FlushMic => {
                let job = self.mic.flush();
                self.mic_job(job)
            },
            AudioMessage::FlushSystem => {
                let job = self.system.flush();
                self.system_job(job)
            },
        }
    }

    fn mic_job(&mut self, job: Option<SegmentJob<T>>) -> (r: Option<SegmentJob<T>>)
        ensures
            final(self).mic == old(self).mic,
            final(self).system == old(self).system,
            r == job,
            final(self).phase == (if job is Some {
                Phase::Encoding(AudioSource::Microphone)
            } else {
                Phase::Receiving
            }),
    {
        self.phase = if job.is_some() {
            Phase::Encoding(AudioSource::Microphone)
        } else {
            Phase::Receiving
        };
        job
    }

    fn system_job(&mut self, job: Option<SegmentJob<T>>) -> (r: Option<SegmentJob<T>>)
        ensures
            final(self).mic == old(self).mic,
            final(self).system == old(self).system,
            r == job,
            final(self).phase == (if job is Some {
                Phase::Encoding(AudioSource::System)
            } else {
                Phase::Receiving
            }),
    {
        self.phase = if job.is_some() {
            Phase::Encoding(AudioSource::System)
        } else {
            Phase::Receiving
        };
        job
    }

    /// The channel has been closed by every sender.
    pub fn disconnect(&mut self) -> (r: Option<SegmentJob<T>>)
        requires
            old(self).well_formed(),
            old(self).phase == Phase::Receiving,
        ensures
            final(self).well_formed(),
            final(self).same_setup(*old(self)),
            final(self).model() == disconnected(old(self).model()).next,
            old(self).hands_out(r, disconnected(old(self).model())),
    {
        let job = self.mic.flush();
        if job.is_some() {
            self.phase = Phase::LastMic;
            return job;
        }
        self.flush_last_system()
    }

    fn flush_last_system(&mut self) -> (r: Option<SegmentJob<T>>)
        requires
            old(self).system.well_formed(),
            old(self).system.waiting is Nothing,
        ensures
            final(self).mic == old(self).mic,
            final(self).system.well_formed(),
            final(self).system.same_setup(old(self).system),
            final(self).system.model() == flushed(old(self).system.model()).next,
            old(self).system.hands_out(r, flushed(old(self).system.model()).cut),
            final(self).phase == (if flushed(old(self).system.model()).cut is Some {
                Phase::LastSystem
            } else {
                Phase::Finished
            }),
    {
        let job = self.system.flush();
        self.phase = if job.is_some() {
            Phase::LastSystem
        } else {
            Phase::Finished
        };
        job
    }

    /// The segment handed out last has been written, if `ok`, or could not be. An error
    /// ends the work on this message; the loop goes on with the next.
    pub fn segment_finished(&mut self, ok: bool) -> (r: Option<SegmentJob<T>>)
        requires
            old(self).well_formed(),
            ok ==> (old(self).phase matches Phase::Encoding(source) ==> {
                let acc = old(self).accumulator(source);
                &&& acc.waiting is FullSegment ==> acc.segment_start_ms->0 + acc.segment_ms()
                    <= i64::MAX
                &&& acc.waiting is GapSegment ==> acc.buffer@.len()
                    + acc.waiting->samples@.len() <= usize::MAX
            }),
        ensures
            final(self).well_formed(),
            final(self).same_setup(*old(self)),
            ({
                let step = segment_done(
                    old(self).model(),
                    ok,
                    old(self).per_segment(),
                    old(self).mic.segment_ms(),
                );
                final(self).model() == step.next && old(self).hands_out(r, step)
            }),
    {
        match self.phase {
            Phase::Encoding(AudioSource::Microphone) => {
                let job = if ok {
                    self.mic.encoded()
                } else {
                    self.mic.encode_failed();
                    None
                };
                self.mic_job(job)
            },
            Phase::Encoding(AudioSource::System) => {
                let job = if ok {
                    self.system.encoded()
                } else {
                    self.system.encode_failed();
                    None
                };
                self.system_job(job)
            },
            Phase::LastMic => {
                if ok {
                    let _nothing = self.mic.encoded();
                } else {
                    self.mic.encode_failed();
                }
                self.flush_last_system()
            },
            Phase::LastSystem => {
                if ok {
                    let _nothing = self.system.encoded();
                } else {
                    self.system.encode_failed();
                }
                self.phase = Phase::Finished;
                None
            },
            Phase::Receiving => None,
            Phase::Finished => None,
        }
    }
}

/// A buffer of one source leaves the other source's accumulator as it was.
pub proof fn a_buffer_touches_one_source<T>(
    m: LoopModel<T>,
    source: AudioSource,
    other: AudioSource,
    samples: Seq<T>,
    timestamp_ms: i64,
    buffered_ms: i64,
    per_segment: nat,
)
    requires
        source != other,
    ensures
        of_source(
            buffer_received(m, source, samples, timestamp_ms, buffered_ms, per_segment).next,
            other,
        ) == of_source(m, other),
        of_source(flush_received(m, source).next, other) == of_source(m, other),
{
}

/// After the channel is closed and both last segments have been reported, written or not,
/// the loop has ended and holds nothing.
pub proof fn shutdown_leaves_nothing_behind<T>(
    m: LoopModel<T>,
    mic_ok: bool,
    system_ok: bool,
    per_segment: nat,
    segment_ms: int,
)
    requires
        m.phase == Phase::Receiving,
        m.mic.waiting is Nothing,
        m.system.waiting is Nothing,
    ensures
        ({
            let first = disconnected(m).next;
            let second = if first.phase == Phase::LastMic {
                segment_done(first, mic_ok, per_segment, segment_ms).next
            } else {
                first
            };
            let third = if second.phase == Phase::LastSystem {
                segment_done(second, system_ok, per_segment, segment_ms).next
            } else {
                second
            };
            &&& third.phase == Phase::Finished
            &&& held(third.mic) == Seq::<T>::empty()
            &&& held(third.system) == Seq::<T>::empty()
        }),
{
    assert(m.mic.buffer.len() == 0 ==> m.mic.buffer =~= Seq::<T>::empty());
    assert(m.system.buffer.len() == 0 ==> m.system.buffer =~= Seq::<T>::empty());
}

/// What happens to an encoding loop.
pub enum LoopEvent<T> {
    /// A message comes in, when what is buffered of its source lasts so long.
    Message(AudioMessage<T>, i64),
    /// The channel is closed.
    Closed,
    /// The segment handed out last has been written, or could not be.
    Reported(bool),
}

/// What an event does.
pub open spec fn loop_step<T>(
    m: LoopModel<T>,
    event: LoopEvent<T>,
    per_segment: nat,
    segment_ms: int,
) -> LoopStep<T> {
    match event {
        LoopEvent::Message(message, buffered_ms) => message_received(
            m,
            message,
            buffered_ms,
            per_segment,
        ),
        LoopEvent::Closed => disconnected(m),
        LoopEvent::Reported(ok) => segment_done(m, ok, per_segment, segment_ms),
    }
}

/// Whether an event may come: a message, or the end of the channel, only once the last segment
/// has been reported.
pub open spec fn may_come<T>(m: LoopModel<T>, event: LoopEvent<T>) -> bool {
    event is Reported || m.phase == Phase::Receiving
}

/// What comes of some events: what the loop is afterwards, and the segments handed out, each
/// with its source.
pub struct LoopRun<T> {
    pub next: LoopModel<T>,
    pub cuts: Seq<(AudioSource, Cut<T>)>,
}

/// The source of the segment that is handed out when the loop comes to this phase.
pub open spec fn source_in(phase: Phase) -> AudioSource {
    match phase {
        Phase::Encoding(source) => source,
        Phase::LastMic => AudioSource::Microphone,
        _ => AudioSource::System,
    }
}

/// What comes of these events, one after the other, in a loop as it is created.
pub open spec fn loop_run<T>(events: Seq<LoopEvent<T>>, per_segment: nat, segment_ms: int) -> LoopRun<
    T,
>
    decreases events.len(),
{
    if events.len() == 0 {
        LoopRun { next: fresh_loop(), cuts: Seq::empty() }
    } else {
        let before = loop_run(events.drop_last(), per_segment, segment_ms);
        let step = loop_step(before.next, events.last(), per_segment, segment_ms);
        LoopRun {
            next: step.next,
            cuts: match step.cut {
                Some(cut) => before.cuts.push((source_in(step.next.phase), cut)),
                None => before.cuts,
            },
        }
    }
}

/// Whether each of the events may come when it does.
pub open spec fn orderly<T>(events: Seq<LoopEvent<T>>, per_segment: nat, segment_ms: int) -> bool
    decreases events.len(),
{
    events.len() > 0 ==> {
        &&& orderly(events.drop_last(), per_segment, segment_ms)
        &&& may_come(
            loop_run(events.drop_last(), per_segment, segment_ms).next,
            events.last(),
        )
    }
}

/// The samples that an event brings of a source.
pub open spec fn brought<T>(event: LoopEvent<T>, source: AudioSource) -> Seq<T> {
    match event {
        LoopEvent::Message(AudioMessage::Buffer(buffer), _) => if buffer.source == source {
            buffer.samples@
        } else {
            Seq::empty()
        },
        _ => Seq::empty(),
    }
}

/// The samples of all buffers of a source, in order.
pub open spec fn received<T>(events: Seq<LoopEvent<T>>, source: AudioSource) -> Seq<T>
    decreases events.len(),
{
    if events.len() == 0 {
        Seq::empty()
    } else {
        received(events.drop_last(), source) + brought(events.last(), source)
    }
}

/// The samples of all segments of a source, in order.
pub open spec fn handed_out<T>(cuts: Seq<(AudioSource, Cut<T>)>, source: AudioSource) -> Seq<T>
    decreases cuts.len(),
{
    if cuts.len() == 0 {
        Seq::empty()
    } else if cuts.last().0 == source {
        handed_out(cuts.drop_last(), source) + cuts.last().1.samples
    } else {
        handed_out(cuts.drop_last(), source)
    }
}

/// What holds of a loop between any two events.
pub open spec fn consistent<T>(m: LoopModel<T>) -> bool {
    &&& m.mic.waiting is Nothing <==> !(m.phase == Phase::Encoding(AudioSource::Microphone)
        || m.phase == Phase::LastMic)
    &&& m.system.waiting is Nothing <==> !(m.phase == Phase::Encoding(AudioSource::System)
        || m.phase == Phase::LastSystem)
    &&& m.phase == Phase::LastMic ==> m.mic.waiting is LastSegment && m.mic.buffer.len() == 0
    &&& m.phase == Phase::LastSystem ==> m.system.waiting is LastSegment && m.system.buffer.len()
        == 0 && m.mic.buffer.len() == 0
    &&& m.phase == Phase::Finished ==> m.mic.buffer.len() == 0 && m.system.buffer.len() == 0
}

/// The samples of a step's segment, if it is of this source.
spec fn cut_of<T>(step: LoopStep<T>, source: AudioSource) -> Seq<T> {
    if source_in(step.next.phase) == source {
        cut_samples(step.cut)
    } else {
        Seq::empty()
    }
}

/// One event neither loses nor repeats a sample of a source, unless it says that a segment could
/// not be written.
proof fn lemma_step_keeps_every_sample<T>(
    m: LoopModel<T>,
    event: LoopEvent<T>,
    per_segment: nat,
    segment_ms: int,
    source: AudioSource,
)
    requires
        per_segment > 0,
        consistent(m),
        may_come(m, event),
    ensures
        ({
            let step = loop_step(m, event, per_segment, segment_ms);
            &&& consistent(step.next)
            &&& step.cut is Some ==> step.cut->0.samples.len() > 0
            &&& event != LoopEvent::<T>::Reported(false) ==> cut_of(step, source) + held(
                of_source(step.next, source),
            ) == held(of_source(m, source)) + brought(event, source)
        }),
{
    let step = loop_step(m, event, per_segment, segment_ms);
    let own = of_source(m, source);
    let empty = Seq::<T>::empty();
    assert(held(own) + empty =~= held(own));
    assert(empty + held(own) =~= held(own));
    match event {
        LoopEvent::Message(AudioMessage::Buffer(buffer), buffered_ms) => {
            push_keeps_every_sample(
                of_source(m, buffer.source),
                buffer.samples@,
                buffer.timestamp_ms,
                buffered_ms,
                per_segment,
            );
        },
        LoopEvent::Message(AudioMessage::FlushMic, _) => {
            flush_hands_out_every_sample(m.mic);
            assert(held(m.mic) + empty =~= held(m.mic));
        },
        LoopEvent::Message(AudioMessage::FlushSystem, _) => {
            flush_hands_out_every_sample(m.system);
            assert(held(m.system) + empty =~= held(m.system));
        },
        LoopEvent::Closed => {
            flush_hands_out_every_sample(m.mic);
            flush_hands_out_every_sample(m.system);
            assert(held(m.mic) + empty =~= held(m.mic));
            assert(held(m.system) + empty =~= held(m.system));
        },
        LoopEvent::Reported(ok) => {
            written_keeps_every_sample(m.mic, per_segment, segment_ms);
            written_keeps_every_sample(m.system, per_segment, segment_ms);
            if m.phase == Phase::LastMic {
                flush_hands_out_every_sample(m.system);
            }
        },
    }
    if event != LoopEvent::<T>::Reported(false) {
        assert(cut_of(step, source) + held(of_source(step.next, source)) =~= held(own) + brought(
            event,
            source,
        ));
    }
}

proof fn lemma_consistent_run<T>(
    events: Seq<LoopEvent<T>>,
    per_segment: nat,
    segment_ms: int,
    source: AudioSource,
)
    requires
        per_segment > 0,
        orderly(events, per_segment, segment_ms),
    ensures
        consistent(loop_run(events, per_segment, segment_ms).next),
    decreases events.len(),
{
    if events.len() > 0 {
        lemma_consistent_run(events.drop_last(), per_segment, segment_ms, source);
        lemma_step_keeps_every_sample(
            loop_run(events.drop_last(), per_segment, segment_ms).next,
            events.last(),
            per_segment,
            segment_ms,
            source,
        );
    }
}

/// What was handed out and held, and what is now, when a step kept every sample.
proof fn lemma_samples_join<T>(
    out: Seq<T>,
    held_before: Seq<T>,
    cut: Seq<T>,
    held_after: Seq<T>,
    new: Seq<T>,
)
    requires
        cut + held_after == held_before + new,
    ensures
        (out + cut) + held_after == (out + held_before) + new,
{
    assert((out + cut) + held_after =~= out + (cut + held_after));
    assert(out + (held_before + new) =~= (out + held_before) + new);
}

proof fn lemma_handed_out_step<T>(
    cuts: Seq<(AudioSource, Cut<T>)>,
    from: AudioSource,
    cut: Option<Cut<T>>,
    source: AudioSource,
)
    ensures
        ({
            let after = match cut {
                Some(c) => cuts.push((from, c)),
                None => cuts,
            };
            handed_out(after, source) == handed_out(cuts, source) + (if from == source {
                cut_samples(cut)
            } else {
                Seq::empty()
            })
        }),
{
    match cut {
        Some(c) => {
            assert(cuts.push((from, c)).drop_last() =~= cuts);
        },
        None => {},
    }
    assert(handed_out(cuts, source) + Seq::<T>::empty() =~= handed_out(cuts, source));
}

/// Over any run in which every segment was written, no sample of a source is lost, repeated or
/// moved: what its segments hold and what is still held are its buffers, in order.
pub proof fn a_run_keeps_every_sample<T>(
    events: Seq<LoopEvent<T>>,
    per_segment: nat,
    segment_ms: int,
    source: AudioSource,
)
    requires
        per_segment > 0,
        orderly(events, per_segment, segment_ms),
        forall|i: int|
            0 <= i < events.len() ==> #[trigger] events[i] != LoopEvent::<T>::Reported(false),
    ensures
        ({
            let run = loop_run(events, per_segment, segment_ms);
            handed_out(run.cuts, source) + held(of_source(run.next, source)) == received(
                events,
                source,
            )
        }),
    decreases events.len(),
{
    if events.len() == 0 {
        assert(Seq::<T>::empty() + Seq::<T>::empty() =~= Seq::<T>::empty());
    } else {
        let earlier = events.drop_last();
        let before = loop_run(earlier, per_segment, segment_ms);
        let event = events.last();
        let step = loop_step(before.next, event, per_segment, segment_ms);
        assert forall|i: int| 0 <= i < earlier.len() implies #[trigger] earlier[i]
            != LoopEvent::<T>::Reported(false) by {
            assert(earlier[i] == events[i]);
        }
        assert(events[events.len() - 1] != LoopEvent::<T>::Reported(false));
        a_run_keeps_every_sample(earlier, per_segment, segment_ms, source);
        lemma_consistent_run(earlier, per_segment, segment_ms, source);
        lemma_step_keeps_every_sample(before.next, event, per_segment, segment_ms, source);
        lemma_handed_out_step(before.cuts, source_in(step.next.phase), step.cut, source);
        lemma_samples_join(
            handed_out(before.cuts, source),
            held(of_source(before.next, source)),
            cut_of(step, source),
            held(of_source(step.next, source)),
            brought(event, source),
        );
    }
}

/// A run that came to its end, with every segment written, has handed out all samples of a
/// source.
pub proof fn a_finished_run_has_handed_out_everything<T>(
    events: Seq<LoopEvent<T>>,
    per_segment: nat,
    segment_ms: int,
    source: AudioSource,
)
    requires
        per_segment > 0,
        orderly(events, per_segment, segment_ms),
        forall|i: int|
            0 <= i < events.len() ==> #[trigger] events[i] != LoopEvent::<T>::Reported(false),
        loop_run(events, per_segment, segment_ms).next.phase == Phase::Finished,
    ensures
        handed_out(loop_run(events, per_segment, segment_ms).cuts, source) == received(
            events,
            source,
        ),
{
    a_run_keeps_every_sample(events, per_segment, segment_ms, source);
    lemma_consistent_run(events, per_segment, segment_ms, source);
    let run = loop_run(events, per_segment, segment_ms);
    assert(held(of_source(run.next, source)).len() == 0);
    assert(handed_out(run.cuts, source) + held(of_source(run.next, source)) =~= handed_out(
        run.cuts,
        source,
    ));
}

/// Without a sample of a source there is no segment of it, whatever else came.
pub proof fn no_buffer_means_no_segment<T>(
    events: Seq<LoopEvent<T>>,
    per_segment: nat,
    segment_ms: int,
    source: AudioSource,
)
    requires
        per_segment > 0,
        orderly(events, per_segment, segment_ms),
        received(events, source).len() == 0,
    ensures
        forall|i: int|
            0 <= i < loop_run(events, per_segment, segment_ms).cuts.len()
                ==> (#[trigger] loop_run(events, per_segment, segment_ms).cuts[i]).0 != source,
        held(of_source(loop_run(events, per_segment, segment_ms).next, source)).len() == 0,
    decreases events.len(),
{
    if events.len() > 0 {
        let earlier = events.drop_last();
        let before = loop_run(earlier, per_segment, segment_ms);
        let run = loop_run(events, per_segment, segment_ms);
        no_buffer_means_no_segment(earlier, per_segment, segment_ms, source);
        lemma_consistent_run(earlier, per_segment, segment_ms, source);
        lemma_step_keeps_every_sample(
            before.next,
            events.last(),
            per_segment,
            segment_ms,
            source,
        );
        let step = loop_step(before.next, events.last(), per_segment, segment_ms);
        assert forall|i: int| 0 <= i < run.cuts.len() implies (#[trigger] run.cuts[i]).0
            != source by {
            if i < before.cuts.len() {
                assert(run.cuts[i] == before.cuts[i]);
            }
        }
    }
}

/// Outcome of a microphone toggle. The microphone is a soft feature — a failure never breaks
/// the encoding pipeline.
#[derive(Debug, Clone, PartialEq, Eq)]
pub enum MicToggleOutcome {
    Enabled,
    Disabled,
    Failed { reason: String },
}

/// What to do next about a microphone toggle.
#[derive(Debug, Clone, PartialEq, Eq)]
pub enum MicToggleStep {
    /// Nothing: this is the outcome.
    Done(MicToggleOutcome),
    /// Start the microphone, then report to `microphone_started`.
    Start,
    /// Stop the microphone, then report to `microphone_stopped`.
    Stop,
    /// Ask for the microphone segment to be finalized, then report to `microphone_flushed`.
    Flush,
}

impl MicToggleOutcome {
    /// Whether the outcome is a failure for this reason.
    pub open spec fn failed_for(self, reason: Seq<char>) -> bool {
        self matches MicToggleOutcome::Failed { reason: r } && r@ == reason
    }
}

/// Decide on a request to turn the microphone on or off. `running` says whether it captures,
/// and is `None` where there is no microphone path.
///
/// Without a path the microphone is not capturing, so a disable is a satisfied no-op and only
/// an enable fails. A request for what already holds changes nothing.
pub fn set_microphone_enabled(running: Option<bool>, enabled: bool) -> (r: MicToggleStep)
    ensures
        running is None && enabled ==> r is Done && r->Done_0.failed_for(
            "microphone path unavailable"@,
        ),
        running is None && !enabled ==> r == MicToggleStep::Done(MicToggleOutcome::Disabled),
        running == Some(true) && enabled ==> r == MicToggleStep::Done(MicToggleOutcome::Enabled),
        running == Some(false) && !enabled ==> r == MicToggleStep::Done(
            MicToggleOutcome::Disabled,
        ),
        running == Some(false) && enabled ==> r == MicToggleStep::Start,
        running == Some(true) && !enabled ==> r == MicToggleStep::Stop,
{
    match running {
        None => if enabled {
            MicToggleStep::Done(
                MicToggleOutcome::Failed { reason: owned("microphone path unavailable") },
            )
        } else {
            MicToggleStep::Done(MicToggleOutcome::Disabled)
        },
        Some(running) => if enabled && running {
            MicToggleStep::Done(MicToggleOutcome::Enabled)
        } else if !enabled && !running {
            MicToggleStep::Done(MicToggleOutcome::Disabled)
        } else if enabled {
            MicToggleStep::Start
        } else {
            MicToggleStep::Stop
        },
    }
}

/// The outcome once the microphone was started, or failed to.
pub fn microphone_started(result: Result<(), AudioError>) -> (r: MicToggleOutcome)
    ensures
        result is Ok ==> r == MicToggleOutcome::Enabled,
        result is Err ==> r.failed_for(result->Err_0.words()),
{
    match result {
        Ok(()) => MicToggleOutcome::Enabled,
        Err(e) => MicToggleOutcome::Failed { reason: e.message() },
    }
}

/// What to do once the microphone was stopped, or failed to. `channel_open` says whether the
/// pipeline still has its sender: the partial segment is then finalized, so a later
/// re-enable does not produce one segment spanning the off-period.
pub fn microphone_stopped(result: Result<(), AudioError>, channel_open: bool) -> (r: MicToggleStep)
    ensures
        result is Ok && channel_open ==> r == MicToggleStep::Flush,
        result is Ok && !channel_open ==> r == MicToggleStep::Done(MicToggleOutcome::Disabled),
        result is Err ==> r is Done && r->Done_0.failed_for(result->Err_0.words()),
{
    match result {
        Ok(()) => if channel_open {
            MicToggleStep::Flush
        } else {
            MicToggleStep::Done(MicToggleOutcome::Disabled)
        },
        Err(e) => MicToggleStep::Done(MicToggleOutcome::Failed { reason: e.message() }),
    }
}

/// The outcome once the flush request was sent, or could not be.
pub fn microphone_flushed(sent: Result<(), String>) -> (r: MicToggleOutcome)
    ensures
        sent is Ok ==> r == MicToggleOutcome::Disabled,
        sent is Err ==> r.failed_for(
            "failed to finalize microphone segment: "@ + sent->Err_0@,
        ),
{
    match sent {
        Ok(()) => MicToggleOutcome::Disabled,
        Err(e) => MicToggleOutcome::Failed {
            reason: concat("failed to finalize microphone segment: ", e.as_str()),
        },
    }
}

/// What a pipeline has: a system-audio handler, a microphone path, a sender to the encoder,
/// and the encoding thread.
#[derive(Debug, Clone, Copy, PartialEq, Eq, Structural)]
pub struct PipelineParts {
    pub handler: bool,
    pub microphone: bool,
    pub sender: bool,
    pub encoding_thread: bool,
}

impl PipelineParts {
    /// The parts of a new pipeline. A microphone that could not be set up is a soft failure.
    pub fn create(microphone: bool) -> (r: Self)
        ensures
            r == (PipelineParts { handler: true, microphone, sender: true, encoding_thread: true }),
    {
        PipelineParts { handler: true, microphone, sender: true, encoding_thread: true }
    }

    /// The settings of a token for stream registration; none after `stop`.
    pub fn token(&self, sample_rate: u32, channel_count: u32) -> (r: Option<(u32, u32)>)
        ensures
            r == (if self.handler {
                Some((sample_rate, channel_count))
            } else {
                None
            }),
    {
        if self.handler {
            Some((sample_rate, channel_count))
        } else {
            None
        }
    }

    /// The result of a request to finalize the system segment: `sent` is how the send went,
    /// and `None` where the pipeline has no sender any more, which is no failure.
    pub fn flush_system_segment(sent: Option<Result<(), String>>) -> (r: Result<(), AudioError>)
        ensures
            r is Ok <==> sent is None || sent->0 is Ok,
            r is Err ==> r->Err_0 is ScreenCaptureKit && (r->Err_0)->ScreenCaptureKit_0@
                == "failed to flush system segment: "@ + (sent->0)->Err_0@,
    {
        match sent {
            None => Ok(()),
            Some(Ok(())) => Ok(()),
            Some(Err(e)) => Err(
                AudioError::ScreenCaptureKit(
                    concat("failed to flush system segment: ", e.as_str()),
                ),
            ),
        }
    }

    /// Whether the pipeline has anything left to stop when it is dropped.
    pub fn left_running(&self) -> (r: bool)
        ensures
            r == (self.handler || self.encoding_thread),
    {
        self.handler || self.encoding_thread
    }

    /// Give up every part. Says whether there is an encoding thread to wait for.
    pub fn stop(&mut self) -> (r: bool)
        ensures
            r == old(self).encoding_thread,
            *final(self) == (PipelineParts {
                handler: false,
                microphone: false,
                sender: false,
                encoding_thread: false,
            }),
    {
        let wait = self.encoding_thread;
        self.microphone = false;
        self.sender = false;
        self.handler = false;
        self.encoding_thread = false;
        wait
    }

    /// The result of a stop: an error where the encoding thread panicked.
    pub fn stopped(thread_panicked: bool) -> (r: Result<(), AudioError>)
        ensures
            r is Ok <==> !thread_panicked,
            r is Err ==> r->Err_0 is ScreenCaptureKit && (r->Err_0)->ScreenCaptureKit_0@
                == "encoding thread panicked"@,
    {
        if thread_panicked {
            Err(AudioError::ScreenCaptureKit(owned("encoding thread panicked")))
        } else {
            Ok(())
        }
    }
}

/// A message goes to the accumulator of its own source: a buffer is pushed there, and a flush
/// request flushes it. The other source is left as it was.
pub proof fn a_message_goes_to_its_own_source<T>(
    m: LoopModel<T>,
    message: AudioMessage<T>,
    buffered_ms: i64,
    per_segment: nat,
)
    ensures
        ({
            let step = message_received(m, message, buffered_ms, per_segment);
            &&& message matches AudioMessage::Buffer(b) ==> {
                let own = pushed(
                    if b.source is Microphone {
                        m.mic
                    } else {
                        m.system
                    },
                    b.samples@,
                    b.timestamp_ms,
                    buffered_ms,
                    per_segment,
                );
                &&& step.cut == own.cut
                &&& b.source is Microphone ==> step.next.mic == own.next && step.next.system
                    == m.system
                &&& b.source is System ==> step.next.system == own.next && step.next.mic == m.mic
                &&& step.next.phase == (if own.cut is Some {
                    Phase::Encoding(b.source)
                } else {
                    Phase::Receiving
                })
            }
            &&& message is FlushMic ==> step.cut == flushed(m.mic).cut && step.next.mic == flushed(
                m.mic,
            ).next && step.next.system == m.system && step.next.phase == (if flushed(
                m.mic,
            ).cut is Some {
                Phase::Encoding(AudioSource::Microphone)
            } else {
                Phase::Receiving
            })
            &&& message is FlushSystem ==> step.cut == flushed(m.system).cut && step.next.system
                == flushed(m.system).next && step.next.mic == m.mic && step.next.phase == (
            if flushed(m.system).cut is Some {
                Phase::Encoding(AudioSource::System)
            } else {
                Phase::Receiving
            })
        }),
{
}

/// At the end of the channel the microphone is flushed first, and then the system audio.
pub proof fn the_end_of_the_channel_flushes_both<T>(m: LoopModel<T>)
    ensures
        flushed(m.mic).cut is Some ==> disconnected(m).cut == flushed(m.mic).cut && disconnected(
            m,
        ).next.phase == Phase::LastMic && disconnected(m).next.mic == flushed(m.mic).next
            && disconnected(m).next.system == m.system,
        flushed(m.mic).cut is None ==> disconnected(m).cut == flushed(m.system).cut
            && disconnected(m).next.system == flushed(m.system).next && disconnected(m).next.phase
            == (if flushed(m.system).cut is Some {
            Phase::LastSystem
        } else {
            Phase::Finished
        }),
{
}

/// A report goes to the source whose segment was being encoded: one that was written lets it go on,
/// and one that was not is lost.
pub proof fn a_report_goes_to_the_encoding_source<T>(
    m: LoopModel<T>,
    ok: bool,
    per_segment: nat,
    segment_ms: int,
)
    ensures
        ({
            let step = segment_done(m, ok, per_segment, segment_ms);
            &&& m.phase == Phase::Encoding(AudioSource::Microphone) && ok ==> step.cut == written(
                m.mic,
                per_segment,
                segment_ms,
            ).cut && step.next.mic == written(m.mic, per_segment, segment_ms).next
                && step.next.system == m.system
            &&& m.phase == Phase::Encoding(AudioSource::System) && ok ==> step.cut == written(
                m.system,
                per_segment,
                segment_ms,
            ).cut && step.next.system == written(m.system, per_segment, segment_ms).next
                && step.next.mic == m.mic
            &&& m.phase == Phase::Encoding(AudioSource::Microphone) && !ok ==> step.cut is None
                && step.next.mic == abandoned(m.mic) && step.next.system == m.system
                && step.next.phase == Phase::Receiving
            &&& m.phase == Phase::Encoding(AudioSource::System) && !ok ==> step.cut is None
                && step.next.system == abandoned(m.system) && step.next.mic == m.mic
                && step.next.phase == Phase::Receiving
            &&& m.phase is Encoding && step.cut is Some ==> step.next.phase == m.phase
            &&& m.phase is Encoding && step.cut is None ==> step.next.phase == Phase::Receiving
            &&& m.phase == Phase::LastMic ==> step.cut == flushed(m.system).cut
                && step.next.system == flushed(m.system).next && step.next.phase == (if flushed(
                m.system,
            ).cut is Some {
                Phase::LastSystem
            } else {
                Phase::Finished
            })
            &&& m.phase == Phase::LastSystem ==> step.cut is None && step.next.phase
                == Phase::Finished && step.next.mic == m.mic
            &&& m.phase == Phase::Receiving || m.phase == Phase::Finished ==> step.cut is None
                && step.next == m
        }),
{
}

/// A loop shows its accumulators and its phase, and begins with both of them empty.
pub proof fn a_loop_shows_its_fields<T>(l: EncodingLoop<T>)
    ensures
        l.model().mic == l.mic.model(),
        l.model().system == l.system.model(),
        l.model().phase == l.phase,
        l.per_segment() == l.mic.samples_per_segment,
        fresh_loop::<T>().mic.buffer.len() == 0,
        fresh_loop::<T>().system.buffer.len() == 0,
        fresh_loop::<T>().mic.start is None,
        fresh_loop::<T>().system.start is None,
        fresh_loop::<T>().phase == Phase::Receiving,
{
}

/// The segment that is handed out is the cut, from the source that is being encoded.
pub proof fn a_loop_hands_out_the_cut_of_its_source<T>(
    l: EncodingLoop<T>,
    job: Option<SegmentJob<T>>,
    step: LoopStep<T>,
)
    requires
        l.hands_out(job, step),
    ensures
        step.next.phase == Phase::Encoding(AudioSource::Microphone) || step.next.phase
            == Phase::LastMic ==> l.mic.hands_out(job, step.cut),
        step.next.phase == Phase::Encoding(AudioSource::System) || step.next.phase
            == Phase::LastSystem ==> l.system.hands_out(job, step.cut),
        step.next.phase == Phase::Receiving || step.next.phase == Phase::Finished ==> job is None
            && step.cut is None,
{
}

/// The microphone is switched only where that changes something: it is started if it is to be on
/// and is off, and stopped if it is to be off and is on. Without one, only turning it on fails.
pub proof fn the_microphone_is_switched_only_if_needed(
    running: Option<bool>,
    enabled: bool,
    r: MicToggleStep,
)
    requires
        call_ensures(set_microphone_enabled, (running, enabled), r),
    ensures
        r is Start <==> running == Some(false) && enabled,
        r is Stop <==> running == Some(true) && !enabled,
        running is None && enabled ==> r is Done && r->Done_0 is Failed && r->Done_0->reason@
            == "microphone path unavailable"@,
        running is None && !enabled ==> r is Done && r->Done_0 is Disabled,
        running == Some(enabled) && enabled ==> r is Done && r->Done_0 is Enabled,
        running == Some(enabled) && !enabled ==> r is Done && r->Done_0 is Disabled,
{
    match running {
        None => {},
        Some(on) => {
            if on {
                assert(running == Some(true));
            } else {
                assert(running == Some(false));
            }
        },
    }
}

/// A switch succeeds if every step of it did: a start, or a stop and the flush of what was
/// recorded, if there is a channel for that.
pub proof fn a_switch_succeeds_if_its_steps_do(
    result: Result<(), AudioError>,
    open: bool,
    sent: Result<(), String>,
    started: MicToggleOutcome,
    stopped: MicToggleStep,
    flushed_so: MicToggleOutcome,
)
    requires
        call_ensures(microphone_started, (result,), started),
        call_ensures(microphone_stopped, (result, open), stopped),
        call_ensures(microphone_flushed, (sent,), flushed_so),
    ensures
        result is Ok ==> started is Enabled,
        result is Err ==> started is Failed && started->reason@ == result->Err_0.words(),
        result is Ok && open ==> stopped is Flush,
        result is Ok && !open ==> stopped is Done && stopped->Done_0 is Disabled,
        result is Err ==> stopped is Done && stopped->Done_0 is Failed && stopped->Done_0->reason@
            == result->Err_0.words(),
        sent is Ok ==> flushed_so is Disabled,
        sent is Err ==> flushed_so is Failed && flushed_so->reason@
            == "failed to finalize microphone segment: "@ + sent->Err_0@,
{
}

/// A pipeline has all its parts until it is stopped, and none after that; only a pipeline that has
/// its handler gives out a token, and only one that has parts left is stopped when it is dropped.
pub proof fn a_pipeline_has_its_parts_until_it_is_stopped(
    microphone: bool,
    made: PipelineParts,
    parts: PipelineParts,
    rate: u32,
    channels: u32,
    token: Option<(u32, u32)>,
    left: bool,
    panicked: bool,
    ended: Result<(), AudioError>,
    wait: bool,
)
    requires
        call_ensures(PipelineParts::create, (microphone,), made),
        call_ensures(PipelineParts::token, (&parts, rate, channels), token),
        call_ensures(PipelineParts::left_running, (&parts,), left),
        call_ensures(PipelineParts::stopped, (panicked,), ended),
    ensures
        made.handler && made.sender && made.encoding_thread && made.microphone == microphone,
        token is Some <==> parts.handler,
        token is Some ==> token->0 == (rate, channels),
        left <==> parts.handler || parts.encoding_thread,
        ended is Ok <==> !panicked,
        forall|p: &mut PipelineParts| #[trigger]
            call_ensures(PipelineParts::stop, (p,), wait) ==> {
                &&& wait == (*p).encoding_thread
                &&& !(*final(p)).handler && !(*final(p)).sender && !(*final(p)).encoding_thread
                    && !(*final(p)).microphone
            },
{
}

/// The loop takes a message, the end of the channel and a report as the model says, and hands out
/// what that hands out.
pub proof fn a_loop_does_as_its_model<T: Copy>(
    message: AudioMessage<T>,
    buffered_ms: i64,
    ok: bool,
    r: Option<SegmentJob<T>>,
)
    ensures
        forall|l: &mut EncodingLoop<T>| #[trigger]
            call_ensures(EncodingLoop::<T>::message, (l, message, buffered_ms), r) ==> {
                let step = message_received(
                    (*l).model(),
                    message,
                    buffered_ms,
                    (*l).mic.samples_per_segment as nat,
                );
                (*final(l)).model() == step.next && (*l).hands_out(r, step)
            },
        forall|l: &mut EncodingLoop<T>| #[trigger]
            call_ensures(EncodingLoop::<T>::disconnect, (l,), r) ==> (*final(l)).model()
                == disconnected((*l).model()).next && (*l).hands_out(r, disconnected((*l).model())),
        forall|l: &mut EncodingLoop<T>| #[trigger]
            call_ensures(EncodingLoop::<T>::segment_finished, (l, ok), r) ==> {
                let step = segment_done(
                    (*l).model(),
                    ok,
                    (*l).mic.samples_per_segment as nat,
                    1000 * (*l).mic.segment_duration_secs,
                );
                (*final(l)).model() == step.next && (*l).hands_out(r, step)
            },
{
}

/// A loop is set up for both sources alike, at 48 kHz and with the configured segments.
pub proof fn a_loop_is_set_up_for_both_sources<T: Copy>(config: AudioConfig, r: EncodingLoop<T>)
    requires
        call_ensures(EncodingLoop::<T>::new, (&config,), r),
    ensures
        r.mic.source is Microphone,
        r.system.source is System,
        r.mic.sample_rate == 48_000,
        r.system.sample_rate == 48_000,
        r.mic.samples_per_segment == 48_000 * config.segment_duration_secs,
        r.system.samples_per_segment == 48_000 * config.segment_duration_secs,
        r.mic.segment_duration_secs == config.segment_duration_secs,
        r.system.segment_duration_secs == config.segment_duration_secs,
        r.mic.output_dir@ == config.output_dir@,
        r.system.output_dir@ == config.output_dir@,
        r.phase == Phase::Receiving,
{
}

/// A flush of the system segment fails only if it could not be sent.
pub proof fn a_flush_fails_only_if_it_was_not_sent(
    sent: Option<Result<(), String>>,
    r: Result<(), AudioError>,
)
    requires
        call_ensures(PipelineParts::flush_system_segment, (sent,), r),
    ensures
        r is Err <==> sent is Some && sent->0 is Err,
        r is Err ==> r->Err_0 is ScreenCaptureKit && (r->Err_0)->ScreenCaptureKit_0@
            == "failed to flush system segment: "@ + (sent->0)->Err_0@,
{
}

/// A pipeline that was stopped is one whose thread came to its end.
pub proof fn a_pipeline_stops_unless_its_thread_panicked(panicked: bool, r: Result<(), AudioError>)
    requires
        call_ensures(PipelineParts::stopped, (panicked,), r),
    ensures
        !panicked ==> r is Ok,
        panicked ==> r is Err && r->Err_0 is ScreenCaptureKit && (r->Err_0)->ScreenCaptureKit_0@
            == "encoding thread panicked"@,
{
}

} // verus!
