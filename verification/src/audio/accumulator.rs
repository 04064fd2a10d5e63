//! Segment accumulator — buffers PCM samples and cuts them at segment boundaries.

use vstd::prelude::*;
use crate::audio::{segment_file, segment_path, AudioSource, CompletedSegment};
use crate::text::{decimal, joined, owned};

verus! {

/// A forward wall-clock jump larger than this between consecutive pushes means capture was
/// interrupted (sleep, display nap, restart). Comfortably above normal inter-buffer jitter
/// (tens of ms), below the shortest sleep we care about.
pub const GAP_THRESHOLD_MS: i64 = 2000;

/// What an accumulator waits for.
pub enum Waiting<T> {
    /// Nothing: the next push or flush may come.
    Nothing,
    /// The partial segment before a gap to be written; then these samples follow, from
    /// this time on.
    GapSegment { samples: Vec<T>, timestamp_ms: i64 },
    /// A full segment to be written.
    FullSegment,
    /// The last, partial segment to be written.
    LastSegment,
}

/// A segment to be encoded to a file.
pub struct SegmentJob<T> {
    pub source: AudioSource,
    pub samples: Vec<T>,
    pub start_ms: i64,
    pub path: String,
    /// How long it lasts, if it is a full segment.
    pub full_ms: Option<i64>,
}

/// Buffers incoming PCM samples for a single audio source and hands them out for encoding
/// when a segment boundary is reached.
///
/// Whoever drives it writes each segment that it hands out and then reports `encoded` or
/// `encode_failed`, before the next push or flush.
pub struct SegmentAccumulator<T> {
    pub source: AudioSource,
    pub buffer: Vec<T>,
    pub samples_per_segment: usize,
    pub sample_rate: u32,
    pub segment_duration_secs: u32,
    pub output_dir: String,
    pub segment_start_ms: Option<i64>,
    pub waiting: Waiting<T>,
}

/// What an accumulator waits for, and with which samples.
pub enum WaitingModel<T> {
    Nothing,
    GapSegment { samples: Seq<T>, timestamp_ms: i64 },
    FullSegment,
    LastSegment,
}

/// The changing part of an accumulator.
pub struct Model<T> {
    pub buffer: Seq<T>,
    pub start: Option<i64>,
    pub waiting: WaitingModel<T>,
}

/// A segment handed out: its samples, its start, and whether it is a full one.
pub struct Cut<T> {
    pub samples: Seq<T>,
    pub start_ms: int,
    pub full: bool,
}

impl<T> Cut<T> {
    /// How long the segment lasts: a full one its set length, and any other as long as its
    /// samples were measured to last.
    pub open spec fn lasts(self, segment_ms: int, measured_ms: i64) -> int {
        if self.full {
            segment_ms
        } else {
            measured_ms as int
        }
    }
}

/// A step of an accumulator: what it is afterwards, and the segment it hands out.
pub struct Step<T> {
    pub next: Model<T>,
    pub cut: Option<Cut<T>>,
}

/// Hands out the next full segment if the buffer holds one.
pub open spec fn cut_full<T>(m: Model<T>, per_segment: nat) -> Step<T> {
    if m.buffer.len() >= per_segment {
        Step {
            next: Model {
                buffer: m.buffer.skip(per_segment as int),
                start: m.start,
                waiting: WaitingModel::FullSegment,
            },
            cut: Some(
                Cut {
                    samples: m.buffer.take(per_segment as int),
                    start_ms: start_or_zero(m),
                    full: true,
                },
            ),
        }
    } else {
        Step { next: Model { waiting: WaitingModel::Nothing, ..m }, cut: None }
    }
}

/// The start of the current segment, or zero where there is none.
pub open spec fn start_or_zero<T>(m: Model<T>) -> int {
    match m.start {
        Some(t) => t as int,
        None => 0,
    }
}

/// Takes the samples in, and hands out the first full segment if there is one.
pub open spec fn take_in<T>(m: Model<T>, samples: Seq<T>, timestamp_ms: i64, per_segment: nat) -> Step<
    T,
> {
    cut_full(
        Model {
            buffer: m.buffer + samples,
            start: match m.start {
                Some(t) => Some(t),
                None => Some(timestamp_ms),
            },
            waiting: WaitingModel::Nothing,
        },
        per_segment,
    )
}

/// Whether the samples pushed at `timestamp_ms` come after a gap, with `buffered_ms` of
/// audio since the segment's start.
pub open spec fn after_gap<T>(m: Model<T>, timestamp_ms: i64, buffered_ms: i64) -> bool {
    m.start is Some && timestamp_ms > m.start->0 + buffered_ms + GAP_THRESHOLD_MS
}

/// A push of samples that were captured from `timestamp_ms` on.
pub open spec fn pushed<T>(
    m: Model<T>,
    samples: Seq<T>,
    timestamp_ms: i64,
    buffered_ms: i64,
    per_segment: nat,
) -> Step<T> {
    if after_gap(m, timestamp_ms, buffered_ms) {
        if m.buffer.len() > 0 {
            Step {
                next: Model {
                    buffer: Seq::empty(),
                    start: m.start,
                    waiting: WaitingModel::GapSegment { samples, timestamp_ms },
                },
                cut: Some(Cut { samples: m.buffer, start_ms: start_or_zero(m), full: false }),
            }
        } else {
            take_in(Model { start: None, ..m }, samples, timestamp_ms, per_segment)
        }
    } else {
        take_in(m, samples, timestamp_ms, per_segment)
    }
}

/// A flush of what is buffered.
pub open spec fn flushed<T>(m: Model<T>) -> Step<T> {
    if m.buffer.len() > 0 {
        Step {
            next: Model {
                buffer: Seq::empty(),
                start: m.start,
                waiting: WaitingModel::LastSegment,
            },
            cut: Some(Cut { samples: m.buffer, start_ms: start_or_zero(m), full: false }),
        }
    } else {
        Step { next: m, cut: None }
    }
}

/// The segment handed out last has been written.
pub open spec fn written<T>(m: Model<T>, per_segment: nat, segment_ms: int) -> Step<T> {
    match m.waiting {
        WaitingModel::Nothing => Step { next: m, cut: None },
        WaitingModel::GapSegment { samples, timestamp_ms } => take_in(
            Model { start: None, ..m },
            samples,
            timestamp_ms,
            per_segment,
        ),
        WaitingModel::FullSegment => cut_full(
            Model { start: Some((start_or_zero(m) + segment_ms) as i64), ..m },
            per_segment,
        ),
        WaitingModel::LastSegment => Step {
            next: Model { start: None, waiting: WaitingModel::Nothing, ..m },
            cut: None,
        },
    }
}

/// The segment handed out last could not be written: it is lost, and with it the samples
/// that waited for it; the start stays.
pub open spec fn abandoned<T>(m: Model<T>) -> Model<T> {
    Model { waiting: WaitingModel::Nothing, ..m }
}

/// The samples that an accumulator holds, in order.
pub open spec fn held<T>(m: Model<T>) -> Seq<T> {
    match m.waiting {
        WaitingModel::GapSegment { samples, .. } => m.buffer + samples,
        _ => m.buffer,
    }
}

/// The samples of a segment handed out, or none.
pub open spec fn cut_samples<T>(cut: Option<Cut<T>>) -> Seq<T> {
    match cut {
        Some(c) => c.samples,
        None => Seq::empty(),
    }
}

impl<T> Waiting<T> {
    pub open spec fn model(self) -> WaitingModel<T> {
        match self {
            Waiting::Nothing => WaitingModel::Nothing,
            Waiting::GapSegment { samples, timestamp_ms } => WaitingModel::GapSegment {
                samples: samples@,
                timestamp_ms,
            },
            Waiting::FullSegment => WaitingModel::FullSegment,
            Waiting::LastSegment => WaitingModel::LastSegment,
        }
    }
}

impl<T> SegmentAccumulator<T> {
    pub open spec fn model(self) -> Model<T> {
        Model {
            buffer: self.buffer@,
            start: self.segment_start_ms,
            waiting: self.waiting.model(),
        }
    }

    /// The length of a full segment in milliseconds.
    pub open spec fn segment_ms(self) -> int {
        self.segment_duration_secs * 1000
    }

    pub open spec fn well_formed(self) -> bool {
        &&& self.samples_per_segment > 0
        &&& self.samples_per_segment == self.sample_rate * self.segment_duration_secs
        &&& self.waiting is FullSegment ==> self.segment_start_ms is Some
    }

    /// Whether two accumulators differ in their changing part only.
    pub open spec fn same_setup(self, other: Self) -> bool {
        &&& self.source == other.source
        &&& self.samples_per_segment == other.samples_per_segment
        &&& self.sample_rate == other.sample_rate
        &&& self.segment_duration_secs == other.segment_duration_secs
        &&& self.output_dir@ == other.output_dir@
    }

    /// Whether the segment handed out is this one, with its source and path.
    pub open spec fn hands_out(self, job: Option<SegmentJob<T>>, cut: Option<Cut<T>>) -> bool {
        match cut {
            None => job is None,
            Some(c) => {
                &&& job is Some
                &&& job->0.source == self.source
                &&& job->0.samples@ == c.samples
                &&& job->0.start_ms == c.start_ms
                &&& job->0.full_ms == (if c.full {
                    Some(self.segment_ms() as i64)
                } else {
                    None
                })
                &&& job->0.path@ == joined(
                    self.output_dir@,
                    segment_file(c.start_ms, self.source),
                )
            },
        }
    }
}

impl<T> SegmentJob<T> {
    /// How long the segment lasts: a full one its set length, and any other as long as its
    /// samples were measured to last.
    pub open spec fn lasts(self, measured_ms: i64) -> i64 {
        match self.full_ms {
            Some(ms) => ms,
            None => measured_ms,
        }
    }

    /// How long the segment lasts, if its samples were measured to last so long.
    pub fn duration_ms(&self, measured_ms: i64) -> (r: i64)
        ensures
            r == self.lasts(measured_ms),
    {
        match self.full_ms {
            Some(ms) => ms,
            None => measured_ms,
        }
    }

    /// The record of this segment once it has been written. `measured_ms` is how long its
    /// samples last.
    pub fn completed(self, measured_ms: i64) -> (r: CompletedSegment)
        requires
            i64::MIN <= self.start_ms + self.lasts(measured_ms) <= i64::MAX,
        ensures
            r.source == self.source,
            r.path@ == self.path@,
            r.start_timestamp == self.start_ms,
            r.end_timestamp == self.start_ms + self.lasts(measured_ms),
    {
        let end_timestamp: i64 = self.start_ms + self.duration_ms(measured_ms);
        CompletedSegment {
            source: self.source,
            path: self.path,
            start_timestamp: self.start_ms,
            end_timestamp,
        }
    }
}

impl<T: Copy> SegmentAccumulator<T> {
    /// Create a new accumulator for the given source.
    ///
    /// `segment_duration_secs` controls how many seconds of audio accumulate before a
    /// segment is handed out.
    pub fn new(
        source: AudioSource,
        sample_rate: u32,
        segment_duration_secs: u32,
        output_dir: &str,
    ) -> (r: Self)
        requires
            0 < sample_rate * segment_duration_secs <= usize::MAX,
        ensures
            r.well_formed(),
            r.source == source,
            r.sample_rate == sample_rate,
            r.segment_duration_secs == segment_duration_secs,
            r.output_dir@ == output_dir@,
            r.model() == fresh::<T>(),
    {
        SegmentAccumulator {
            source,
            buffer: Vec::new(),
            samples_per_segment: (sample_rate as u64 * segment_duration_secs as u64) as usize,
            sample_rate,
            segment_duration_secs,
            output_dir: owned(output_dir),
            segment_start_ms: None,
            waiting: Waiting::Nothing,
        }
    }

    /// Push new PCM samples into the buffer.
    ///
    /// `timestamp_ms` is the wall-clock timestamp of the first sample in this push. On the
    /// first push of a segment it becomes the segment start time. `buffered_ms` is how long
    /// the samples in the buffer last.
    ///
    /// A forward wall-clock jump past the threshold means capture was interrupted: the
    /// current partial segment is handed out and a fresh one begins, so no segment spans the
    /// gap. Otherwise a segment is handed out as soon as the buffer holds a full one; if a
    /// push holds more than one, `encoded` hands out the next.
    pub fn push(&mut self, samples: &[T], timestamp_ms: i64, buffered_ms: i64) -> (r: Option<
        SegmentJob<T>,
    >)
        requires
            old(self).well_formed(),
            old(self).waiting is Nothing,
            old(self).segment_start_ms is Some ==> i64::MIN <= old(self).segment_start_ms->0
                + buffered_ms && i64::MIN <= old(self).segment_start_ms->0 + buffered_ms
                + GAP_THRESHOLD_MS <= i64::MAX,
            old(self).buffer@.len() + samples@.len() <= usize::MAX,
        ensures
            final(self).well_formed(),
            final(self).same_setup(*old(self)),
            ({
                let step = pushed(
                    old(self).model(),
                    samples@,
                    timestamp_ms,
                    buffered_ms,
                    old(self).samples_per_segment as nat,
                );
                final(self).model() == step.next && old(self).hands_out(r, step.cut)
            }),
    {
        if let Some(start) = self.segment_start_ms {
            let expected_ms: i64 = start + buffered_ms;
            if timestamp_ms > expected_ms + GAP_THRESHOLD_MS {
                if self.buffer.len() > 0 {
                    let held = copy_items(samples);
                    let job = self.take_all();
                    self.waiting = Waiting::GapSegment { samples: held, timestamp_ms };
                    return Some(job);
                }
                self.segment_start_ms = None;
            }
        }
        self.take_in_samples(samples, timestamp_ms)
    }

    /// Hand out the buffered samples as a partial segment.
    ///
    /// Call this when audio capture stops. Nothing is handed out if the buffer is empty.
    pub fn flush(&mut self) -> (r: Option<SegmentJob<T>>)
        requires
            old(self).well_formed(),
            old(self).waiting is Nothing,
        ensures
            final(self).well_formed(),
            final(self).same_setup(*old(self)),
            final(self).model() == flushed(old(self).model()).next,
            old(self).hands_out(r, flushed(old(self).model()).cut),
    {
        if self.buffer.len() == 0 {
            return None;
        }
        let job = self.take_all();
        self.waiting = Waiting::LastSegment;
        Some(job)
    }

    /// The segment handed out last has been written. The next full segment, if there is
    /// one, is handed out.
    pub fn encoded(&mut self) -> (r: Option<SegmentJob<T>>)
        requires
            old(self).well_formed(),
            old(self).waiting is FullSegment ==> old(self).segment_start_ms->0
                + old(self).segment_ms() <= i64::MAX,
            old(self).waiting is GapSegment ==> old(self).buffer@.len()
                + old(self).waiting->samples@.len() <= usize::MAX,
        ensures
            final(self).well_formed(),
            final(self).same_setup(*old(self)),
            ({
                let step = written(
                    old(self).model(),
                    old(self).samples_per_segment as nat,
                    old(self).segment_ms(),
                );
                final(self).model() == step.next && old(self).hands_out(r, step.cut)
            }),
    {
        let mut waiting = Waiting::Nothing;
        std::mem::swap(&mut self.waiting, &mut waiting);
        match waiting {
            Waiting::Nothing => None,
            Waiting::GapSegment { samples, timestamp_ms } => {
                self.segment_start_ms = None;
                self.take_in_samples(samples.as_slice(), timestamp_ms)
            },
            Waiting::FullSegment => {
                if let Some(start) = self.segment_start_ms {
                    let segment_ms: i64 = self.segment_duration_secs as i64 * 1000;
                    self.segment_start_ms = Some(start + segment_ms);
                }
                self.cut()
            },
            Waiting::LastSegment => {
                self.segment_start_ms = None;
                None
            },
        }
    }

    /// The segment handed out last could not be written.
    pub fn encode_failed(&mut self)
        requires
            old(self).well_formed(),
        ensures
            final(self).well_formed(),
            final(self).same_setup(*old(self)),
            final(self).model() == abandoned(old(self).model()),
    {
        self.waiting = Waiting::Nothing;
    }

    fn take_in_samples(&mut self, samples: &[T], timestamp_ms: i64) -> (r: Option<SegmentJob<T>>)
        requires
            old(self).well_formed(),
            old(self).waiting is Nothing,
            old(self).buffer@.len() + samples@.len() <= usize::MAX,
        ensures
            final(self).well_formed(),
            final(self).same_setup(*old(self)),
            ({
                let step = take_in(
                    old(self).model(),
                    samples@,
                    timestamp_ms,
                    old(self).samples_per_segment as nat,
                );
                final(self).model() == step.next && old(self).hands_out(r, step.cut)
            }),
    {
        if self.segment_start_ms.is_none() {
            self.segment_start_ms = Some(timestamp_ms);
        }
        let ghost before = *self;
        let mut i: usize = 0;
        proof {
            assert(before.buffer@ + samples@.take(0) =~= before.buffer@);
        }
        while i < samples.len()
            invariant
                i <= samples.len(),
                self.same_setup(before),
                self.segment_start_ms == before.segment_start_ms,
                self.waiting == before.waiting,
                self.buffer@ == before.buffer@ + samples@.take(i as int),
                before.buffer@.len() + samples@.len() <= usize::MAX,
            decreases samples.len() - i,
        {
            self.buffer.push(samples[i]);
            i += 1;
            proof {
                assert(self.buffer@ =~= before.buffer@ + samples@.take(i as int));
            }
        }
        proof {
            assert(samples@.take(samples@.len() as int) =~= samples@);
        }
        self.cut()
    }

    fn cut(&mut self) -> (r: Option<SegmentJob<T>>)
        requires
            old(self).well_formed(),
            old(self).waiting is Nothing,
            old(self).segment_start_ms is Some,
        ensures
            final(self).well_formed(),
            final(self).same_setup(*old(self)),
            final(self).model() == cut_full(
                old(self).model(),
                old(self).samples_per_segment as nat,
            ).next,
            old(self).hands_out(
                r,
                cut_full(old(self).model(), old(self).samples_per_segment as nat).cut,
            ),
    {
        if self.buffer.len() < self.samples_per_segment {
            return None;
        }
        let mut rest = self.buffer.split_off(self.samples_per_segment);
        std::mem::swap(&mut self.buffer, &mut rest);
        proof {
            assert(rest@ =~= old(self).buffer@.take(old(self).samples_per_segment as int));
            assert(self.buffer@ =~= old(self).buffer@.skip(old(self).samples_per_segment as int));
        }
        self.waiting = Waiting::FullSegment;
        let full_ms: i64 = self.segment_duration_secs as i64 * 1000;
        Some(self.job(rest, Some(full_ms)))
    }

    fn take_all(&mut self) -> (r: SegmentJob<T>)
        requires
            old(self).well_formed(),
        ensures
            final(self).same_setup(*old(self)),
            final(self).buffer@ == Seq::<T>::empty(),
            final(self).segment_start_ms == old(self).segment_start_ms,
            final(self).waiting == old(self).waiting,
            old(self).hands_out(
                Some(r),
                Some(
                    Cut {
                        samples: old(self).buffer@,
                        start_ms: start_or_zero(old(self).model()),
                        full: false,
                    },
                ),
            ),
    {
        let mut samples: Vec<T> = Vec::new();
        std::mem::swap(&mut self.buffer, &mut samples);
        self.job(samples, None)
    }

    fn job(&self, samples: Vec<T>, full_ms: Option<i64>) -> (r: SegmentJob<T>)
        ensures
            r.full_ms == full_ms,
            r.source == self.source,
            r.samples@ == samples@,
            r.start_ms == start_or_zero(self.model()),
            r.path@ == joined(
                self.output_dir@,
                segment_file(start_or_zero(self.model()), self.source),
            ),
    {
        let start_ms: i64 = match self.segment_start_ms {
            Some(t) => t,
            None => 0,
        };
        let path = segment_path(self.output_dir.as_str(), start_ms, self.source);
        SegmentJob { source: self.source, samples, start_ms, path, full_ms }
    }
}

fn copy_items<T: Copy>(items: &[T]) -> (r: Vec<T>)
    ensures
        r@ == items@,
{
    let r = crate::text::slice_range(items, 0, items.len());
    proof {
        assert(r@ =~= items@);
    }
    r
}

/// A push neither loses nor repeats a sample: what it hands out and what stays, in order, is
/// what was held and what came.
pub proof fn push_keeps_every_sample<T>(
    m: Model<T>,
    samples: Seq<T>,
    timestamp_ms: i64,
    buffered_ms: i64,
    per_segment: nat,
)
    requires
        m.waiting is Nothing,
    ensures
        ({
            let step = pushed(m, samples, timestamp_ms, buffered_ms, per_segment);
            cut_samples(step.cut) + held(step.next) == held(m) + samples
        }),
{
    let step = pushed(m, samples, timestamp_ms, buffered_ms, per_segment);
    assert(cut_samples(step.cut) + held(step.next) =~= held(m) + samples);
}

/// Going on after a segment was written neither loses nor repeats a sample.
pub proof fn written_keeps_every_sample<T>(m: Model<T>, per_segment: nat, segment_ms: int)
    ensures
        ({
            let step = written(m, per_segment, segment_ms);
            cut_samples(step.cut) + held(step.next) == held(m)
        }),
{
    let step = written(m, per_segment, segment_ms);
    assert(cut_samples(step.cut) + held(step.next) =~= held(m));
}

/// A flush hands out every sample that is held.
pub proof fn flush_hands_out_every_sample<T>(m: Model<T>)
    requires
        m.waiting is Nothing,
    ensures
        cut_samples(flushed(m).cut) == held(m),
        held(flushed(m).next) == Seq::<T>::empty(),
{
    assert(cut_samples(flushed(m).cut) =~= held(m));
    assert(held(flushed(m).next) =~= Seq::<T>::empty());
}

/// A segment that is handed out while none was before a gap or last has exactly the full
/// length, and one that follows it starts where it ends.
pub proof fn full_segments_are_full_and_adjoin<T>(m: Model<T>, per_segment: nat, segment_ms: int)
    requires
        m.waiting is FullSegment,
        m.start is Some,
        i64::MIN <= m.start->0 + segment_ms <= i64::MAX,
    ensures
        ({
            let step = written(m, per_segment, segment_ms);
            step.cut is Some ==> step.cut->0.samples.len() == per_segment
                && step.cut->0.start_ms == m.start->0 + segment_ms
        }),
{
}

/// A push after which no segment waits to be written leaves less than a full one buffered.
pub proof fn a_push_leaves_less_than_a_segment<T>(
    m: Model<T>,
    samples: Seq<T>,
    timestamp_ms: i64,
    buffered_ms: i64,
    per_segment: nat,
)
    ensures
        ({
            let step = pushed(m, samples, timestamp_ms, buffered_ms, per_segment);
            step.next.waiting is Nothing ==> step.next.buffer.len() < per_segment
        }),
{
}

/// Once a full segment or one before a gap has been written and no other waits, less than a
/// full one is buffered.
pub proof fn writing_leaves_less_than_a_segment<T>(m: Model<T>, per_segment: nat, segment_ms: int)
    requires
        m.waiting is FullSegment || m.waiting is GapSegment,
    ensures
        ({
            let step = written(m, per_segment, segment_ms);
            step.next.waiting is Nothing ==> step.next.buffer.len() < per_segment
        }),
{
}

/// No segment spans a gap: what was buffered before it leaves alone, and what came after it
/// starts a segment at its own time.
pub proof fn no_segment_spans_a_gap<T>(
    m: Model<T>,
    samples: Seq<T>,
    timestamp_ms: i64,
    buffered_ms: i64,
    per_segment: nat,
    segment_ms: int,
)
    requires
        m.waiting is Nothing,
        after_gap(m, timestamp_ms, buffered_ms),
        m.buffer.len() > 0,
    ensures
        ({
            let step = pushed(m, samples, timestamp_ms, buffered_ms, per_segment);
            let after = written(step.next, per_segment, segment_ms);
            &&& step.cut is Some && step.cut->0.samples == m.buffer
            &&& step.cut->0.start_ms == m.start->0
            &&& after.next.start == Some(timestamp_ms)
            &&& after.cut is Some ==> after.cut->0.start_ms == timestamp_ms
                && after.cut->0.samples == samples.take(per_segment as int)
        }),
{
    let step = pushed(m, samples, timestamp_ms, buffered_ms, per_segment);
    assert(Seq::<T>::empty() + samples =~= samples);
}

/// A push: its samples, when the first of them was captured, and how long those in the buffer
/// lasted then.
pub struct Push<T> {
    pub samples: Seq<T>,
    pub timestamp_ms: i64,
    pub buffered_ms: i64,
}

/// What comes of some steps: what the accumulator is afterwards, and the segments handed out.
pub struct Run<T> {
    pub next: Model<T>,
    pub cuts: Seq<Cut<T>>,
}

/// An accumulator as it is created.
pub open spec fn fresh<T>() -> Model<T> {
    Model { buffer: Seq::empty(), start: None, waiting: WaitingModel::Nothing }
}

/// What comes of a step once every segment that it hands out, and that follows, has been
/// written.
pub open spec fn settled<T>(step: Step<T>, per_segment: nat, segment_ms: int) -> Run<T>
    decreases
        held(step.next).len(),
        (if step.cut is Some {
            1int
        } else {
            0
        }),
    when per_segment > 0
    via settling_ends::<T>
{
    match step.cut {
        None => Run { next: step.next, cuts: Seq::empty() },
        Some(cut) => {
            let rest = settled(
                written(step.next, per_segment, segment_ms),
                per_segment,
                segment_ms,
            );
            Run { next: rest.next, cuts: seq![cut] + rest.cuts }
        },
    }
}

#[via_fn]
proof fn settling_ends<T>(step: Step<T>, per_segment: nat, segment_ms: int) {
    written_keeps_every_sample(step.next, per_segment, segment_ms);
}

/// What comes of these pushes, one after the other, when every segment is written.
pub open spec fn after_pushes<T>(pushes: Seq<Push<T>>, per_segment: nat, segment_ms: int) -> Run<T>
    decreases pushes.len(),
{
    if pushes.len() == 0 {
        Run { next: fresh(), cuts: Seq::empty() }
    } else {
        let before = after_pushes(pushes.drop_last(), per_segment, segment_ms);
        let push = pushes.last();
        let now = settled(
            pushed(before.next, push.samples, push.timestamp_ms, push.buffered_ms, per_segment),
            per_segment,
            segment_ms,
        );
        Run { next: now.next, cuts: before.cuts + now.cuts }
    }
}

/// All samples of these pushes, in order.
pub open spec fn all_samples<T>(pushes: Seq<Push<T>>) -> Seq<T>
    decreases pushes.len(),
{
    if pushes.len() == 0 {
        Seq::empty()
    } else {
        all_samples(pushes.drop_last()) + pushes.last().samples
    }
}

/// How long so many samples last, in whole milliseconds.
pub open spec fn lasting_ms(samples: nat, rate: nat) -> int {
    1000 * (samples as int) / (rate as int)
}

/// Whether a push comes in time, after these: less than the gap threshold after the end of the
/// samples before it, of which those in the buffer were measured to the millisecond.
pub open spec fn in_time<T>(before: Seq<Push<T>>, push: Push<T>, rate: nat, duration_secs: nat) -> bool {
    before.len() > 0 ==> {
        let run = after_pushes(before, rate * duration_secs, 1000 * (duration_secs as int));
        &&& push.timestamp_ms < before[0].timestamp_ms + lasting_ms(
            all_samples(before).len(),
            rate,
        ) + GAP_THRESHOLD_MS
        &&& push.buffered_ms + 1 >= lasting_ms(run.next.buffer.len(), rate)
    }
}

/// Whether every push comes in time after those before it.
pub open spec fn without_gap<T>(pushes: Seq<Push<T>>, rate: nat, duration_secs: nat) -> bool {
    forall|i: int|
        0 <= i < pushes.len() ==> in_time(
            pushes.take(i),
            #[trigger] pushes[i],
            rate,
            duration_secs,
        )
}

/// Whether a run that began at `first_ms` has cut all of these samples as it should: into full
/// segments that follow each other, with what is left over kept.
pub open spec fn cut_evenly<T>(
    run: Run<T>,
    all: Seq<T>,
    first_ms: int,
    per_segment: nat,
    segment_ms: int,
) -> bool {
    let count = (all.len() / per_segment) as int;
    &&& run.cuts.len() == count
    &&& forall|k: int|
        0 <= k < count ==> {
            &&& (#[trigger] run.cuts[k]).samples == all.subrange(
                k * per_segment,
                (k + 1) * per_segment,
            )
            &&& run.cuts[k].start_ms == first_ms + segment_ms * k
            &&& run.cuts[k].full
        }
    &&& run.next.buffer == all.skip(count * per_segment)
    &&& run.next.start == Some((first_ms + segment_ms * count) as i64)
    &&& run.next.waiting is Nothing
}

/// The full segments of a buffer, one written after the other.
proof fn lemma_cutting_a_buffer<T>(m: Model<T>, per_segment: nat, segment_ms: int)
    requires
        per_segment > 0,
        segment_ms >= 0,
        m.start is Some,
        m.start->0 + segment_ms * (m.buffer.len() as int / per_segment as int) <= i64::MAX,
    ensures
        cut_evenly(
            settled(cut_full(m, per_segment), per_segment, segment_ms),
            m.buffer,
            m.start->0 as int,
            per_segment,
            segment_ms,
        ),
    decreases m.buffer.len(),
{
    let n = per_segment as int;
    let b = m.buffer;
    let first = m.start->0 as int;
    let step = cut_full(m, per_segment);
    let run = settled(step, per_segment, segment_ms);
    let count = b.len() as int / n;
    if b.len() < n {
        assert(count == 0) by (nonlinear_arith)
            requires
                0 <= b.len() < n,
                count == b.len() as int / n,
        ;
        assert(b.skip(0) =~= b);
        assert(count * n == 0);
        assert(segment_ms * count == 0);
    } else {
        let rest_model = Model {
            buffer: b.skip(n),
            start: Some((first + segment_ms) as i64),
            waiting: WaitingModel::<T>::FullSegment,
        };
        let rest_count = (b.len() - n) / n;
        assert(rest_count == count - 1 && rest_count >= 0) by (nonlinear_arith)
            requires
                n > 0,
                b.len() >= n,
                rest_count == (b.len() - n) / n,
                count == b.len() as int / n,
        ;
        assert(segment_ms * count == segment_ms * rest_count + segment_ms) by (nonlinear_arith)
            requires
                rest_count == count - 1,
        ;
        assert(segment_ms * rest_count >= 0) by (nonlinear_arith)
            requires
                segment_ms >= 0,
                rest_count >= 0,
        ;
        assert(first + segment_ms <= i64::MAX);
        assert(written(step.next, per_segment, segment_ms) == cut_full(rest_model, per_segment));
        lemma_cutting_a_buffer(rest_model, per_segment, segment_ms);
        let rest = settled(cut_full(rest_model, per_segment), per_segment, segment_ms);
        assert(run.cuts == seq![step.cut->0] + rest.cuts);
        assert forall|k: int| 0 <= k < count implies {
            &&& (#[trigger] run.cuts[k]).samples == b.subrange(k * n, (k + 1) * n)
            &&& run.cuts[k].start_ms == first + segment_ms * k
            &&& run.cuts[k].full
        } by {
            if k == 0 {
                assert(0 * n == 0 && (0 + 1) * n == n && segment_ms * 0 == 0);
                assert(b.take(n) =~= b.subrange(0, n));
            } else {
                assert(run.cuts[k] == rest.cuts[k - 1]);
                assert((k - 1 + 1) * n <= b.len() - n) by (nonlinear_arith)
                    requires
                        n > 0,
                        k < count,
                        count == b.len() as int / n,
                ;
                lemma_part_of_a_part(b, n, k - 1, n);
                assert((k - 1) * n + n == k * n && (k - 1 + 1) * n + n == (k + 1) * n)
                    by (nonlinear_arith);
                assert(segment_ms * (k - 1) + segment_ms == segment_ms * k) by (nonlinear_arith);
            }
        }
        assert(rest_count * n + n == count * n) by (nonlinear_arith)
            requires
                rest_count == count - 1,
        ;
        assert(count * n <= b.len()) by (nonlinear_arith)
            requires
                n > 0,
                count == b.len() as int / n,
        ;
        assert(rest_count * n >= 0) by (nonlinear_arith)
            requires
                n > 0,
                rest_count >= 0,
        ;
        assert(b.skip(n).skip(rest_count * n) =~= b.skip(count * n));
    }
}

/// A part of what follows the first `at` items is the same part of all, so much later.
proof fn lemma_part_of_a_part<T>(s: Seq<T>, at: int, k: int, n: int)
    requires
        0 <= at <= s.len(),
        0 <= k,
        0 < n,
        (k + 1) * n <= s.len() - at,
    ensures
        s.skip(at).subrange(k * n, (k + 1) * n) == s.subrange(k * n + at, (k + 1) * n + at),
{
    assert(0 <= k * n <= (k + 1) * n) by (nonlinear_arith)
        requires
            0 <= k,
            0 < n,
    ;
    assert(s.skip(at).subrange(k * n, (k + 1) * n) =~= s.subrange(k * n + at, (k + 1) * n + at));
}

/// Two runs that cut evenly, the second of what the first has left over and what has come,
/// cut all of it evenly.
proof fn lemma_runs_join<T>(
    first: Run<T>,
    second: Run<T>,
    all: Seq<T>,
    samples: Seq<T>,
    first_ms: int,
    per_segment: nat,
    segment_ms: int,
)
    requires
        per_segment > 0,
        segment_ms >= 0,
        i64::MIN <= first_ms,
        first_ms + segment_ms * ((all + samples).len() as int / per_segment as int) <= i64::MAX,
        cut_evenly(first, all, first_ms, per_segment, segment_ms),
        cut_evenly(
            second,
            first.next.buffer + samples,
            first.next.start->0 as int,
            per_segment,
            segment_ms,
        ),
    ensures
        cut_evenly(
            Run { next: second.next, cuts: first.cuts + second.cuts },
            all + samples,
            first_ms,
            per_segment,
            segment_ms,
        ),
{
    let n = per_segment as int;
    let whole = all + samples;
    let left = first.next.buffer + samples;
    let a = all.len() as int / n;
    let b = left.len() as int / n;
    let count = whole.len() as int / n;
    lemma_counts(all.len() as int, samples.len() as int, n);
    assert(all.skip(a * n).len() == all.len() - a * n);
    assert(left =~= whole.skip(a * n));
    assert(count == a + b);
    let start = first_ms + segment_ms * a;
    assert(segment_ms * a <= segment_ms * count) by (nonlinear_arith)
        requires
            segment_ms >= 0,
            a <= count,
    ;
    assert(segment_ms * a >= 0) by (nonlinear_arith)
        requires
            segment_ms >= 0,
            a >= 0,
    ;
    assert(first.next.start->0 == start);
    let cuts = first.cuts + second.cuts;
    assert forall|k: int| 0 <= k < count implies {
        &&& (#[trigger] cuts[k]).samples == whole.subrange(k * n, (k + 1) * n)
        &&& cuts[k].start_ms == first_ms + segment_ms * k
        &&& cuts[k].full
    } by {
        if k < a {
            assert(cuts[k] == first.cuts[k]);
            assert((k + 1) * n <= all.len() && 0 <= k * n <= (k + 1) * n) by (nonlinear_arith)
                requires
                    n > 0,
                    0 <= k < a,
                    a == all.len() as int / n,
            ;
            assert(all.subrange(k * n, (k + 1) * n) =~= whole.subrange(k * n, (k + 1) * n));
        } else {
            let j = k - a;
            assert(cuts[k] == second.cuts[j]);
            assert((j + 1) * n <= whole.len() - a * n) by (nonlinear_arith)
                requires
                    n > 0,
                    j < b,
                    b == (whole.len() - a * n) / n,
            ;
            lemma_part_of_a_part(whole, a * n, j, n);
            assert(j * n + a * n == k * n && (j + 1) * n + a * n == (k + 1) * n)
                by (nonlinear_arith)
                requires
                    j == k - a,
            ;
            assert(segment_ms * a + segment_ms * j == segment_ms * k) by (nonlinear_arith)
                requires
                    j == k - a,
            ;
        }
    }
    assert(segment_ms * a + segment_ms * b == segment_ms * count) by (nonlinear_arith)
        requires
            count == a + b,
    ;
    assert(a * n + b * n == count * n) by (nonlinear_arith)
        requires
            count == a + b,
    ;
    assert(left.skip(b * n) =~= whole.skip(count * n));
}

/// What is left over of `x` items and `y` more hold as many whole parts of `n` as all of them
/// have more than the first.
proof fn lemma_counts(x: int, y: int, n: int)
    requires
        x >= 0,
        y >= 0,
        n > 0,
    ensures
        0 <= x / n,
        0 <= (x / n) * n <= x,
        (x + y) / n == x / n + (x - (x / n) * n + y) / n,
        0 <= (x - (x / n) * n + y) / n,
        ((x - (x / n) * n + y) / n) * n <= x - (x / n) * n + y,
{
    let q = x / n;
    let r = x - q * n + y;
    assert(0 <= q && 0 <= q * n <= x) by (nonlinear_arith)
        requires
            q == x / n,
            x >= 0,
            n > 0,
    ;
    vstd::arithmetic::div_mod::lemma_hoist_over_denominator(r, q, n as nat);
    assert(r + q * n == x + y);
    assert(0 <= r / n && (r / n) * n <= r) by (nonlinear_arith)
        requires
            r >= 0,
            n > 0,
    ;
}

/// A push that comes in time after others, whose samples were cut evenly, comes after no gap.
proof fn lemma_in_time_is_no_gap<T>(
    before: Seq<Push<T>>,
    push: Push<T>,
    rate: nat,
    duration_secs: nat,
)
    requires
        before.len() > 0,
        rate > 0,
        duration_secs > 0,
        in_time(before, push, rate, duration_secs),
        before[0].timestamp_ms + 1000 * duration_secs * (all_samples(before).len() as int / (rate
            * duration_secs) as int) <= i64::MAX,
        cut_evenly(
            after_pushes(before, rate * duration_secs, 1000 * (duration_secs as int)),
            all_samples(before),
            before[0].timestamp_ms as int,
            rate * duration_secs,
            1000 * (duration_secs as int),
        ),
    ensures
        !after_gap(
            after_pushes(before, rate * duration_secs, 1000 * (duration_secs as int)).next,
            push.timestamp_ms,
            push.buffered_ms,
        ),
{
    let n = (rate * duration_secs) as int;
    let total = all_samples(before).len() as int;
    let count = total / n;
    let m = after_pushes(before, rate * duration_secs, 1000 * (duration_secs as int)).next;
    let first = before[0].timestamp_ms as int;
    assert(n > 0) by (nonlinear_arith)
        requires
            n == rate * duration_secs,
            rate > 0,
            duration_secs > 0,
    ;
    lemma_counts(total, 0, n);
    assert(m.buffer.len() == total - count * n);
    let d = 1000 * (duration_secs as int);
    assert(d * count >= 0) by (nonlinear_arith)
        requires
            d >= 0,
            count >= 0,
    ;
    assert(m.start->0 == first + d * count);
    let r = rate as int;
    assert(1000 * total == 1000 * (total - count * n) + (d * count) * r) by (nonlinear_arith)
        requires
            n == r * (duration_secs as int),
            d == 1000 * (duration_secs as int),
    ;
    vstd::arithmetic::div_mod::lemma_hoist_over_denominator(
        1000 * (total - count * n),
        d * count,
        rate,
    );
    assert(lasting_ms(total as nat, rate) == lasting_ms(m.buffer.len(), rate) + d * count);
}

/// A run of pushes without a gap cuts its samples evenly, however they were split into pushes:
/// of `N` samples in all it hands out `N / n` full segments, segment `k` holds the samples from
/// `k * n` up to `(k + 1) * n`, starts `k` segment lengths after the first sample and lasts one,
/// and what is left over stays for the next push or flush.
pub proof fn a_run_of_pushes_is_cut_evenly<T>(
    pushes: Seq<Push<T>>,
    rate: nat,
    duration_secs: nat,
)
    requires
        pushes.len() > 0,
        rate > 0,
        duration_secs > 0,
        without_gap(pushes, rate, duration_secs),
        pushes[0].timestamp_ms + 1000 * duration_secs * (all_samples(pushes).len() as int / (rate
            * duration_secs) as int) <= i64::MAX,
    ensures
        cut_evenly(
            after_pushes(pushes, rate * duration_secs, 1000 * (duration_secs as int)),
            all_samples(pushes),
            pushes[0].timestamp_ms as int,
            rate * duration_secs,
            1000 * (duration_secs as int),
        ),
        forall|k: int, measured_ms: i64|
            0 <= k < all_samples(pushes).len() as int / (rate * duration_secs) as int ==> (
            #[trigger] after_pushes(
                pushes,
                rate * duration_secs,
                1000 * (duration_secs as int),
            ).cuts[k].lasts(1000 * (duration_secs as int), measured_ms)) == 1000 * duration_secs,
    decreases pushes.len(),
{
    let per_segment = rate * duration_secs;
    let n = per_segment as int;
    let segment_ms = 1000 * (duration_secs as int);
    assert(n > 0) by (nonlinear_arith)
        requires
            n == rate * duration_secs,
            rate > 0,
            duration_secs > 0,
    ;
    let before = pushes.drop_last();
    let push = pushes.last();
    let first_ms = pushes[0].timestamp_ms as int;
    let earlier = after_pushes(before, per_segment, segment_ms);
    let all = all_samples(before);
    let whole = all_samples(pushes);
    assert(before =~= pushes.take(pushes.len() - 1));
    assert(in_time(before, push, rate, duration_secs)) by {
        assert(in_time(
            pushes.take(pushes.len() - 1),
            pushes[pushes.len() - 1],
            rate,
            duration_secs,
        ));
    }
    if before.len() == 0 {
        assert(all =~= Seq::<T>::empty());
        assert(whole =~= push.samples);
        assert(Seq::<T>::empty() + push.samples =~= push.samples);
        let m = Model {
            buffer: push.samples,
            start: Some(push.timestamp_ms),
            waiting: WaitingModel::<T>::Nothing,
        };
        assert(pushed(
            earlier.next,
            push.samples,
            push.timestamp_ms,
            push.buffered_ms,
            per_segment,
        ) == cut_full(m, per_segment));
        lemma_cutting_a_buffer(m, per_segment, segment_ms);
        let now = settled(cut_full(m, per_segment), per_segment, segment_ms);
        assert(earlier.cuts + now.cuts =~= now.cuts);
    } else {
        assert forall|i: int| 0 <= i < before.len() implies in_time(
            before.take(i),
            #[trigger] before[i],
            rate,
            duration_secs,
        ) by {
            assert(before.take(i) =~= pushes.take(i));
            assert(before[i] == pushes[i]);
        }
        let a = all.len() as int / n;
        let count = whole.len() as int / n;
        lemma_counts(all.len() as int, push.samples.len() as int, n);
        assert(segment_ms * a <= segment_ms * count) by (nonlinear_arith)
            requires
                segment_ms >= 0,
                a <= count,
        ;
        assert(segment_ms * a >= 0) by (nonlinear_arith)
            requires
                segment_ms >= 0,
                a >= 0,
        ;
        a_run_of_pushes_is_cut_evenly(before, rate, duration_secs);
        lemma_in_time_is_no_gap(before, push, rate, duration_secs);
        let m = Model {
            buffer: earlier.next.buffer + push.samples,
            start: earlier.next.start,
            waiting: WaitingModel::<T>::Nothing,
        };
        assert(pushed(
            earlier.next,
            push.samples,
            push.timestamp_ms,
            push.buffered_ms,
            per_segment,
        ) == cut_full(m, per_segment));
        assert(earlier.next.start->0 == first_ms + segment_ms * a);
        let b = m.buffer.len() as int / n;
        assert(m.buffer.len() == all.len() - a * n + push.samples.len());
        assert(segment_ms * a + segment_ms * b == segment_ms * count) by (nonlinear_arith)
            requires
                count == a + b,
        ;
        lemma_cutting_a_buffer(m, per_segment, segment_ms);
        let now = settled(cut_full(m, per_segment), per_segment, segment_ms);
        lemma_runs_join(earlier, now, all, push.samples, first_ms, per_segment, segment_ms);
    }
}

/// The record of a segment that was handed out ends as long after its start as the segment
/// lasts.
pub proof fn a_record_lasts_as_its_segment<T>(
    acc: SegmentAccumulator<T>,
    job: SegmentJob<T>,
    cut: Cut<T>,
    measured_ms: i64,
)
    requires
        acc.hands_out(Some(job), Some(cut)),
    ensures
        job.lasts(measured_ms) == cut.lasts(acc.segment_ms(), measured_ms),
{
}

/// How samples are split into pushes makes no difference: the same samples from the same time
/// on, without a gap, give the same segments.
pub proof fn the_split_into_pushes_does_not_matter<T>(
    a: Seq<Push<T>>,
    b: Seq<Push<T>>,
    rate: nat,
    duration_secs: nat,
)
    requires
        a.len() > 0,
        b.len() > 0,
        rate > 0,
        duration_secs > 0,
        without_gap(a, rate, duration_secs),
        without_gap(b, rate, duration_secs),
        all_samples(a) == all_samples(b),
        a[0].timestamp_ms == b[0].timestamp_ms,
        a[0].timestamp_ms + 1000 * duration_secs * (all_samples(a).len() as int / (rate
            * duration_secs) as int) <= i64::MAX,
    ensures
        after_pushes(a, rate * duration_secs, 1000 * (duration_secs as int)) == after_pushes(
            b,
            rate * duration_secs,
            1000 * (duration_secs as int),
        ),
{
    a_run_of_pushes_is_cut_evenly(a, rate, duration_secs);
    a_run_of_pushes_is_cut_evenly(b, rate, duration_secs);
    let x = after_pushes(a, rate * duration_secs, 1000 * (duration_secs as int));
    let y = after_pushes(b, rate * duration_secs, 1000 * (duration_secs as int));
    assert forall|k: int| 0 <= k < x.cuts.len() implies x.cuts[k] == y.cuts[k] by {
        assert(x.cuts[k].samples == y.cuts[k].samples);
    }
    assert(x.cuts =~= y.cuts);
}

/// A push that comes more than two seconds after the end of what is buffered closes the segment
/// at once: all that is buffered leaves as a segment of its own, and once that is written the
/// new samples stand alone, from their own time on.
pub proof fn a_late_push_closes_the_segment<T>(
    m: Model<T>,
    samples: Seq<T>,
    timestamp_ms: i64,
    buffered_ms: i64,
    per_segment: nat,
    segment_ms: int,
)
    requires
        m.waiting is Nothing,
        m.start is Some,
        m.buffer.len() > 0,
        per_segment > 0,
        timestamp_ms > m.start->0 + buffered_ms + 2000,
    ensures
        ({
            let step = pushed(m, samples, timestamp_ms, buffered_ms, per_segment);
            let after = written(step.next, per_segment, segment_ms);
            &&& step.cut is Some
            &&& step.cut->0.samples == m.buffer
            &&& step.cut->0.start_ms == m.start->0
            &&& !step.cut->0.full
            &&& step.next.waiting is GapSegment
            &&& after.next.start == Some(timestamp_ms)
            &&& samples.len() < per_segment ==> after.cut is None && after.next.buffer == samples
                && after.next.waiting is Nothing
            &&& samples.len() >= per_segment ==> after.cut is Some && after.cut->0.samples
                == samples.subrange(0, per_segment as int) && after.cut->0.start_ms == timestamp_ms
                && after.cut->0.full && after.next.buffer == samples.subrange(
                per_segment as int,
                samples.len() as int,
            ) && after.next.waiting is FullSegment
        }),
{
    assert(Seq::<T>::empty() + samples =~= samples);
    assert(samples.len() >= per_segment ==> samples.take(per_segment as int) =~= samples.subrange(
        0,
        per_segment as int,
    ));
    assert(samples.len() >= per_segment ==> samples.skip(per_segment as int) =~= samples.subrange(
        per_segment as int,
        samples.len() as int,
    ));
}

/// A push that comes up to two seconds after the end of what is buffered goes on with the
/// segment, which keeps its start. As soon as a full segment is there, its first samples leave.
pub proof fn a_timely_push_goes_on_with_the_segment<T>(
    m: Model<T>,
    samples: Seq<T>,
    timestamp_ms: i64,
    buffered_ms: i64,
    per_segment: nat,
)
    requires
        m.waiting is Nothing,
        m.start is Some,
        per_segment > 0,
        timestamp_ms <= m.start->0 + buffered_ms + 2000,
    ensures
        ({
            let step = pushed(m, samples, timestamp_ms, buffered_ms, per_segment);
            let all = m.buffer + samples;
            &&& step.next.start == m.start
            &&& all.len() < per_segment ==> step.cut is None && step.next.buffer == all
                && step.next.waiting is Nothing
            &&& all.len() >= per_segment ==> step.cut is Some && step.cut->0.samples
                == all.subrange(0, per_segment as int) && step.cut->0.start_ms == m.start->0
                && step.cut->0.full && step.next.buffer == all.subrange(
                per_segment as int,
                all.len() as int,
            ) && step.next.waiting is FullSegment
        }),
{
    let all = m.buffer + samples;
    assert(all.len() >= per_segment ==> all.take(per_segment as int) =~= all.subrange(
        0,
        per_segment as int,
    ));
    assert(all.len() >= per_segment ==> all.skip(per_segment as int) =~= all.subrange(
        per_segment as int,
        all.len() as int,
    ));
}

/// A segment starts with its first push: at the time of that push where none has begun, and
/// where the one that began holds nothing and the push comes late.
pub proof fn a_first_push_starts_the_segment<T>(
    m: Model<T>,
    samples: Seq<T>,
    timestamp_ms: i64,
    buffered_ms: i64,
    per_segment: nat,
)
    requires
        m.waiting is Nothing,
        m.start is None || (m.buffer.len() == 0 && timestamp_ms > m.start->0 + buffered_ms + 2000),
        per_segment > 0,
    ensures
        ({
            let step = pushed(m, samples, timestamp_ms, buffered_ms, per_segment);
            let all = m.buffer + samples;
            &&& step.next.start == Some(timestamp_ms)
            &&& all.len() < per_segment ==> step.cut is None && step.next.buffer == all
                && step.next.waiting is Nothing
            &&& all.len() >= per_segment ==> step.cut is Some && step.cut->0.samples
                == all.subrange(0, per_segment as int) && step.cut->0.start_ms == timestamp_ms
                && step.cut->0.full && step.next.waiting is FullSegment && step.next.buffer
                == all.subrange(per_segment as int, all.len() as int)
        }),
{
    let all = m.buffer + samples;
    assert(all.len() >= per_segment ==> all.take(per_segment as int) =~= all.subrange(
        0,
        per_segment as int,
    ));
    assert(all.len() >= per_segment ==> all.skip(per_segment as int) =~= all.subrange(
        per_segment as int,
        all.len() as int,
    ));
}

/// Once a full segment has been written, the next one starts where it ended, and leaves too if
/// it is full.
pub proof fn the_next_segment_adjoins<T>(m: Model<T>, per_segment: nat, segment_ms: int)
    requires
        m.waiting is FullSegment,
        m.start is Some,
        per_segment > 0,
        i64::MIN <= m.start->0 + segment_ms <= i64::MAX,
    ensures
        ({
            let step = written(m, per_segment, segment_ms);
            &&& step.next.start is Some
            &&& step.next.start->0 == m.start->0 + segment_ms
            &&& m.buffer.len() < per_segment ==> step.cut is None && step.next.buffer == m.buffer
                && step.next.waiting is Nothing
            &&& m.buffer.len() >= per_segment ==> step.cut is Some && step.cut->0.samples
                == m.buffer.subrange(0, per_segment as int) && step.cut->0.start_ms
                == m.start->0 + segment_ms && step.cut->0.full && step.next.buffer
                == m.buffer.subrange(per_segment as int, m.buffer.len() as int)
                && step.next.waiting is FullSegment
        }),
{
    let b = m.buffer;
    assert(b.len() >= per_segment ==> b.take(per_segment as int) =~= b.subrange(
        0,
        per_segment as int,
    ));
    assert(b.len() >= per_segment ==> b.skip(per_segment as int) =~= b.subrange(
        per_segment as int,
        b.len() as int,
    ));
}

/// A flush hands out what is buffered, from the segment's start on, and once that is written no
/// segment has begun. Without anything buffered it does nothing.
pub proof fn a_flush_ends_the_segment<T>(m: Model<T>, per_segment: nat, segment_ms: int)
    requires
        m.waiting is Nothing,
    ensures
        m.buffer.len() == 0 ==> flushed(m).cut is None && flushed(m).next == m,
        m.buffer.len() > 0 ==> {
            let step = flushed(m);
            let after = written(step.next, per_segment, segment_ms);
            &&& step.cut is Some
            &&& step.cut->0.samples == m.buffer
            &&& m.start is Some ==> step.cut->0.start_ms == m.start->0
            &&& m.start is None ==> step.cut->0.start_ms == 0
            &&& !step.cut->0.full
            &&& step.next.waiting is LastSegment
            &&& after.cut is None
            &&& after.next.start is None
            &&& after.next.buffer.len() == 0
            &&& after.next.waiting is Nothing
        },
{
}

/// A segment that could not be written is lost, and with it the samples that waited for it. What
/// is buffered stays, and so does the start.
pub proof fn a_failed_segment_is_lost_alone<T>(m: Model<T>)
    ensures
        abandoned(m).buffer == m.buffer,
        abandoned(m).start == m.start,
        abandoned(m).waiting is Nothing,
{
}

/// A segment that is handed out has the source of its accumulator, the samples and the start of
/// the cut, and a file that its start and its source name; one is handed out exactly if there is
/// a cut.
pub proof fn a_segment_goes_out_as_it_was_cut<T>(
    acc: SegmentAccumulator<T>,
    job: Option<SegmentJob<T>>,
    cut: Option<Cut<T>>,
)
    requires
        acc.hands_out(job, cut),
    ensures
        job is Some <==> cut is Some,
        job is Some ==> {
            &&& job->0.source == acc.source
            &&& job->0.samples@ == cut->0.samples
            &&& job->0.start_ms == cut->0.start_ms
            &&& job->0.path@ == joined(
                acc.output_dir@,
                decimal(cut->0.start_ms) + "_"@ + acc.source.name() + ".opus"@,
            )
            &&& cut->0.full ==> job->0.full_ms == Some((acc.segment_duration_secs * 1000) as i64)
            &&& !cut->0.full ==> job->0.full_ms is None
        },
{
}

/// What an accumulator holds, and how long its segments are, is what its fields say.
pub proof fn a_model_shows_the_fields<T>(acc: SegmentAccumulator<T>)
    ensures
        acc.model().buffer == acc.buffer@,
        acc.model().start == acc.segment_start_ms,
        acc.model().waiting is Nothing <==> acc.waiting is Nothing,
        acc.model().waiting is FullSegment <==> acc.waiting is FullSegment,
        acc.model().waiting is LastSegment <==> acc.waiting is LastSegment,
        acc.model().waiting is GapSegment <==> acc.waiting is GapSegment,
        acc.waiting matches Waiting::GapSegment { samples, timestamp_ms } ==> acc.model().waiting
            == (WaitingModel::GapSegment { samples: samples@, timestamp_ms }),
        acc.segment_ms() == 1000 * acc.segment_duration_secs,
        acc.well_formed() ==> acc.samples_per_segment == acc.sample_rate
            * acc.segment_duration_secs,
{
}

/// A new accumulator holds nothing, and no segment has begun.
pub proof fn a_new_accumulator_is_empty<T>()
    ensures
        fresh::<T>().buffer.len() == 0,
        fresh::<T>().start is None,
        fresh::<T>().waiting is Nothing,
{
}

/// What is held is what is buffered and, before a gap's segment is written, what came after it.
pub proof fn what_is_held_is_every_sample<T>(m: Model<T>, samples: Seq<T>, timestamp_ms: i64)
    ensures
        m.waiting == (WaitingModel::GapSegment { samples, timestamp_ms }) ==> held(m) == m.buffer
            + samples,
        !(m.waiting is GapSegment) ==> held(m) == m.buffer,
{
}

/// A segment that is not full lasts as long as its samples were measured to last.
pub proof fn a_partial_segment_lasts_as_measured<T>(
    cut: Cut<T>,
    job: SegmentJob<T>,
    segment_ms: int,
    measured_ms: i64,
)
    ensures
        !cut.full ==> cut.lasts(segment_ms, measured_ms) == measured_ms,
        cut.full ==> cut.lasts(segment_ms, measured_ms) == segment_ms,
        job.full_ms is None ==> job.lasts(measured_ms) == measured_ms,
        job.full_ms is Some ==> job.lasts(measured_ms) == job.full_ms->0,
{
}

/// A push that comes more than two seconds late hands out what is buffered, at once and alone; one
/// in time, or the first, is taken in, and hands out the first full segment if there is one.
pub proof fn a_push_cuts_at_gaps_and_full_segments<T: Copy>(
    samples: &[T],
    timestamp_ms: i64,
    buffered_ms: i64,
    r: Option<SegmentJob<T>>,
)
    ensures
        forall|acc: &mut SegmentAccumulator<T>|
            #[trigger] call_ensures(
                SegmentAccumulator::<T>::push,
                (acc, samples, timestamp_ms, buffered_ms),
                r,
            ) && (*acc).waiting is Nothing && (*acc).samples_per_segment > 0 ==> {
                let all = (*acc).buffer@ + samples@;
                let n = (*acc).samples_per_segment as int;
                let start = (*acc).segment_start_ms;
                let late = start is Some && timestamp_ms > start->0 + buffered_ms + 2000;
                let first = if start is Some && !late {
                    start->0
                } else {
                    timestamp_ms
                };
                &&& late && (*acc).buffer@.len() > 0 ==> r is Some && r->0.samples@
                    == (*acc).buffer@ && r->0.start_ms == start->0 && r->0.source == (*acc).source
                    && (*final(acc)).buffer@.len() == 0 && (*final(acc)).waiting is GapSegment
                    && (*final(acc)).waiting->samples@ == samples@ && (*final(
                    acc
                )).waiting->timestamp_ms == timestamp_ms
                &&& !(late && (*acc).buffer@.len() > 0) && all.len() < n ==> r is None && (*final(
                    acc
                )).buffer@ == all && (*final(acc)).segment_start_ms == Some(first) && (*final(
                    acc
                )).waiting is Nothing
                &&& !(late && (*acc).buffer@.len() > 0) && all.len() >= n ==> r is Some
                    && r->0.samples@ == all.subrange(0, n) && r->0.start_ms == first
                    && r->0.source == (*acc).source && (*final(acc)).buffer@ == all.subrange(
                    n,
                    all.len() as int,
                ) && (*final(acc)).segment_start_ms == Some(first) && (*final(
                    acc
                )).waiting is FullSegment
                &&& (*final(acc)).samples_per_segment == (*acc).samples_per_segment
                &&& (*final(acc)).segment_duration_secs == (*acc).segment_duration_secs
                &&& (*final(acc)).source == (*acc).source
                &&& (*final(acc)).output_dir@ == (*acc).output_dir@
            },
{
    assert forall|acc: &mut SegmentAccumulator<T>|
        #[trigger] call_ensures(
            SegmentAccumulator::<T>::push,
            (acc, samples, timestamp_ms, buffered_ms),
            r,
        ) && (*acc).waiting is Nothing && (*acc).samples_per_segment > 0 implies {
        let all = (*acc).buffer@ + samples@;
        let n = (*acc).samples_per_segment as int;
        let start = (*acc).segment_start_ms;
        let late = start is Some && timestamp_ms > start->0 + buffered_ms + 2000;
        let first = if start is Some && !late {
            start->0
        } else {
            timestamp_ms
        };
        &&& late && (*acc).buffer@.len() > 0 ==> r is Some && r->0.samples@ == (*acc).buffer@
            && r->0.start_ms == start->0 && r->0.source == (*acc).source && (*final(
            acc
        )).buffer@.len() == 0 && (*final(acc)).waiting is GapSegment && (*final(
            acc
        )).waiting->samples@ == samples@ && (*final(acc)).waiting->timestamp_ms == timestamp_ms
        &&& !(late && (*acc).buffer@.len() > 0) && all.len() < n ==> r is None && (*final(
            acc
        )).buffer@ == all && (*final(acc)).segment_start_ms == Some(first) && (*final(
            acc
        )).waiting is Nothing
        &&& !(late && (*acc).buffer@.len() > 0) && all.len() >= n ==> r is Some && r->0.samples@
            == all.subrange(0, n) && r->0.start_ms == first && r->0.source == (*acc).source && (
        *final(acc)).buffer@ == all.subrange(n, all.len() as int) && (*final(
            acc
        )).segment_start_ms == Some(first) && (*final(acc)).waiting is FullSegment
        &&& (*final(acc)).samples_per_segment == (*acc).samples_per_segment
        &&& (*final(acc)).segment_duration_secs == (*acc).segment_duration_secs
        &&& (*final(acc)).source == (*acc).source
        &&& (*final(acc)).output_dir@ == (*acc).output_dir@
    } by {
        let before = (*acc).model();
        let n = (*acc).samples_per_segment as nat;
        a_model_shows_the_fields(*acc);
        a_model_shows_the_fields(*final(acc));
        if before.start is Some && timestamp_ms > before.start->0 + buffered_ms + 2000
            && before.buffer.len() > 0 {
            a_late_push_closes_the_segment(before, samples@, timestamp_ms, buffered_ms, n, 0);
        } else if before.start is Some && timestamp_ms <= before.start->0 + buffered_ms + 2000 {
            a_timely_push_goes_on_with_the_segment(
                before,
                samples@,
                timestamp_ms,
                buffered_ms,
                n,
            );
        } else {
            a_first_push_starts_the_segment(before, samples@, timestamp_ms, buffered_ms, n);
        }
    }
}

/// A flush hands out what is buffered, if there is anything; a report that a segment was not
/// written drops what waited for it.
pub proof fn a_flush_hands_out_the_buffer<T: Copy>(r: Option<SegmentJob<T>>)
    ensures
        forall|acc: &mut SegmentAccumulator<T>|
            #[trigger] call_ensures(SegmentAccumulator::<T>::flush, (acc,), r)
                && (*acc).waiting is Nothing ==> {
                &&& (*acc).buffer@.len() == 0 ==> r is None && (*final(acc)).buffer@.len() == 0
                    && (*final(acc)).segment_start_ms == (*acc).segment_start_ms && (*final(
                    acc
                )).waiting is Nothing
                &&& (*acc).buffer@.len() > 0 ==> r is Some && r->0.samples@ == (*acc).buffer@
                    && r->0.source == (*acc).source && (*final(acc)).buffer@.len() == 0 && (*final(
                    acc
                )).waiting is LastSegment
                &&& (*acc).buffer@.len() > 0 && (*acc).segment_start_ms is Some ==> r->0.start_ms
                    == (*acc).segment_start_ms->0
            },
        forall|acc: &mut SegmentAccumulator<T>|
            #[trigger] call_ensures(SegmentAccumulator::<T>::encode_failed, (acc,), ()) ==> {
                &&& (*final(acc)).buffer@ == (*acc).buffer@
                &&& (*final(acc)).segment_start_ms == (*acc).segment_start_ms
                &&& (*final(acc)).waiting is Nothing
            },
{
    assert forall|acc: &mut SegmentAccumulator<T>|
        #[trigger] call_ensures(SegmentAccumulator::<T>::flush, (acc,), r)
            && (*acc).waiting is Nothing implies {
        &&& (*acc).buffer@.len() == 0 ==> r is None && (*final(acc)).buffer@.len() == 0 && (*final(
            acc
        )).segment_start_ms == (*acc).segment_start_ms && (*final(acc)).waiting is Nothing
        &&& (*acc).buffer@.len() > 0 ==> r is Some && r->0.samples@ == (*acc).buffer@
            && r->0.source == (*acc).source && (*final(acc)).buffer@.len() == 0 && (*final(
            acc
        )).waiting is LastSegment
        &&& (*acc).buffer@.len() > 0 && (*acc).segment_start_ms is Some ==> r->0.start_ms == (
        *acc).segment_start_ms->0
    } by {
        a_model_shows_the_fields(*acc);
        a_model_shows_the_fields(*final(acc));
        a_flush_ends_the_segment((*acc).model(), 1, 0);
    }
    assert forall|acc: &mut SegmentAccumulator<T>|
        #[trigger] call_ensures(SegmentAccumulator::<T>::encode_failed, (acc,), ()) implies {
        &&& (*final(acc)).buffer@ == (*acc).buffer@
        &&& (*final(acc)).segment_start_ms == (*acc).segment_start_ms
        &&& (*final(acc)).waiting is Nothing
    } by {
        a_model_shows_the_fields(*acc);
        a_model_shows_the_fields(*final(acc));
    }
}

/// Once a full segment was written the next one begins where it ended; once one before a gap was,
/// what came after the gap begins one of its own; once the last one was, none has begun.
pub proof fn a_written_segment_lets_the_next_begin<T: Copy>(r: Option<SegmentJob<T>>)
    ensures
        forall|acc: &mut SegmentAccumulator<T>|
            #[trigger] call_ensures(SegmentAccumulator::<T>::encoded, (acc,), r) && (
            *acc).samples_per_segment > 0 ==> {
                let n = (*acc).samples_per_segment as int;
                &&& (*acc).waiting is FullSegment && (*acc).segment_start_ms is Some && (
                *acc).segment_start_ms->0 + 1000 * (*acc).segment_duration_secs <= i64::MAX ==> {
                    let next = (*acc).segment_start_ms->0 + 1000 * (*acc).segment_duration_secs;
                    &&& (*final(acc)).segment_start_ms is Some
                    &&& (*final(acc)).segment_start_ms->0 == next
                    &&& r is Some <==> (*acc).buffer@.len() >= n
                    &&& r is Some ==> r->0.start_ms == next && r->0.samples@ == (
                    *acc).buffer@.subrange(0, n) && (*final(acc)).buffer@ == (
                    *acc).buffer@.subrange(n, (*acc).buffer@.len() as int)
                    &&& r is None ==> (*final(acc)).buffer@ == (*acc).buffer@
                }
                &&& (*acc).waiting is LastSegment ==> r is None && (*final(
                    acc
                )).segment_start_ms is None && (*final(acc)).waiting is Nothing
                &&& (*acc).waiting is GapSegment && (*acc).buffer@.len() == 0 ==> {
                    let samples = (*acc).waiting->samples@;
                    &&& (*final(acc)).segment_start_ms == Some((*acc).waiting->timestamp_ms)
                    &&& r is Some <==> samples.len() >= n
                    &&& r is Some ==> r->0.start_ms == (*acc).waiting->timestamp_ms
                        && r->0.samples@ == samples.subrange(0, n)
                    &&& r is None ==> (*final(acc)).buffer@ == samples
                }
            },
{
    assert forall|acc: &mut SegmentAccumulator<T>|
        #[trigger] call_ensures(SegmentAccumulator::<T>::encoded, (acc,), r) && (
        *acc).samples_per_segment > 0 implies {
        let n = (*acc).samples_per_segment as int;
        &&& (*acc).waiting is FullSegment && (*acc).segment_start_ms is Some && (
        *acc).segment_start_ms->0 + 1000 * (*acc).segment_duration_secs <= i64::MAX ==> {
            let next = (*acc).segment_start_ms->0 + 1000 * (*acc).segment_duration_secs;
            &&& (*final(acc)).segment_start_ms is Some
            &&& (*final(acc)).segment_start_ms->0 == next
            &&& r is Some <==> (*acc).buffer@.len() >= n
            &&& r is Some ==> r->0.start_ms == next && r->0.samples@ == (*acc).buffer@.subrange(
                0,
                n,
            ) && (*final(acc)).buffer@ == (*acc).buffer@.subrange(n, (*acc).buffer@.len() as int)
            &&& r is None ==> (*final(acc)).buffer@ == (*acc).buffer@
        }
        &&& (*acc).waiting is LastSegment ==> r is None && (*final(acc)).segment_start_ms is None
            && (*final(acc)).waiting is Nothing
        &&& (*acc).waiting is GapSegment && (*acc).buffer@.len() == 0 ==> {
            let samples = (*acc).waiting->samples@;
            &&& (*final(acc)).segment_start_ms == Some((*acc).waiting->timestamp_ms)
            &&& r is Some <==> samples.len() >= n
            &&& r is Some ==> r->0.start_ms == (*acc).waiting->timestamp_ms && r->0.samples@
                == samples.subrange(0, n)
            &&& r is None ==> (*final(acc)).buffer@ == samples
        }
    } by {
        let m = (*acc).model();
        let n = (*acc).samples_per_segment as nat;
        a_model_shows_the_fields(*acc);
        a_model_shows_the_fields(*final(acc));
        if m.waiting is FullSegment && m.start is Some && m.start->0 + (*acc).segment_ms()
            <= i64::MAX {
            the_next_segment_adjoins(m, n, (*acc).segment_ms());
        }
        if let WaitingModel::GapSegment { samples, timestamp_ms } = m.waiting {
            assert(m.buffer.len() == 0 ==> m.buffer + samples =~= samples);
            assert(samples.len() >= n ==> samples.take(n as int) =~= samples.subrange(
                0,
                n as int,
            ));
        }
    }
}

/// The record of a written segment has its source, its file and its start, and ends as long after
/// that as it lasts: a full one its set length, any other as long as was measured.
pub proof fn a_record_ends_where_its_segment_does<T>(
    job: SegmentJob<T>,
    measured_ms: i64,
    lasts: i64,
    r: CompletedSegment,
)
    requires
        call_ensures(SegmentJob::<T>::duration_ms, (&job, measured_ms), lasts),
        call_ensures(SegmentJob::<T>::completed, (job, measured_ms), r),
    ensures
        job.full_ms is Some ==> lasts == job.full_ms->0,
        job.full_ms is None ==> lasts == measured_ms,
        r.source == job.source,
        r.path@ == job.path@,
        r.start_timestamp == job.start_ms,
        r.end_timestamp == job.start_ms + lasts,
{
}

/// A new accumulator is set up as it was asked for: a full segment has as many samples as its
/// seconds have.
pub proof fn a_new_accumulator_is_set_up_as_asked<T: Copy>(
    source: AudioSource,
    rate: u32,
    secs: u32,
    dir: &str,
    r: SegmentAccumulator<T>,
)
    requires
        call_ensures(SegmentAccumulator::<T>::new, (source, rate, secs, dir), r),
    ensures
        r.source == source,
        r.sample_rate == rate,
        r.segment_duration_secs == secs,
        r.samples_per_segment == rate * secs,
        r.output_dir@ == dir@,
        r.buffer@.len() == 0,
        r.segment_start_ms is None,
        r.waiting is Nothing,
{
    a_model_shows_the_fields(r);
    a_new_accumulator_is_empty::<T>();
}

} // verus!
