//! Microphone capture: what the device's buffers mean and what becomes of them.

use vstd::prelude::*;
use crate::audio::drops::{count_one, next_count, AudioDropCounters};
use crate::audio::AudioError;
use crate::text::{concat, concat3, decimal, decimal_u64, owned, slice_range};

verus! {

/// Extra frames added to the output buffer capacity when resampling.
///
/// A resampler can produce a few more frames than the scaled input count due to its internal
/// state (filter delay, polyphase rounding). 4096 is comfortably above any real resampler's
/// leading/trailing frame count, and over-allocating the output buffer only wastes a little
/// memory.
pub const RESAMPLER_HEADROOM_FRAMES: u32 = 4096;

/// What one converter call produced for one tap buffer.
#[derive(Debug, Clone, PartialEq, Eq)]
pub enum ConversionOutcome<T> {
    /// The converter emitted at least one frame.
    Produced(Vec<T>),
    /// Nothing to emit this call: the input was empty, or the converter kept the whole input
    /// as its held-back tail. Benign.
    HeldTail,
    /// Output-buffer allocation failed, the converter returned its error status, or the
    /// output exposed no float channel data.
    Failed,
}

impl<T> ConversionOutcome<T> {
    /// The samples, if any were produced.
    pub fn into_produced(self) -> (r: Option<Vec<T>>)
        ensures
            r == (match self {
                ConversionOutcome::Produced(samples) => Some(samples),
                _ => None,
            }),
    {
        match self {
            ConversionOutcome::Produced(samples) => Some(samples),
            ConversionOutcome::HeldTail => None,
            ConversionOutcome::Failed => None,
        }
    }
}

/// The smaller of two numbers.
pub open spec fn least(a: int, b: int) -> int {
    if a < b {
        a
    } else {
        b
    }
}

/// Copy one deinterleaved channel.
///
/// `frame_count` is the number of valid sample frames; one larger than the slice is clamped
/// so the copy never reads past the buffer. The microphone path normalizes to mono before
/// this point, so channel zero already is the whole signal.
pub fn mono_samples<T: Copy>(channel: &[T], frame_count: usize) -> (r: Vec<T>)
    ensures
        r@ == channel@.take(least(frame_count as int, channel@.len() as int)),
{
    let end: usize = if frame_count < channel.len() {
        frame_count
    } else {
        channel.len()
    };
    slice_range(channel, 0, end)
}

/// The sample formats that AVFoundation tells apart.
#[derive(Debug, Clone, Copy, PartialEq, Eq, Structural)]
pub enum CommonFormat {
    Other,
    Float32,
    Float64,
    Int16,
    Int32,
    /// A value that has no name here.
    Unknown(u64),
}

impl CommonFormat {
    /// The format of a raw `AVAudioCommonFormat` value.
    pub open spec fn of_raw(raw: u64) -> CommonFormat {
        match raw {
            0 => CommonFormat::Other,
            1 => CommonFormat::Float32,
            2 => CommonFormat::Float64,
            3 => CommonFormat::Int16,
            4 => CommonFormat::Int32,
            _ => CommonFormat::Unknown(raw),
        }
    }

    /// The format of a raw `AVAudioCommonFormat` value.
    pub fn from_raw(raw: u64) -> (r: Self)
        ensures
            r == CommonFormat::of_raw(raw),
    {
        if raw == 0 {
            CommonFormat::Other
        } else if raw == 1 {
            CommonFormat::Float32
        } else if raw == 2 {
            CommonFormat::Float64
        } else if raw == 3 {
            CommonFormat::Int16
        } else if raw == 4 {
            CommonFormat::Int32
        } else {
            CommonFormat::Unknown(raw)
        }
    }

    /// The name of the format.
    pub open spec fn name(self) -> Seq<char> {
        match self {
            CommonFormat::Other => "other"@,
            CommonFormat::Float32 => "f32"@,
            CommonFormat::Float64 => "f64"@,
            CommonFormat::Int16 => "i16"@,
            CommonFormat::Int32 => "i32"@,
            CommonFormat::Unknown(raw) => "unknown("@ + decimal(raw as int) + ")"@,
        }
    }
}

/// Name a sample format for the tap-install log. A value without a name here prints as
/// `unknown(N)` rather than being dropped: a format added later is exactly the case worth
/// seeing.
pub fn common_format_name(format: CommonFormat) -> (r: String)
    ensures
        r@ == format.name(),
{
    match format {
        CommonFormat::Other => owned("other"),
        CommonFormat::Float32 => owned("f32"),
        CommonFormat::Float64 => owned("f64"),
        CommonFormat::Int16 => owned("i16"),
        CommonFormat::Int32 => owned("i32"),
        CommonFormat::Unknown(raw) => concat3("unknown(", decimal_u64(raw).as_str(), ")"),
    }
}

/// The input device's native format, read once at tap install. The rate is whatever type the
/// caller reads it in.
#[derive(Debug, Clone, PartialEq)]
pub struct NativeFormat<Rate> {
    pub channels: u32,
    /// Hz.
    pub sample_rate: Rate,
    pub interleaved: bool,
    /// `f32`, `i16`, ... as `common_format_name` spells it.
    pub common_format: String,
    /// True for 32-bit float buffers, the only layout `extract_channels` reads.
    pub float32: bool,
}

impl<Rate> NativeFormat<Rate> {
    /// The format of a device, and whether it is eligible for the explicit downmix.
    pub fn describe(
        format: CommonFormat,
        channels: u32,
        sample_rate: Rate,
        interleaved: bool,
    ) -> (r: (Self, MixEligibility))
        ensures
            r.0.channels == channels,
            r.0.sample_rate == sample_rate,
            r.0.interleaved == interleaved,
            r.0.common_format@ == format.name(),
            r.0.float32 == (format == CommonFormat::Float32),
            r.1 == MixEligibility::of(format, channels),
    {
        let float32 = match format {
            CommonFormat::Float32 => true,
            _ => false,
        };
        (
            NativeFormat {
                channels,
                sample_rate,
                interleaved,
                common_format: common_format_name(format),
                float32,
            },
            MixEligibility::classify(format, channels),
        )
    }
}

/// Whether the device active at tap install is eligible for an explicit downmix.
///
/// The rule in one sentence: the explicit mix applies only to input the measurement covers;
/// everything else keeps the path it already uses.
#[derive(Debug, Clone, Copy, PartialEq, Eq, Structural)]
pub enum MixEligibility {
    /// One f32 channel.
    Mono,
    /// Two f32 channels.
    Stereo,
    /// Everything else — non-f32 at any channel count, zero channels, or more than two.
    Ineligible,
}

impl MixEligibility {
    /// The class of a format at a channel count.
    pub open spec fn of(format: CommonFormat, channels: u32) -> MixEligibility {
        if format == CommonFormat::Float32 && channels == 1 {
            MixEligibility::Mono
        } else if format == CommonFormat::Float32 && channels == 2 {
            MixEligibility::Stereo
        } else {
            MixEligibility::Ineligible
        }
    }

    /// Classify a device's native format.
    pub fn classify(format: CommonFormat, channels: u32) -> (r: Self)
        ensures
            r == MixEligibility::of(format, channels),
    {
        match format {
            CommonFormat::Float32 => if channels == 1 {
                MixEligibility::Mono
            } else if channels == 2 {
                MixEligibility::Stereo
            } else {
                MixEligibility::Ineligible
            },
            _ => MixEligibility::Ineligible,
        }
    }

    /// The label written to the tap-install log. It is what someone diagnosing a silent
    /// microphone searches for, so it should stay stable.
    pub fn as_str(self) -> (r: &'static str)
        ensures
            r@ == (match self {
                MixEligibility::Mono => "mono"@,
                MixEligibility::Stereo => "stereo"@,
                MixEligibility::Ineligible => "ineligible"@,
            }),
    {
        match self {
            MixEligibility::Mono => "mono",
            MixEligibility::Stereo => "stereo",
            MixEligibility::Ineligible => "ineligible",
        }
    }
}

/// The error that a refused microphone setup step is reported with.
#[derive(Debug, Clone, Copy, PartialEq, Eq, Structural)]
pub enum SetupStep {
    TargetFormat,
    Converter,
}

impl SetupStep {
    /// The error of a setup step that gave nothing.
    pub fn failed(self) -> (r: AudioError)
        ensures
            r is Microphone,
            r->Microphone_0@ == (match self {
                SetupStep::TargetFormat => "failed to build 48kHz mono target format"@,
                SetupStep::Converter => "failed to build microphone format converter"@,
            }),
    {
        match self {
            SetupStep::TargetFormat => AudioError::Microphone(
                owned("failed to build 48kHz mono target format"),
            ),
            SetupStep::Converter => AudioError::Microphone(
                owned("failed to build microphone format converter"),
            ),
        }
    }
}

/// The error of a microphone engine that did not start.
pub fn start_failed(cause: &str) -> (r: AudioError)
    ensures
        r is Microphone,
        r->Microphone_0@ == "failed to start microphone engine: "@ + cause@,
{
    AudioError::Microphone(concat("failed to start microphone engine: ", cause))
}

/// Only 32-bit float input can be recorded for characterization.
pub fn characterization_input_check<Rate>(format: &NativeFormat<Rate>) -> (r: Result<
    (),
    AudioError,
>)
    ensures
        r is Ok <==> format.float32,
        r is Err ==> r->Err_0 is Microphone && (r->Err_0)->Microphone_0@
            == "characterization needs 32-bit float input; the device delivers "@
            + format.common_format@,
{
    if format.float32 {
        Ok(())
    } else {
        Err(
            AudioError::Microphone(
                concat(
                    "characterization needs 32-bit float input; the device delivers ",
                    format.common_format.as_str(),
                ),
            ),
        )
    }
}

/// The capacity of the output buffer: the frames expected after resampling, plus headroom.
pub fn output_capacity(expected_frames: u32) -> (r: u32)
    ensures
        r == least(expected_frames + RESAMPLER_HEADROOM_FRAMES, u32::MAX as int),
{
    expected_frames.saturating_add(RESAMPLER_HEADROOM_FRAMES)
}

/// What a converter is told when it asks for input.
#[derive(Debug, Clone, Copy, PartialEq, Eq, Structural)]
pub enum InputStatus {
    /// The tap buffer is handed over.
    HaveData,
    /// There is nothing more now. This is not the end of the stream: the converter keeps its
    /// state for the next tap buffer.
    NoDataNow,
}

/// The input of one conversion: a single tap buffer.
#[derive(Debug, Clone, Copy, PartialEq, Eq, Structural)]
pub struct InputFeed {
    /// Whether the tap buffer has been handed over.
    pub provided: bool,
}

impl InputFeed {
    /// A tap buffer that has not been handed over.
    pub fn new() -> (r: Self)
        ensures
            !r.provided,
    {
        InputFeed { provided: false }
    }

    /// Answer the converter: the buffer goes to whoever asks first, and to nobody after that.
    pub fn next(&mut self) -> (r: InputStatus)
        ensures
            final(self).provided,
            r == (if old(self).provided {
                InputStatus::NoDataNow
            } else {
                InputStatus::HaveData
            }),
    {
        if self.provided {
            InputStatus::NoDataNow
        } else {
            self.provided = true;
            InputStatus::HaveData
        }
    }
}

/// How far a conversion came, as the converter reported it.
pub enum Conversion<T> {
    /// The input buffer had no frames; the converter was not called.
    NoInput,
    /// The output buffer could not be allocated.
    NoOutputBuffer,
    /// The converter returned its error status.
    Error,
    /// The converter ran: how many frames it put out, and the channel they are in, if the
    /// output exposed one.
    Ran { output_frames: usize, channel: Option<Vec<T>> },
}

/// The outcome of a conversion, by how far it came.
pub open spec fn outcome_of<T>(c: Conversion<T>, r: ConversionOutcome<T>) -> bool {
    match c {
        Conversion::NoInput => r is HeldTail,
        Conversion::NoOutputBuffer => r is Failed,
        Conversion::Error => r is Failed,
        Conversion::Ran { output_frames, channel } => if output_frames == 0 {
            r is HeldTail
        } else {
            match channel {
                None => r is Failed,
                Some(samples) => r is Produced && (r->Produced_0)@ == samples@.take(
                    least(output_frames as int, samples@.len() as int),
                ),
            }
        },
    }
}

/// The outcome of a conversion. Only an error is a failure: the converter that has run dry
/// keeps its tail for the next buffer.
pub fn convert_uncounted<T: Copy>(conversion: Conversion<T>) -> (r: ConversionOutcome<T>)
    ensures
        outcome_of(conversion, r),
{
    match conversion {
        Conversion::NoInput => ConversionOutcome::HeldTail,
        Conversion::NoOutputBuffer => ConversionOutcome::Failed,
        Conversion::Error => ConversionOutcome::Failed,
        Conversion::Ran { output_frames, channel } => {
            if output_frames == 0 {
                return ConversionOutcome::HeldTail;
            }
            match channel {
                None => ConversionOutcome::Failed,
                Some(samples) => ConversionOutcome::Produced(
                    mono_samples(samples.as_slice(), output_frames),
                ),
            }
        },
    }
}

/// The outcome of a conversion, with a failure counted once.
pub fn convert_to_mono_samples<T: Copy>(
    conversion: Conversion<T>,
    counters: &mut AudioDropCounters,
) -> (r: ConversionOutcome<T>)
    ensures
        outcome_of(conversion, r),
        *final(counters) == (if r is Failed {
            AudioDropCounters {
                mic_convert_failed: next_count(old(counters).mic_convert_failed),
                ..*old(counters)
            }
        } else {
            *old(counters)
        }),
{
    let outcome = convert_uncounted(conversion);
    match &outcome {
        ConversionOutcome::Failed => {
            counters.mic_convert_failed = count_one(counters.mic_convert_failed);
        },
        _ => {},
    }
    outcome
}

/// How many frames a plane of `len` samples supplies at a stride.
pub open spec fn supplied(len: nat, stride: nat) -> nat {
    if len == 0 {
        0
    } else {
        ((len - 1) / stride as int + 1) as nat
    }
}

/// The largest frame count, up to `frames`, that every plane supplies.
pub open spec fn usable_frames<T>(planes: Seq<&[T]>, frames: nat, stride: nat) -> nat
    decreases planes.len(),
{
    if planes.len() == 0 {
        frames
    } else {
        least(
            usable_frames(planes.drop_last(), frames, stride) as int,
            supplied(planes.last()@.len(), stride) as int,
        ) as nat
    }
}

/// The first `n` frames of a channel plane.
pub open spec fn channel<T>(plane: Seq<T>, n: nat, stride: nat) -> Seq<T> {
    Seq::new(n, |f: int| plane[f * stride])
}

proof fn lemma_usable_bounds<T>(planes: Seq<&[T]>, frames: nat, stride: nat)
    ensures
        usable_frames(planes, frames, stride) <= frames,
        forall|c: int|
            0 <= c < planes.len() ==> usable_frames(planes, frames, stride) <= supplied(
                (#[trigger] planes[c])@.len(),
                stride,
            ),
    decreases planes.len(),
{
    if planes.len() > 0 {
        lemma_usable_bounds(planes.drop_last(), frames, stride);
        assert forall|c: int| 0 <= c < planes.len() implies usable_frames(planes, frames, stride)
            <= supplied((#[trigger] planes[c])@.len(), stride) by {
            if c < planes.len() - 1 {
                assert(planes.drop_last()[c] == planes[c]);
            }
        }
    }
}

proof fn lemma_usable_of_equal_planes<T>(planes: Seq<&[T]>, frames: nat, stride: nat)
    requires
        forall|c: int|
            0 <= c < planes.len() ==> supplied((#[trigger] planes[c])@.len(), stride) == frames,
    ensures
        usable_frames(planes, frames, stride) == frames,
    decreases planes.len(),
{
    if planes.len() > 0 {
        assert forall|c: int| 0 <= c < planes.drop_last().len() implies supplied(
            (#[trigger] planes.drop_last()[c])@.len(),
            stride,
        ) == frames by {
            assert(planes.drop_last()[c] == planes[c]);
        }
        lemma_usable_of_equal_planes(planes.drop_last(), frames, stride);
        assert(planes.last() == planes[planes.len() - 1]);
    }
}

/// Copy `frames` samples out of each channel plane, honouring `stride`.
///
/// `stride` is the sample spacing between consecutive frames of one channel: frame `f` of a
/// channel lives at `plane[f * stride]`.
///
/// Every returned channel has the same length: a short plane truncates all channels to a
/// common safe frame count. The result is empty, or exactly one channel for each plane.
pub fn extract_channels_from_planes<T: Copy>(planes: &[&[T]], frames: usize, stride: usize) -> (r:
    Vec<Vec<T>>)
    ensures
        ({
            let n = usable_frames(planes@, frames as nat, stride as nat);
            if stride == 0 || n == 0 {
                r@.len() == 0
            } else {
                &&& r@.len() == planes@.len()
                &&& forall|c: int|
                    0 <= c < r@.len() ==> (#[trigger] r@[c])@ == channel(
                        planes@[c]@,
                        n,
                        stride as nat,
                    )
            }
        }),
{
    let mut out: Vec<Vec<T>> = Vec::new();
    proof {
        lemma_usable_bounds(planes@, frames as nat, stride as nat);
    }
    if planes.len() == 0 || frames == 0 || stride == 0 {
        return out;
    }
    let mut count: usize = frames;
    let mut p: usize = 0;
    proof {
        assert(planes@.take(0) =~= Seq::<&[T]>::empty());
    }
    while p < planes.len()
        invariant
            p <= planes.len(),
            stride > 0,
            count == usable_frames(planes@.take(p as int), frames as nat, stride as nat),
        decreases planes.len() - p,
    {
        let len: usize = planes[p].len();
        proof {
            if len > 0 {
                assert((len - 1) / stride as int <= len - 1) by (nonlinear_arith)
                    requires
                        len > 0,
                        stride > 0,
                ;
            }
            assert(planes@.take(p + 1).drop_last() =~= planes@.take(p as int));
        }
        let here: usize = if len == 0 {
            0
        } else {
            (len - 1) / stride + 1
        };
        if here < count {
            count = here;
        }
        p += 1;
    }
    proof {
        assert(planes@.take(planes@.len() as int) =~= planes@);
    }
    if count == 0 {
        return out;
    }
    let mut c: usize = 0;
    while c < planes.len()
        invariant
            c <= planes.len(),
            out@.len() == c,
            stride > 0,
            count > 0,
            forall|d: int|
                0 <= d < planes@.len() ==> count <= supplied(
                    (#[trigger] planes@[d])@.len(),
                    stride as nat,
                ),
            forall|d: int|
                0 <= d < c ==> (#[trigger] out@[d])@ == channel(
                    planes@[d]@,
                    count as nat,
                    stride as nat,
                ),
        decreases planes.len() - c,
    {
        let plane = planes[c];
        let mut samples: Vec<T> = Vec::with_capacity(count);
        let mut f: usize = 0;
        let mut at: usize = 0;
        proof {
            assert(count <= supplied(planes@[c as int]@.len(), stride as nat));
        }
        while f < count
            invariant
                f <= count,
                stride > 0,
                at == f * stride || f == count,
                count <= supplied(plane@.len(), stride as nat),
                samples@.len() == f,
                forall|g: int| 0 <= g < f ==> #[trigger] samples@[g] == plane@[g * stride],
            decreases count - f,
        {
            proof {
                assert(f * stride <= plane@.len() - 1) by (nonlinear_arith)
                    requires
                        f + 1 <= count,
                        plane@.len() > 0,
                        count <= (plane@.len() - 1) / stride as int + 1,
                        stride > 0,
                ;
            }
            samples.push(plane[at]);
            f += 1;
            if f < count {
                proof {
                    assert(f * stride <= plane@.len() - 1) by (nonlinear_arith)
                        requires
                            f + 1 <= count,
                            plane@.len() > 0,
                            count <= (plane@.len() - 1) / stride as int + 1,
                            stride > 0,
                    ;
                    assert(f * stride == (f - 1) * stride + stride) by (nonlinear_arith);
                }
                at += stride;
            }
        }
        proof {
            assert(samples@ =~= channel(planes@[c as int]@, count as nat, stride as nat));
        }
        out.push(samples);
        c += 1;
    }
    out
}

/// The samples that stand behind each channel of a buffer: one more than the place of its
/// last frame.
pub open spec fn plane_run(frames: nat, stride: nat) -> nat {
    ((frames - 1) * stride + 1) as nat
}

/// How many samples may be read behind each channel pointer of a buffer. `None` where it
/// cannot be read as float channel data: another format, no frames, no channels, no stride,
/// or a length that does not fit.
pub fn readable_plane(float_data: bool, frames: usize, channels: usize, stride: usize) -> (r: Option<
    usize,
>)
    ensures
        r is Some <==> float_data && frames > 0 && channels > 0 && stride > 0 && plane_run(
            frames as nat,
            stride as nat,
        ) <= usize::MAX,
        r is Some ==> r->0 == plane_run(frames as nat, stride as nat),
{
    if !float_data || frames == 0 || channels == 0 || stride == 0 {
        return None;
    }
    proof {
        assert((frames - 1) * stride >= 0) by (nonlinear_arith)
            requires
                frames > 0,
        ;
    }
    match (frames - 1).checked_mul(stride) {
        None => None,
        Some(last) => last.checked_add(1),
    }
}

/// Extract every channel of a buffer whose planes have been read with `readable_plane`.
///
/// The result always carries one channel of exactly `frames` samples for each plane.
pub fn extract_channels<T: Copy>(planes: &[&[T]], frames: usize, stride: usize) -> (r: Vec<Vec<T>>)
    requires
        planes@.len() > 0,
        frames > 0,
        stride > 0,
        forall|c: int|
            0 <= c < planes@.len() ==> (#[trigger] planes@[c])@.len() == plane_run(
                frames as nat,
                stride as nat,
            ),
    ensures
        r@.len() == planes@.len(),
        forall|c: int|
            0 <= c < r@.len() ==> (#[trigger] r@[c])@ == channel(
                planes@[c]@,
                frames as nat,
                stride as nat,
            ),
{
    proof {
        assert(supplied(plane_run(frames as nat, stride as nat), stride as nat) == frames) by {
            assert((frames - 1) * stride / stride as int == frames - 1) by (nonlinear_arith)
                requires
                    stride > 0,
                    frames > 0,
            ;
            assert((frames - 1) * stride >= 0) by (nonlinear_arith)
                requires
                    frames > 0,
            ;
        }
        lemma_usable_of_equal_planes(planes@, frames as nat, stride as nat);
    }
    extract_channels_from_planes(planes, frames, stride)
}

/// The formats are told apart by their raw values, and named.
pub proof fn a_format_has_its_raw_value_and_name(raw: u64, format: CommonFormat, name: String)
    requires
        call_ensures(CommonFormat::from_raw, (raw,), format),
        call_ensures(common_format_name, (format,), name),
    ensures
        raw == 0 ==> format is Other && name@ == "other"@,
        raw == 1 ==> format is Float32 && name@ == "f32"@,
        raw == 2 ==> format is Float64 && name@ == "f64"@,
        raw == 3 ==> format is Int16 && name@ == "i16"@,
        raw == 4 ==> format is Int32 && name@ == "i32"@,
        raw > 4 ==> format == CommonFormat::Unknown(raw) && name@ == "unknown("@ + decimal(
            raw as int,
        ) + ")"@,
{
}

/// Only one or two channels of 32-bit floats are mixed; a device is described as it is.
pub proof fn a_device_is_described_as_it_is<Rate>(
    format: CommonFormat,
    channels: u32,
    rate: Rate,
    interleaved: bool,
    name: String,
    class: MixEligibility,
    r: (NativeFormat<Rate>, MixEligibility),
    check: Result<(), AudioError>,
)
    requires
        call_ensures(common_format_name, (format,), name),
        call_ensures(MixEligibility::classify, (format, channels), class),
        call_ensures(NativeFormat::<Rate>::describe, (format, channels, rate, interleaved), r),
        call_ensures(characterization_input_check::<Rate>, (&r.0,), check),
    ensures
        class is Mono <==> format is Float32 && channels == 1,
        class is Stereo <==> format is Float32 && channels == 2,
        class is Ineligible <==> !(format is Float32) || (channels != 1 && channels != 2),
        r.1 == class,
        r.0.channels == channels,
        r.0.sample_rate == rate,
        r.0.interleaved == interleaved,
        r.0.common_format@ == name@,
        r.0.float32 <==> format is Float32,
        check is Ok <==> format is Float32,
{
}

/// A channel is copied up to the frames that are valid, and no further than it goes; an output
/// buffer has room for 4096 frames more than are expected.
pub proof fn a_channel_is_copied_as_far_as_it_is_valid<T: Copy>(
    channel: &[T],
    frames: usize,
    r: Vec<T>,
    expected: u32,
    capacity: u32,
)
    requires
        call_ensures(mono_samples::<T>, (channel, frames), r),
        call_ensures(output_capacity, (expected,), capacity),
    ensures
        frames <= channel@.len() ==> r@.len() == frames,
        frames > channel@.len() ==> r@.len() == channel@.len(),
        forall|i: int| 0 <= i < r@.len() ==> #[trigger] r@[i] == channel@[i],
        expected + 4096 <= 0xffff_ffff ==> capacity == expected + 4096,
        expected + 4096 > 0xffff_ffff ==> capacity == 0xffff_ffff,
{
}

/// A conversion that put out frames produced them; one that put out none holds them back for the
/// next; and only one that got no buffer, met an error or gave no channel failed.
pub proof fn a_conversion_is_what_the_converter_gave<T: Copy>(
    conversion: Conversion<T>,
    r: ConversionOutcome<T>,
)
    requires
        call_ensures(convert_uncounted::<T>, (conversion,), r),
    ensures
        conversion is NoInput ==> r is HeldTail,
        conversion is NoOutputBuffer || conversion is Error ==> r is Failed,
        conversion matches Conversion::Ran { output_frames, channel } ==> {
            &&& output_frames == 0 ==> r is HeldTail
            &&& output_frames > 0 && channel is None ==> r is Failed
            &&& output_frames > 0 && channel is Some ==> r is Produced && (r->Produced_0)@.len()
                == (if output_frames <= channel->0@.len() {
                output_frames as int
            } else {
                channel->0@.len() as int
            }) && forall|i: int|
                0 <= i < (r->Produced_0)@.len() ==> #[trigger] (r->Produced_0)@[i]
                    == channel->0@[i]
        },
{
}

/// A failed conversion is counted once, and no other count moves; what was produced is handed on.
pub proof fn a_failed_conversion_counts_once<T: Copy>(
    conversion: Conversion<T>,
    r: ConversionOutcome<T>,
    produced: Option<Vec<T>>,
)
    requires
        call_ensures(ConversionOutcome::<T>::into_produced, (r,), produced),
    ensures
        produced is Some <==> r is Produced,
        r is Produced ==> produced->0 == r->Produced_0,
        forall|c: &mut AudioDropCounters|
            #[trigger] call_ensures(convert_to_mono_samples::<T>, (conversion, c), r)
                && (*c).mic_convert_failed < u64::MAX ==> {
                &&& outcome_of(conversion, r)
                &&& (*final(c)).mic_convert_failed == (*c).mic_convert_failed + (if r is Failed {
                    1int
                } else {
                    0
                })
                &&& (*final(c)).mic_full == (*c).mic_full
                &&& (*final(c)).mic_closed == (*c).mic_closed
                &&& (*final(c)).system_full == (*c).system_full
                &&& (*final(c)).system_closed == (*c).system_closed
            },
{
}

/// A tap buffer goes to whoever asks first, and to nobody after that.
pub proof fn a_tap_buffer_goes_out_once(r: InputStatus)
    ensures
        forall|feed: &mut InputFeed| #[trigger]
            call_ensures(InputFeed::next, (feed,), r) ==> {
                &&& !(*feed).provided ==> r is HaveData
                &&& (*feed).provided ==> r is NoDataNow
                &&& (*final(feed)).provided
            },
{
}

/// The frames that can be read are as many as every plane supplies: no plane supplies fewer, and
/// there would be no more unless one supplied no more, or none were asked for.
pub proof fn as_many_frames_as_every_plane_supplies<T>(
    planes: Seq<&[T]>,
    frames: nat,
    stride: nat,
)
    requires
        stride > 0,
    ensures
        ({
            let n = usable_frames(planes, frames, stride);
            &&& n <= frames
            &&& forall|c: int|
                0 <= c < planes.len() ==> n == 0 || (n - 1) * stride < (
                #[trigger] planes[c])@.len()
            &&& n == frames || exists|c: int|
                0 <= c < planes.len() && n * stride >= (#[trigger] planes[c])@.len()
        }),
    decreases planes.len(),
{
    let n = usable_frames(planes, frames, stride);
    if planes.len() > 0 {
        let earlier = planes.drop_last();
        as_many_frames_as_every_plane_supplies(earlier, frames, stride);
        let before = usable_frames(earlier, frames, stride);
        let len = planes.last()@.len();
        let own = supplied(len, stride);
        lemma_supplied(len, stride);
        assert forall|c: int| 0 <= c < planes.len() implies n == 0 || (n - 1) * stride < (
        #[trigger] planes[c])@.len() by {
            if n > 0 {
                if c < planes.len() - 1 {
                    assert(earlier[c] == planes[c]);
                    assert((n - 1) * stride <= (before - 1) * stride) by (nonlinear_arith)
                        requires
                            n <= before,
                    ;
                } else {
                    assert((n - 1) * stride <= (own - 1) * stride) by (nonlinear_arith)
                        requires
                            n <= own,
                    ;
                }
            }
        }
        if n != frames {
            if n == own && own < before {
                assert(planes[planes.len() - 1]@.len() <= n * stride);
            } else {
                assert(n == before);
                let c = choose|c: int|
                    0 <= c < earlier.len() && before * stride >= (#[trigger] earlier[c])@.len();
                assert(planes[c] == earlier[c]);
            }
        }
    }
}

proof fn lemma_supplied(len: nat, stride: nat)
    requires
        stride > 0,
    ensures
        supplied(len, stride) * stride >= len,
        supplied(len, stride) == 0 || (supplied(len, stride) - 1) * stride < len,
{
    if len > 0 {
        let q = (len - 1) / stride as int;
        assert(q * stride <= len - 1 < (q + 1) * stride) by (nonlinear_arith)
            requires
                q == (len - 1) / stride as int,
                stride > 0,
        ;
    }
}

/// Every channel is read frame by frame, at its stride, and all of them as far as each goes.
pub proof fn every_channel_is_read_at_its_stride<T: Copy>(
    planes: &[&[T]],
    frames: usize,
    stride: usize,
    r: Vec<Vec<T>>,
)
    requires
        call_ensures(extract_channels_from_planes::<T>, (planes, frames, stride), r),
    ensures
        ({
            let n = usable_frames(planes@, frames as nat, stride as nat);
            &&& stride == 0 || n == 0 ==> r@.len() == 0
            &&& stride > 0 && n > 0 ==> r@.len() == planes@.len() && forall|c: int, f: int|
                0 <= c < r@.len() && 0 <= f < n ==> r@[c]@.len() == n && #[trigger] r@[c]@[f]
                    == planes@[c]@[f * stride]
        }),
{
}

/// Behind a channel pointer stand the samples up to its last frame, if there are any at all.
pub proof fn a_plane_is_readable_up_to_its_last_frame(
    float_data: bool,
    frames: usize,
    channels: usize,
    stride: usize,
    r: Option<usize>,
)
    requires
        call_ensures(readable_plane, (float_data, frames, channels, stride), r),
    ensures
        r is Some <==> float_data && frames > 0 && channels > 0 && stride > 0 && (frames - 1)
            * stride + 1 <= usize::MAX,
        r is Some ==> r->0 == (frames - 1) * stride + 1,
{
    if frames > 0 {
        assert((frames - 1) * stride >= 0) by (nonlinear_arith)
            requires
                frames > 0,
        ;
    }
}

/// A buffer whose planes are whole is read whole: one channel for each plane, of all frames.
pub proof fn a_whole_buffer_is_read_whole<T: Copy>(
    planes: &[&[T]],
    frames: usize,
    stride: usize,
    r: Vec<Vec<T>>,
)
    requires
        planes@.len() > 0,
        frames > 0,
        stride > 0,
        call_ensures(extract_channels::<T>, (planes, frames, stride), r),
    ensures
        r@.len() == planes@.len(),
        forall|c: int, f: int|
            0 <= c < r@.len() && 0 <= f < frames ==> r@[c]@.len() == frames
                && #[trigger] r@[c]@[f] == planes@[c]@[f * stride],
{
}

/// A microphone that could not be set up or started says at which step.
pub proof fn a_failed_microphone_says_its_step(
    step: SetupStep,
    unset: AudioError,
    cause: &str,
    unstarted: AudioError,
)
    requires
        call_ensures(SetupStep::failed, (step,), unset),
        call_ensures(start_failed, (cause,), unstarted),
    ensures
        unset is Microphone,
        step is TargetFormat ==> unset->Microphone_0@
            == "failed to build 48kHz mono target format"@,
        step is Converter ==> unset->Microphone_0@
            == "failed to build microphone format converter"@,
        unstarted is Microphone,
        unstarted->Microphone_0@ == "failed to start microphone engine: "@ + cause@,
{
}

/// A device is characterized only on float samples, and is told which it delivers instead; a feed
/// has not provided anything yet; and each way of mixing has its own name.
pub proof fn a_device_is_characterized_on_float_samples<Rate>(
    format: &NativeFormat<Rate>,
    r: Result<(), AudioError>,
    feed: InputFeed,
    mix: MixEligibility,
    name: &'static str,
)
    requires
        call_ensures(characterization_input_check::<Rate>, (format,), r),
        call_ensures(InputFeed::new, (), feed),
        call_ensures(MixEligibility::as_str, (mix,), name),
    ensures
        format.float32 ==> r is Ok,
        !format.float32 ==> r is Err && r->Err_0 is Microphone && (r->Err_0)->Microphone_0@
            == "characterization needs 32-bit float input; the device delivers "@
            + format.common_format@,
        !feed.provided,
        mix is Mono ==> name@ == "mono"@,
        mix is Stereo ==> name@ == "stereo"@,
        mix is Ineligible ==> name@ == "ineligible"@,
{
}

} // verus!
