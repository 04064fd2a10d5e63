//! Opus packets in Ogg, with the headers of RFC 7845.

use vstd::prelude::*;
use crate::audio::AudioError;
use crate::container::{
    complete, ogg_bytes, ogg_into_bytes, ogg_packets, ogg_write_packet, ogg_writer, ogg_written,
    PacketEnd, Written,
};
use crate::text::{concat, concat3, decimal, decimal_u64};

verus! {

/// 20 ms frame at 48 kHz.
pub const FRAME_SIZE: usize = 960;

/// Maximum size of a single encoded Opus packet.
pub const MAX_PACKET_SIZE: usize = 4000;

/// Serial number for the single logical bitstream.
pub const STREAM_SERIAL: u32 = 1;

/// The most audio packets in one file.
pub const MAX_FRAMES: usize = 0x7fff_fff0;

/// Encodes PCM samples to Ogg/Opus files.
#[derive(Debug, Clone, Copy, PartialEq, Eq, Structural)]
pub struct OggOpusEncoder {
    pub sample_rate: u32,
    pub channels: u8,
    pub bitrate: u32,
}

/// The bytes of `n`, least significant first.
pub open spec fn le_bytes(n: u32) -> Seq<u8> {
    seq![
        (n % 256) as u8,
        ((n / 256) % 256) as u8,
        ((n / 65_536) % 256) as u8,
        ((n / 16_777_216) % 256) as u8,
    ]
}

/// The OpusHead identification header (RFC 7845, section 5.1): the magic signature, version
/// 1, the channel count, no pre-skip, the input sample rate, no gain, mapping family 0.
pub open spec fn opus_head(sample_rate: u32, channels: u8) -> Seq<u8> {
    seq![0x4fu8, 0x70, 0x75, 0x73, 0x48, 0x65, 0x61, 0x64] + seq![1u8, channels, 0, 0] + le_bytes(
        sample_rate,
    ) + seq![0u8, 0, 0]
}

/// The OpusTags comment header (RFC 7845, section 5.2): the magic signature, the length of
/// the vendor string, the vendor string `chronicle-audio`, and no comments.
pub open spec fn opus_tags() -> Seq<u8> {
    seq![0x4fu8, 0x70, 0x75, 0x73, 0x54, 0x61, 0x67, 0x73] + le_bytes(15) + seq![
        0x63u8,
        0x68,
        0x72,
        0x6f,
        0x6e,
        0x69,
        0x63,
        0x6c,
        0x65,
        0x2d,
        0x61,
        0x75,
        0x64,
        0x69,
        0x6f,
    ] + le_bytes(0)
}

/// How many frames hold `len` samples, the last one padded.
pub open spec fn frame_count(len: nat) -> nat {
    (len + 959) / 960
}

/// The `i`-th frame of the samples, padded with `silence` to its full size.
pub open spec fn frame_at<T>(samples: Seq<T>, silence: T, i: int) -> Seq<T> {
    Seq::new(
        960,
        |k: int|
            if i * 960 + k < samples.len() {
                samples[i * 960 + k]
            } else {
                silence
            },
    )
}

/// The audio packet `i` of `packets.len()`, as it goes into the stream: its granule position
/// counts the samples up to its end, and the last one ends the stream.
pub open spec fn audio_packet(packets: Seq<Seq<u8>>, i: int) -> Written {
    (
        packets[i],
        STREAM_SERIAL,
        if i + 1 == packets.len() {
            PacketEnd::Stream
        } else {
            PacketEnd::Packet
        },
        (960 * (i + 1)) as u64,
    )
}

/// The packets of a whole file: the two headers, each on a page of its own, then the audio.
pub open spec fn file_packets(sample_rate: u32, channels: u8, packets: Seq<Seq<u8>>) -> Seq<
    Written,
> {
    seq![
        (opus_head(sample_rate, channels), STREAM_SERIAL, PacketEnd::Page, 0u64),
        (opus_tags(), STREAM_SERIAL, PacketEnd::Page, 0u64),
    ] + Seq::new(packets.len(), |i: int| audio_packet(packets, i))
}

/// The contents of each vector.
pub open spec fn views(packets: Seq<Vec<u8>>) -> Seq<Seq<u8>> {
    Seq::new(packets.len(), |i: int| packets[i]@)
}

/// Why a codec could not be set up.
#[derive(Debug, Clone, PartialEq, Eq)]
pub enum SetUpFailure {
    /// It could not be created.
    Create(String),
    /// It did not take the bitrate.
    Bitrate(String),
}

impl SetUpFailure {
    /// The failure in words.
    pub open spec fn words(self) -> Seq<char> {
        match self {
            SetUpFailure::Create(why) => "opus encoder create: "@ + why@,
            SetUpFailure::Bitrate(why) => "set bitrate: "@ + why@,
        }
    }

    /// The failure as an error.
    pub fn report(&self) -> (r: AudioError)
        ensures
            r is Encoding,
            r->Encoding_0@ == self.words(),
    {
        match self {
            SetUpFailure::Create(why) => AudioError::Encoding(
                concat("opus encoder create: ", why.as_str()),
            ),
            SetUpFailure::Bitrate(why) => AudioError::Encoding(
                concat("set bitrate: ", why.as_str()),
            ),
        }
    }
}

/// Whether the codec can give this for a frame, and go from one state to the other by it.
pub open spec fn encodes<T, W, C: Fn(W, &[T]) -> (W, Result<Vec<u8>, String>)>(
    codec: C,
    frame: Seq<T>,
    before: W,
    after: W,
    r: Result<Vec<u8>, String>,
) -> bool {
    exists|given: &[T]|
        given@ == frame && #[trigger] call_ensures(codec, (before, given), (after, r))
}

/// Whether the codec was given the first frames of the samples, each once and in order, and
/// gave these packets: `states` has its state at first, and after each of them.
pub open spec fn encoded_so_far<T, W, C: Fn(W, &[T]) -> (W, Result<Vec<u8>, String>)>(
    codec: C,
    samples: Seq<T>,
    silence: T,
    packets: Seq<Vec<u8>>,
    states: Seq<W>,
) -> bool {
    &&& packets.len() <= frame_count(samples.len())
    &&& states.len() == packets.len() + 1
    &&& forall|i: int|
        0 <= i < packets.len() ==> encodes(
            codec,
            frame_at(samples, silence, i),
            states[i],
            states[i + 1],
            Ok(#[trigger] packets[i]),
        )
}

/// Whether the codec fails on frame `k` with this error, and goes from one state to the other
/// by it.
pub open spec fn fails_on_frame<T, W, C: Fn(W, &[T]) -> (W, Result<Vec<u8>, String>)>(
    codec: C,
    samples: Seq<T>,
    silence: T,
    k: int,
    before: W,
    after: W,
    error: AudioError,
) -> bool {
    exists|why: String|
        #[trigger] encodes(codec, frame_at(samples, silence, k), before, after, Err(why))
            && error is Encoding && error->Encoding_0@ == "encode frame "@ + decimal(k) + ": "@
            + why@
}

fn push_le_bytes(out: &mut Vec<u8>, n: u32)
    ensures
        final(out)@ == old(out)@ + le_bytes(n),
{
    out.push((n % 256) as u8);
    out.push(((n / 256) % 256) as u8);
    out.push(((n / 65_536) % 256) as u8);
    out.push(((n / 16_777_216) % 256) as u8);
    proof {
        assert(out@ =~= old(out)@ + le_bytes(n));
    }
}

fn push_all(out: &mut Vec<u8>, bytes: &[u8])
    ensures
        final(out)@ == old(out)@ + bytes@,
{
    let mut i: usize = 0;
    proof {
        assert(old(out)@ + bytes@.take(0) =~= old(out)@);
    }
    while i < bytes.len()
        invariant
            i <= bytes.len(),
            out@ == old(out)@ + bytes@.take(i as int),
        decreases bytes.len() - i,
    {
        proof {
            assert(bytes@.take(i + 1) =~= bytes@.take(i as int).push(bytes@[i as int]));
        }
        out.push(bytes[i]);
        i += 1;
        proof {
            assert(out@ =~= old(out)@ + bytes@.take(i as int));
        }
    }
    proof {
        assert(bytes@.take(bytes@.len() as int) =~= bytes@);
    }
}

impl OggOpusEncoder {
    /// Create a new encoder with the given sample rate, channel count, and bitrate.
    pub fn new(sample_rate: u32, channels: u8, bitrate: u32) -> (r: Self)
        ensures
            r == (OggOpusEncoder { sample_rate, channels, bitrate }),
    {
        OggOpusEncoder { sample_rate, channels, bitrate }
    }

    /// The channel count that Opus is set up with: mono or stereo, and an error otherwise.
    pub fn opus_channels(&self) -> (r: Result<u8, AudioError>)
        ensures
            r is Ok <==> self.channels == 1 || self.channels == 2,
            r is Ok ==> r->Ok_0 == self.channels,
            r is Err ==> r->Err_0 is Encoding && (r->Err_0)->Encoding_0@
                == "unsupported channel count: "@ + decimal(self.channels as int),
    {
        if self.channels == 1 || self.channels == 2 {
            Ok(self.channels)
        } else {
            Err(
                AudioError::Encoding(
                    concat(
                        "unsupported channel count: ",
                        decimal_u64(self.channels as u64).as_str(),
                    ),
                ),
            )
        }
    }

    /// Build the OpusHead identification header.
    pub fn build_opus_head(&self) -> (r: Vec<u8>)
        ensures
            r@ == opus_head(self.sample_rate, self.channels),
    {
        let mut head: Vec<u8> = Vec::with_capacity(19);
        push_all(&mut head, &[0x4f, 0x70, 0x75, 0x73, 0x48, 0x65, 0x61, 0x64]);
        head.push(1);
        head.push(self.channels);
        head.push(0);
        head.push(0);
        push_le_bytes(&mut head, self.sample_rate);
        head.push(0);
        head.push(0);
        head.push(0);
        proof {
            assert(head@ =~= opus_head(self.sample_rate, self.channels));
        }
        head
    }

    /// Build the OpusTags comment header.
    pub fn build_opus_tags() -> (r: Vec<u8>)
        ensures
            r@ == opus_tags(),
    {
        let mut tags: Vec<u8> = Vec::with_capacity(31);
        push_all(&mut tags, &[0x4f, 0x70, 0x75, 0x73, 0x54, 0x61, 0x67, 0x73]);
        push_le_bytes(&mut tags, 15);
        push_all(
            &mut tags,
            &[
                0x63,
                0x68,
                0x72,
                0x6f,
                0x6e,
                0x69,
                0x63,
                0x6c,
                0x65,
                0x2d,
                0x61,
                0x75,
                0x64,
                0x69,
                0x6f,
            ],
        );
        push_le_bytes(&mut tags, 0);
        proof {
            assert(tags@ =~= opus_tags());
        }
        tags
    }

    /// Cut the samples into whole frames, padding the last one with silence if needed.
    pub fn frames<T: Copy>(samples: &[T], silence: T) -> (r: Vec<Vec<T>>)
        ensures
            r@.len() == frame_count(samples@.len()),
            forall|i: int|
                0 <= i < r@.len() ==> (#[trigger] r@[i])@ == frame_at(samples@, silence, i),
    {
        let mut out: Vec<Vec<T>> = Vec::new();
        let mut offset: usize = 0;
        while offset < samples.len()
            invariant
                offset <= samples.len(),
                offset < samples.len() ==> offset == out@.len() * 960,
                offset == samples.len() ==> out@.len() == frame_count(samples@.len()),
                forall|i: int|
                    0 <= i < out@.len() ==> (#[trigger] out@[i])@ == frame_at(
                        samples@,
                        silence,
                        i,
                    ),
            decreases samples.len() - offset,
        {
            let available: usize = if samples.len() - offset >= FRAME_SIZE {
                FRAME_SIZE
            } else {
                samples.len() - offset
            };
            let mut frame: Vec<T> = Vec::with_capacity(FRAME_SIZE);
            while frame.len() < FRAME_SIZE
                invariant
                    offset < samples.len(),
                    available <= FRAME_SIZE,
                    available == FRAME_SIZE && offset + available <= samples.len() || offset
                        + available == samples.len(),
                    frame@.len() <= FRAME_SIZE,
                    forall|k: int|
                        0 <= k < frame@.len() ==> #[trigger] frame@[k] == (if offset + k
                            < samples@.len() {
                            samples@[offset + k]
                        } else {
                            silence
                        }),
                decreases FRAME_SIZE - frame.len(),
            {
                if frame.len() < available {
                    frame.push(samples[offset + frame.len()]);
                } else {
                    frame.push(silence);
                }
            }
            proof {
                assert(frame@ =~= frame_at(samples@, silence, out@.len() as int));
            }
            out.push(frame);
            offset += available;
        }
        out
    }

    /// The Ogg/Opus file that holds the given encoded packets, one for each frame.
    pub fn mux(&self, packets: Vec<Vec<u8>>) -> (r: Vec<u8>)
        requires
            packets@.len() <= MAX_FRAMES,
            forall|i: int|
                0 <= i < packets@.len() ==> (#[trigger] packets@[i])@.len() <= MAX_PACKET_SIZE,
        ensures
            r@ == ogg_bytes(file_packets(self.sample_rate, self.channels, views(packets@))),
            reads_back(
                r@,
                file_packets(self.sample_rate, self.channels, views(packets@)),
            ),
    {
        let ghost all = file_packets(self.sample_rate, self.channels, views(packets@));
        let mut writer = ogg_writer();
        let head_ok = ogg_write_packet(
            &mut writer,
            self.build_opus_head(),
            STREAM_SERIAL,
            PacketEnd::Page,
            0,
        );
        let tags_ok = ogg_write_packet(
            &mut writer,
            Self::build_opus_tags(),
            STREAM_SERIAL,
            PacketEnd::Page,
            0,
        );
        proof {
            assert(ogg_written(writer) =~= all.take(2));
        }
        let ghost given = packets@;
        let count: usize = packets.len();
        let mut granule: u64 = 0;
        let mut i: usize = 0;
        while i < count
            invariant
                i <= count,
                count == given.len(),
                count <= MAX_FRAMES,
                packets@ == given,
                forall|k: int|
                    0 <= k < given.len() ==> (#[trigger] given[k])@.len() <= MAX_PACKET_SIZE,
                granule == 960 * i,
                all == file_packets(self.sample_rate, self.channels, views(given)),
                ogg_written(writer) == all.take(2 + i),
            decreases count - i,
        {
            granule = granule + FRAME_SIZE as u64;
            let end = if i + 1 == count {
                PacketEnd::Stream
            } else {
                PacketEnd::Packet
            };
            let data = copy_bytes(&packets[i]);
            let ok = ogg_write_packet(&mut writer, data, STREAM_SERIAL, end, granule);
            proof {
                assert(all[2 + i] == audio_packet(views(given), i as int));
                assert(ogg_written(writer) =~= all.take(3 + i));
            }
            i += 1;
        }
        proof {
            assert(all.take(all.len() as int) =~= all);
            assert(complete(all)) by {
                assert forall|k: int| 0 <= k < all.len() implies (#[trigger] all[k]).1
                    == all[0].1 by {
                    if k >= 2 {
                        assert(all[k] == audio_packet(views(given), k - 2));
                    }
                }
                if given.len() > 0 {
                    assert(all.last() == audio_packet(views(given), given.len() - 1));
                }
            }
        }
        ogg_into_bytes(writer)
    }
}

impl OggOpusEncoder {
    /// Whether a codec that was set up can take the samples from one state to the other, and
    /// this is the file, or the error.
    pub open spec fn encoded_as<T, W, C: Fn(W, &[T]) -> (W, Result<Vec<u8>, String>)>(
        self,
        codec: C,
        samples: Seq<T>,
        silence: T,
        before: W,
        after: W,
        r: Result<Vec<u8>, AudioError>,
    ) -> bool {
        exists|packets: Seq<Vec<u8>>, states: Seq<W>|
            {
                &&& #[trigger] encoded_so_far(codec, samples, silence, packets, states)
                &&& states[0] == before
                &&& match r {
                    Ok(bytes) => {
                        let file = file_packets(self.sample_rate, self.channels, views(packets));
                        &&& packets.len() == frame_count(samples.len())
                        &&& states.last() == after
                        &&& bytes@ == ogg_bytes(file)
                        &&& reads_back(bytes@, file)
                    },
                    Err(error) => {
                        &&& packets.len() < frame_count(samples.len())
                        &&& fails_on_frame(
                            codec,
                            samples,
                            silence,
                            packets.len() as int,
                            states.last(),
                            after,
                            error,
                        )
                    },
                }
            }
    }

    /// Encode samples to the bytes of an Ogg/Opus file, frame by frame.
    ///
    /// `set_up` makes a codec of the given channel count and bitrate, and `codec` encodes one
    /// frame. Each takes the codec's state and gives back what it has left, and the last one
    /// comes with the result. The first failure ends the work.
    pub fn encode_to_writer<
        T: Copy,
        W,
        P: Fn(W, u8, u32) -> (W, Result<(), SetUpFailure>),
        C: Fn(W, &[T]) -> (W, Result<Vec<u8>, String>),
    >(&self, samples: &[T], silence: T, state: W, set_up: P, codec: C) -> (r: (
        W,
        Result<Vec<u8>, AudioError>,
    ))
        requires
            frame_count(samples@.len()) <= MAX_FRAMES,
            forall|state: W, channels: u8, bitrate: u32|
                call_requires(set_up, (state, channels, bitrate)),
            forall|state: W, frame: &[T]|
                frame@.len() == FRAME_SIZE ==> call_requires(codec, (state, frame)),
            forall|before: W, frame: &[T], after: W, packet: Vec<u8>| #[trigger]
                call_ensures(codec, (before, frame), (after, Ok(packet))) ==> packet@.len()
                    <= MAX_PACKET_SIZE,
        ensures
            self.channels != 1 && self.channels != 2 ==> r.0 == state && r.1 is Err
                && r.1->Err_0 is Encoding && (r.1->Err_0)->Encoding_0@
                == "unsupported channel count: "@ + decimal(self.channels as int),
            self.channels == 1 || self.channels == 2 ==> exists|
                ready: W,
                set: Result<(), SetUpFailure>,
            |
                {
                    &&& #[trigger] call_ensures(
                        set_up,
                        (state, self.channels, self.bitrate),
                        (ready, set),
                    )
                    &&& match set {
                        Err(failure) => r.0 == ready && r.1 is Err && r.1->Err_0 is Encoding && (
                        r.1->Err_0)->Encoding_0@ == failure.words(),
                        Ok(_) => self.encoded_as(codec, samples@, silence, ready, r.0, r.1),
                    }
                },
    {
        let channels: u8 = match self.opus_channels() {
            Ok(channels) => channels,
            Err(e) => {
                return (state, Err(e));
            },
        };
        let (ready, set) = set_up(state, channels, self.bitrate);
        if let Err(failure) = set {
            return (ready, Err(failure.report()));
        }
        self.encode_frames(samples, silence, ready, codec)
    }

    /// Encode samples with a codec that was set up.
    fn encode_frames<T: Copy, W, C: Fn(W, &[T]) -> (W, Result<Vec<u8>, String>)>(
        &self,
        samples: &[T],
        silence: T,
        state: W,
        codec: C,
    ) -> (r: (W, Result<Vec<u8>, AudioError>))
        requires
            self.channels == 1 || self.channels == 2,
            frame_count(samples@.len()) <= MAX_FRAMES,
            forall|state: W, frame: &[T]|
                frame@.len() == FRAME_SIZE ==> call_requires(codec, (state, frame)),
            forall|before: W, frame: &[T], after: W, packet: Vec<u8>| #[trigger]
                call_ensures(codec, (before, frame), (after, Ok(packet))) ==> packet@.len()
                    <= MAX_PACKET_SIZE,
        ensures
            self.encoded_as(codec, samples@, silence, state, r.0, r.1),
    {
        let frames = Self::frames(samples, silence);
        let mut packets: Vec<Vec<u8>> = Vec::new();
        let ghost mut states: Seq<W> = seq![state];
        let mut current = state;
        let mut i: usize = 0;
        while i < frames.len()
            invariant
                i <= frames@.len(),
                frames@.len() == frame_count(samples@.len()),
                frame_count(samples@.len()) <= MAX_FRAMES,
                self.channels == 1 || self.channels == 2,
                forall|k: int|
                    0 <= k < frames@.len() ==> (#[trigger] frames@[k])@ == frame_at(
                        samples@,
                        silence,
                        k,
                    ),
                forall|state: W, frame: &[T]|
                    frame@.len() == FRAME_SIZE ==> call_requires(codec, (state, frame)),
                forall|before: W, frame: &[T], after: W, packet: Vec<u8>| #[trigger]
                    call_ensures(codec, (before, frame), (after, Ok(packet))) ==> packet@.len()
                        <= MAX_PACKET_SIZE,
                packets@.len() == i,
                states[0] == state,
                states.last() == current,
                encoded_so_far(codec, samples@, silence, packets@, states),
                forall|k: int|
                    0 <= k < packets@.len() ==> (#[trigger] packets@[k])@.len()
                        <= MAX_PACKET_SIZE,
            decreases frames@.len() - i,
        {
            let frame = frames[i].as_slice();
            assert(frame@ == frame_at(samples@, silence, i as int));
            let (next, result) = codec(current, frame);
            assert(encodes(
                codec,
                frame_at(samples@, silence, i as int),
                states.last(),
                next,
                result,
            ));
            match result {
                Err(why) => {
                    let number = decimal_u64(i as u64);
                    let on = concat3("encode frame ", number.as_str(), ": ");
                    let error = AudioError::Encoding(concat(on.as_str(), why.as_str()));
                    assert(fails_on_frame(
                        codec,
                        samples@,
                        silence,
                        i as int,
                        states.last(),
                        next,
                        error,
                    ));
                    return (next, Err(error));
                },
                Ok(packet) => {
                    let ghost before = packets@;
                    let ghost earlier = states;
                    packets.push(packet);
                    proof {
                        states = states.push(next);
                        assert forall|k: int| 0 <= k < packets@.len() implies encodes(
                            codec,
                            frame_at(samples@, silence, k),
                            states[k],
                            states[k + 1],
                            Ok(#[trigger] packets@[k]),
                        ) by {
                            if k < before.len() {
                                assert(packets@[k] == before[k]);
                                assert(states[k] == earlier[k] && states[k + 1] == earlier[k + 1]);
                            }
                        }
                    }
                },
            }
            current = next;
            i += 1;
        }
        let ghost given = packets@;
        let bytes = self.mux(packets);
        assert(encoded_so_far(codec, samples@, silence, given, states));
        (current, Ok(bytes))
    }
}

fn copy_bytes(bytes: &Vec<u8>) -> (r: Vec<u8>)
    ensures
        r@ == bytes@,
{
    let mut out: Vec<u8> = Vec::new();
    push_all(&mut out, bytes.as_slice());
    proof {
        assert(out@ =~= bytes@);
    }
    out
}

/// Whether reading the bytes gives every one of these packets back, and with the last one
/// its granule position.
pub open spec fn reads_back(bytes: Seq<u8>, packets: Seq<Written>) -> bool {
    &&& ogg_packets(bytes).len() == packets.len()
    &&& forall|i: int|
        0 <= i < packets.len() ==> (#[trigger] ogg_packets(bytes)[i]) is Ok
            && ogg_packets(bytes)[i]->Ok_0.0 == packets[i].0
    &&& packets.len() > 0 ==> ogg_packets(bytes).last()->Ok_0.1 == packets.last().3
}

/// Every sample stands in one of the frames, at its own place: sample `j` in frame `j / 960`.
pub proof fn frames_hold_every_sample<T>(samples: Seq<T>, silence: T, j: int)
    requires
        0 <= j < samples.len(),
    ensures
        0 <= j / 960 < frame_count(samples.len()),
        frame_at(samples, silence, j / 960)[j % 960] == samples[j],
{
}

/// No frame is all padding, and only the last one holds any.
pub proof fn only_the_last_frame_is_padded<T>(samples: Seq<T>, silence: T, i: int, k: int)
    requires
        0 <= i < frame_count(samples.len()),
        0 <= k < 960,
    ensures
        i * 960 < samples.len(),
        i + 1 < frame_count(samples.len()) ==> i * 960 + k < samples.len(),
        i * 960 + k >= samples.len() ==> frame_at(samples, silence, i)[k] == silence,
{
}

/// A number is written as four bytes, the lowest first.
pub proof fn a_number_is_four_bytes(n: u32)
    ensures
        le_bytes(n).len() == 4,
        le_bytes(n)[0] + 256 * le_bytes(n)[1] + 65_536 * le_bytes(n)[2] + 16_777_216 * le_bytes(
            n,
        )[3] == n,
{
}

/// The header of a file is nineteen bytes: the signature, version 1, the channels, no pre-skip,
/// the sample rate with its lowest byte first, no gain, and mapping family 0.
pub proof fn a_file_has_its_header(encoder: OggOpusEncoder, r: Vec<u8>)
    requires
        call_ensures(OggOpusEncoder::build_opus_head, (&encoder,), r),
    ensures
        r@.len() == 19,
        r@[0] == 0x4f && r@[1] == 0x70 && r@[2] == 0x75 && r@[3] == 0x73 && r@[4] == 0x48 && r@[5]
            == 0x65 && r@[6] == 0x61 && r@[7] == 0x64,
        r@[8] == 1,
        r@[9] == encoder.channels,
        r@[10] == 0 && r@[11] == 0,
        r@[12] + 256 * r@[13] + 65_536 * r@[14] + 16_777_216 * r@[15] == encoder.sample_rate,
        r@[16] == 0 && r@[17] == 0 && r@[18] == 0,
{
    a_number_is_four_bytes(encoder.sample_rate);
    let le = le_bytes(encoder.sample_rate);
    assert(r@[12] == le[0] && r@[13] == le[1] && r@[14] == le[2] && r@[15] == le[3]);
}

/// Samples are cut into frames of 960, one after the other; only the last is filled up, with
/// silence.
pub proof fn samples_are_cut_into_frames<T: Copy>(samples: &[T], silence: T, r: Vec<Vec<T>>)
    requires
        call_ensures(OggOpusEncoder::frames::<T>, (samples, silence), r),
    ensures
        samples@.len() <= 960 * r@.len() < samples@.len() + 960,
        forall|i: int, k: int|
            0 <= i < r@.len() && 0 <= k < 960 ==> r@[i]@.len() == 960 && #[trigger] r@[i]@[k] == (
            if 960 * i + k < samples@.len() {
                samples@[960 * i + k]
            } else {
                silence
            }),
{
    assert forall|i: int, k: int| 0 <= i < r@.len() && 0 <= k < 960 implies r@[i]@.len() == 960
        && #[trigger] r@[i]@[k] == (if 960 * i + k < samples@.len() {
        samples@[960 * i + k]
    } else {
        silence
    }) by {
        assert(r@[i]@ == frame_at(samples@, silence, i));
    }
}

/// A file is its two headers, each on a page of its own, and then its packets: all in one stream,
/// each at the position of the samples up to its end, and the last one ends the stream.
pub proof fn a_file_is_headers_and_packets(
    encoder: OggOpusEncoder,
    head: Vec<u8>,
    tags: Vec<u8>,
    packets: Seq<Seq<u8>>,
)
    requires
        packets.len() <= 0x7fff_fff0,
        call_ensures(OggOpusEncoder::build_opus_head, (&encoder,), head),
        call_ensures(OggOpusEncoder::build_opus_tags, (), tags),
    ensures
        ({
            let file = file_packets(encoder.sample_rate, encoder.channels, packets);
            &&& file.len() == packets.len() + 2
            &&& file[0].0 == head@ && file[0].1 == 1 && file[0].2 is Page && file[0].3 == 0
            &&& file[1].0 == tags@ && file[1].1 == 1 && file[1].2 is Page && file[1].3 == 0
            &&& forall|i: int|
                0 <= i < packets.len() ==> (#[trigger] file[i + 2]).0 == packets[i] && file[i
                    + 2].1 == 1 && file[i + 2].3 == 960 * (i + 1) && (file[i + 2].2 is Stream
                    <==> i == packets.len() - 1) && (file[i + 2].2 is Packet <==> i
                    < packets.len() - 1)
        }),
{
    let file = file_packets(encoder.sample_rate, encoder.channels, packets);
    assert forall|i: int| 0 <= i < packets.len() implies (#[trigger] file[i + 2]).0 == packets[i]
        && file[i + 2].1 == 1 && file[i + 2].3 == 960 * (i + 1) && (file[i + 2].2 is Stream <==> i
        == packets.len() - 1) && (file[i + 2].2 is Packet <==> i < packets.len() - 1) by {
        assert(file[i + 2] == audio_packet(packets, i));
    }
}

/// A file that was encoded had each of its frames given to the codec once, in order, and holds the
/// packets that those gave; one that failed came to the first frame that the codec refused.
pub proof fn each_frame_is_encoded_once<
    T,
    W,
    C: Fn(W, &[T]) -> (W, Result<Vec<u8>, String>),
>(
    encoder: OggOpusEncoder,
    codec: C,
    samples: Seq<T>,
    silence: T,
    before: W,
    after: W,
    r: Result<Vec<u8>, AudioError>,
)
    requires
        encoder.encoded_as(codec, samples, silence, before, after, r),
    ensures
        exists|packets: Seq<Vec<u8>>, states: Seq<W>, given: Seq<&[T]>|
            {
                &&& #[trigger] states.len() == (#[trigger] packets.len()) + 1
                &&& #[trigger] given.len() == packets.len()
                &&& states[0] == before
                &&& forall|i: int|
                    0 <= i < packets.len() ==> given[i]@ == frame_at(samples, silence, i)
                        && call_ensures(
                        codec,
                        (states[i], given[i]),
                        (states[i + 1], Ok(#[trigger] packets[i])),
                    )
                &&& r is Ok ==> 960 * packets.len() >= samples.len() && 960 * packets.len()
                    < samples.len() + 960 && states[packets.len() as int] == after
                    && r->Ok_0@ == ogg_bytes(
                    file_packets(encoder.sample_rate, encoder.channels, views(packets)),
                )
                &&& r is Err ==> 960 * packets.len() < samples.len() && exists|
                    frame: &[T],
                    why: String,
                |
                    {
                        &&& frame@ == frame_at(samples, silence, packets.len() as int)
                        &&& #[trigger] call_ensures(
                            codec,
                            (states[packets.len() as int], frame),
                            (after, Err(why)),
                        )
                        &&& r->Err_0 is Encoding
                        &&& (r->Err_0)->Encoding_0@ == "encode frame "@ + decimal(
                            packets.len() as int,
                        ) + ": "@ + why@
                    }
            },
{
    let (packets, states) = choose|packets: Seq<Vec<u8>>, states: Seq<W>|
        {
            &&& #[trigger] encoded_so_far(codec, samples, silence, packets, states)
            &&& states[0] == before
            &&& match r {
                Ok(bytes) => {
                    let file = file_packets(encoder.sample_rate, encoder.channels, views(packets));
                    &&& packets.len() == frame_count(samples.len())
                    &&& states.last() == after
                    &&& bytes@ == ogg_bytes(file)
                    &&& reads_back(bytes@, file)
                },
                Err(error) => {
                    &&& packets.len() < frame_count(samples.len())
                    &&& fails_on_frame(
                        codec,
                        samples,
                        silence,
                        packets.len() as int,
                        states.last(),
                        after,
                        error,
                    )
                },
            }
        };
    let given = Seq::new(
        packets.len(),
        |i: int|
            choose|given: &[T]|
                given@ == frame_at(samples, silence, i) && #[trigger] call_ensures(
                    codec,
                    (states[i], given),
                    (states[i + 1], Ok(packets[i])),
                ),
    );
    assert forall|i: int| 0 <= i < packets.len() implies given[i]@ == frame_at(samples, silence, i)
        && call_ensures(
        codec,
        (states[i], given[i]),
        (states[i + 1], Ok(#[trigger] packets[i])),
    ) by {
        assert(encodes(
            codec,
            frame_at(samples, silence, i),
            states[i],
            states[i + 1],
            Ok(packets[i]),
        ));
    }
    assert(states.len() == packets.len() + 1);
    assert(given.len() == packets.len());
    if r is Err {
        let k = packets.len() as int;
        let frame_seq = frame_at(samples, silence, k);
        let why = choose|why: String|
            #[trigger] encodes(codec, frame_seq, states.last(), after, Err(why))
                && r->Err_0 is Encoding && (r->Err_0)->Encoding_0@ == "encode frame "@ + decimal(k)
                + ": "@ + why@;
        let frame = choose|frame: &[T]|
            frame@ == frame_seq && #[trigger] call_ensures(
                codec,
                (states.last(), frame),
                (after, Err(why)),
            );
        assert(states.last() == states[k]);
        assert(call_ensures(codec, (states[k], frame), (after, Err(why))));
    }
}

/// A frame holds 960 samples from its place on, and silence beyond them.
pub proof fn a_frame_holds_its_samples<T>(samples: Seq<T>, silence: T, i: int, k: int)
    requires
        0 <= i,
        0 <= k < 960,
    ensures
        frame_at(samples, silence, i).len() == 960,
        960 * i + k < samples.len() ==> frame_at(samples, silence, i)[k] == samples[960 * i + k],
        960 * i + k >= samples.len() ==> frame_at(samples, silence, i)[k] == silence,
{
}

/// Only one or two channels can be encoded, and a codec that could not be set up is an error that
/// says at which step.
pub proof fn a_codec_is_mono_or_stereo(
    encoder: OggOpusEncoder,
    channels: Result<u8, AudioError>,
    failure: SetUpFailure,
    error: AudioError,
)
    requires
        call_ensures(OggOpusEncoder::opus_channels, (&encoder,), channels),
        call_ensures(SetUpFailure::report, (&failure,), error),
    ensures
        channels is Ok <==> encoder.channels == 1 || encoder.channels == 2,
        channels is Ok ==> channels->Ok_0 == encoder.channels,
        channels is Err ==> channels->Err_0 is Encoding && (channels->Err_0)->Encoding_0@
            == "unsupported channel count: "@ + decimal(encoder.channels as int),
        error is Encoding,
        failure matches SetUpFailure::Create(why) ==> error->Encoding_0@
            == "opus encoder create: "@ + why@,
        failure matches SetUpFailure::Bitrate(why) ==> error->Encoding_0@ == "set bitrate: "@
            + why@,
{
}

/// A codec is set up once, with the channels and the bitrate of the encoder, before any frame.
pub proof fn a_codec_is_set_up_once<
    T: Copy,
    W,
    P: Fn(W, u8, u32) -> (W, Result<(), SetUpFailure>),
    C: Fn(W, &[T]) -> (W, Result<Vec<u8>, String>),
>(
    encoder: &OggOpusEncoder,
    samples: &[T],
    silence: T,
    state: W,
    set_up: P,
    codec: C,
    r: (W, Result<Vec<u8>, AudioError>),
)
    requires
        call_ensures(
            OggOpusEncoder::encode_to_writer::<T, W, P, C>,
            (encoder, samples, silence, state, set_up, codec),
            r,
        ),
    ensures
        encoder.channels != 1 && encoder.channels != 2 ==> r.0 == state && r.1 is Err,
        encoder.channels == 1 || encoder.channels == 2 ==> exists|
            ready: W,
            set: Result<(), SetUpFailure>,
        |
            {
                &&& #[trigger] call_ensures(
                    set_up,
                    (state, encoder.channels, encoder.bitrate),
                    (ready, set),
                )
                &&& set is Err ==> r.0 == ready && r.1 is Err
                &&& set is Ok ==> encoder.encoded_as(
                    codec,
                    samples@,
                    silence,
                    ready,
                    r.0,
                    r.1,
                )
            },
{
}

/// A file of packets is the bytes of its headers and of those packets, and reads back as such.
pub proof fn a_file_reads_back_as_it_was_written(
    encoder: OggOpusEncoder,
    packets: Vec<Vec<u8>>,
    r: Vec<u8>,
)
    requires
        call_ensures(OggOpusEncoder::mux, (&encoder, packets), r),
    ensures
        ({
            let given = Seq::new(packets@.len(), |i: int| packets@[i]@);
            let file = file_packets(encoder.sample_rate, encoder.channels, given);
            &&& r@ == ogg_bytes(file)
            &&& ogg_packets(r@).len() == file.len()
            &&& forall|i: int|
                0 <= i < file.len() ==> (#[trigger] ogg_packets(r@)[i]) is Ok && ogg_packets(
                    r@,
                )[i]->Ok_0.0 == file[i].0
            &&& ogg_packets(r@).last()->Ok_0.1 == file.last().3
        }),
{
    assert(views(packets@) =~= Seq::new(packets@.len(), |i: int| packets@[i]@));
    assert(file_packets(encoder.sample_rate, encoder.channels, views(packets@)).len() > 0);
}

/// An encoder has the settings that it was made with.
pub proof fn an_encoder_has_its_settings(
    sample_rate: u32,
    channels: u8,
    bitrate: u32,
    r: OggOpusEncoder,
)
    requires
        call_ensures(OggOpusEncoder::new, (sample_rate, channels, bitrate), r),
    ensures
        r.sample_rate == sample_rate,
        r.channels == channels,
        r.bitrate == bitrate,
{
}

} // verus!
