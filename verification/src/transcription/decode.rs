//! Reading an Ogg/Opus segment: its headers, its packets, and where its audio begins and ends.

use vstd::prelude::*;
use crate::audio::encoder::{audio_packet, file_packets, opus_head, reads_back, MAX_FRAMES};
use crate::container::{
    ogg_packets, ogg_read_packet, ogg_reader, ogg_unread, OggReader, Read,
};
use crate::text::{concat, concat3, decimal, decimal_u64, owned};
use crate::transcription::TranscriptionError;

verus! {

/// The rate that audio is decoded at.
pub const DECODE_RATE: usize = 16_000;

/// The rate that granule positions and the pre-skip count in.
pub const ENCODE_RATE: usize = 48_000;

/// Max samples libopus can return for one packet at 16 kHz mono (120 ms).
pub const MAX_SAMPLES_PER_PACKET: usize = 1_920;

/// Whether a packet is an OpusHead: long enough to hold the pre-skip, and with the signature.
pub open spec fn is_head(data: Seq<u8>) -> bool {
    data.len() >= 12 && data.take(8) == seq![0x4fu8, 0x70, 0x75, 0x73, 0x48, 0x65, 0x61, 0x64]
}

/// The pre-skip of an OpusHead.
pub open spec fn pre_skip_of(data: Seq<u8>) -> int {
    data[10] + 256 * data[11]
}

/// Whether a result is this decoding error.
pub open spec fn decode_error<T>(r: Result<T, TranscriptionError>, words: Seq<char>) -> bool {
    r is Err && r->Err_0 is Decode && (r->Err_0)->Decode_0@ == words
}

/// Check the first packet of a stream and read its pre-skip (in samples at 48 kHz).
pub fn read_head(data: &[u8]) -> (r: Result<u16, TranscriptionError>)
    ensures
        is_head(data@) ==> r is Ok && r->Ok_0 == pre_skip_of(data@),
        !is_head(data@) ==> decode_error(r, "missing OpusHead"@),
{
    if data.len() >= 12 && data[0] == 0x4f && data[1] == 0x70 && data[2] == 0x75 && data[3] == 0x73
        && data[4] == 0x48 && data[5] == 0x65 && data[6] == 0x61 && data[7] == 0x64 {
        proof {
            assert(data@.take(8) =~= seq![0x4fu8, 0x70, 0x75, 0x73, 0x48, 0x65, 0x61, 0x64]);
        }
        Ok(data[10] as u16 + 256 * data[11] as u16)
    } else {
        proof {
            if is_head(data@) {
                let t = data@.take(8);
                assert(t[0] == 0x4f && t[1] == 0x70 && t[2] == 0x75 && t[3] == 0x73 && t[4] == 0x48
                    && t[5] == 0x65 && t[6] == 0x61 && t[7] == 0x64);
            }
        }
        Err(TranscriptionError::Decode(owned("missing OpusHead")))
    }
}

/// A stream whose headers have been read.
pub struct OpusStream {
    pub reader: OggReader,
    /// Samples to drop at the start, at 48 kHz.
    pub pre_skip: u16,
    /// The granule position of the last packet read.
    pub last_granule: u64,
}

/// Why a stream of these packets cannot be opened, if it cannot.
pub open spec fn opening_fault(packets: Seq<Read>) -> Option<Seq<char>> {
    if packets.len() == 0 {
        Some("empty stream"@)
    } else if packets[0] is Err {
        Some("read OpusHead: "@ + packets[0]->Err_0.words())
    } else if !is_head(packets[0]->Ok_0.0) {
        Some("missing OpusHead"@)
    } else if packets.len() == 1 {
        Some("missing OpusTags"@)
    } else if packets[1] is Err {
        Some("read OpusTags: "@ + packets[1]->Err_0.words())
    } else {
        None
    }
}

/// Whether `r` is what opening a stream of these packets gives.
pub open spec fn opened(packets: Seq<Read>, r: Result<OpusStream, TranscriptionError>) -> bool {
    match opening_fault(packets) {
        Some(words) => decode_error(r, words),
        None => {
            &&& r is Ok
            &&& r->Ok_0.pre_skip == pre_skip_of(packets[0]->Ok_0.0)
            &&& r->Ok_0.last_granule == 0
            &&& r->Ok_0.unread() == packets.skip(2)
        },
    }
}

impl OpusStream {
    /// The packets that have not been read yet.
    pub open spec fn unread(self) -> Seq<Read> {
        ogg_unread(self.reader)
    }

    /// Open a stream: check its OpusHead and skip its OpusTags.
    pub fn open(bytes: Vec<u8>) -> (r: Result<Self, TranscriptionError>)
        ensures
            opened(ogg_packets(bytes@), r),
    {
        let ghost packets = ogg_packets(bytes@);
        let mut reader = ogg_reader(bytes);
        let head = match ogg_read_packet(&mut reader) {
            Ok(Some(packet)) => packet,
            Ok(None) => {
                return Err(TranscriptionError::Decode(owned("empty stream")));
            },
            Err(fault) => {
                return Err(TranscriptionError::Decode(concat("read OpusHead: ", fault.describe())));
            },
        };
        let pre_skip = match read_head(head.0.as_slice()) {
            Ok(pre_skip) => pre_skip,
            Err(e) => {
                return Err(e);
            },
        };
        match ogg_read_packet(&mut reader) {
            Ok(Some(_)) => {},
            Ok(None) => {
                return Err(TranscriptionError::Decode(owned("missing OpusTags")));
            },
            Err(fault) => {
                return Err(TranscriptionError::Decode(concat("read OpusTags: ", fault.describe())));
            },
        }
        proof {
            assert(packets.drop_first().drop_first() =~= packets.skip(2));
        }
        Ok(OpusStream { reader, pre_skip, last_granule: 0 })
    }

    /// The next audio packet, if there is one.
    pub fn next_packet(&mut self) -> (r: Result<Option<Vec<u8>>, TranscriptionError>)
        ensures
            final(self).pre_skip == old(self).pre_skip,
            old(self).unread().len() == 0 ==> {
                &&& r is Ok && r->Ok_0 is None
                &&& final(self).unread() == old(self).unread()
                &&& final(self).last_granule == old(self).last_granule
            },
            old(self).unread().len() > 0 && old(self).unread()[0] is Ok ==> {
                &&& r is Ok && r->Ok_0 is Some
                &&& r->Ok_0->0@ == old(self).unread()[0]->Ok_0.0
                &&& final(self).last_granule == old(self).unread()[0]->Ok_0.1
                &&& final(self).unread() == old(self).unread().drop_first()
            },
            old(self).unread().len() > 0 && old(self).unread()[0] is Err ==> decode_error(
                r,
                "read packet: "@ + old(self).unread()[0]->Err_0.words(),
            ) && final(self).last_granule == old(self).last_granule,
    {
        match ogg_read_packet(&mut self.reader) {
            Ok(Some(packet)) => {
                self.last_granule = packet.1;
                Ok(Some(packet.0))
            },
            Ok(None) => Ok(None),
            Err(fault) => Err(
                TranscriptionError::Decode(concat("read packet: ", fault.describe())),
            ),
        }
    }

    /// The decoded audio, without what comes before its start and after its end.
    pub fn finish<T: Copy>(self, pcm: Vec<T>) -> (r: Vec<T>)
        ensures
            r@ == audible(pcm@, self.pre_skip as nat, self.last_granule as nat),
    {
        trim_pcm(pcm, self.pre_skip, self.last_granule)
    }
}

/// What is said of a sample count that the decode buffer cannot hold.
pub open spec fn excess_words(n: int) -> Seq<char> {
    "decode returned "@ + decimal(n) + " samples (buffer holds "@ + decimal(
        MAX_SAMPLES_PER_PACKET as int,
    ) + ")"@
}

/// Reject a sample count that the decode buffer cannot hold: a decoder that casts an error
/// code returns such a one.
pub fn check_decoded(n: usize) -> (r: Result<(), TranscriptionError>)
    ensures
        n <= MAX_SAMPLES_PER_PACKET ==> r is Ok,
        n > MAX_SAMPLES_PER_PACKET ==> decode_error(r, excess_words(n as int)),
{
    if n > MAX_SAMPLES_PER_PACKET {
        let got = concat3(
            "decode returned ",
            decimal_u64(n as u64).as_str(),
            " samples (buffer holds ",
        );
        Err(
            TranscriptionError::Decode(
                concat3(got.as_str(), decimal_u64(MAX_SAMPLES_PER_PACKET as u64).as_str(), ")"),
            ),
        )
    } else {
        Ok(())
    }
}

/// How many samples at 16 kHz the last granule position leaves after the pre-skip.
pub open spec fn granule_length(pre_skip: nat, last_granule: nat) -> int {
    if last_granule <= pre_skip {
        0
    } else {
        (last_granule - pre_skip) / 3
    }
}

/// The audio of a stream: without its pre-skip, and no longer than its last granule position
/// says, if that says anything.
pub open spec fn audible<T>(pcm: Seq<T>, pre_skip: nat, last_granule: nat) -> Seq<T> {
    let skip = pre_skip * DECODE_RATE / ENCODE_RATE as int;
    let rest = if skip >= pcm.len() {
        Seq::empty()
    } else {
        pcm.skip(skip)
    };
    let length = granule_length(pre_skip, last_granule);
    if length > 0 && rest.len() > length {
        rest.take(length)
    } else {
        rest
    }
}

/// Drop the pre-skip and clamp the tail to the granule position. A page on which no packet
/// completes carries the largest granule position there is, so it is divided, never
/// multiplied.
pub fn trim_pcm<T: Copy>(pcm: Vec<T>, pre_skip: u16, last_granule: u64) -> (r: Vec<T>)
    ensures
        r@ == audible(pcm@, pre_skip as nat, last_granule as nat),
{
    proof {
        assert(pre_skip * DECODE_RATE == pre_skip * 16_000) by (nonlinear_arith)
            requires
                DECODE_RATE == 16_000,
        ;
    }
    let ahead: u64 = pre_skip as u64 * DECODE_RATE as u64 / ENCODE_RATE as u64;
    let skip: usize = ahead as usize;
    let length: u64 = last_granule.saturating_sub(pre_skip as u64) / 3;
    let start: usize = if skip < pcm.len() {
        skip
    } else {
        pcm.len()
    };
    let rest: usize = pcm.len() - start;
    let end: usize = if length > 0 && rest as u64 > length {
        start + length as usize
    } else {
        pcm.len()
    };
    let r = crate::text::slice_range(pcm.as_slice(), start, end);
    proof {
        assert(length == granule_length(pre_skip as nat, last_granule as nat));
        assert(r@ =~= audible(pcm@, pre_skip as nat, last_granule as nat));
    }
    r
}

/// What a decoder gives for a packet: the samples, and how many it says there are.
pub struct Decoded<T> {
    pub samples: Vec<T>,
    pub count: usize,
}

/// Whether the decoder can give this for a packet, and go from one state to the other by it.
pub open spec fn decodes<T, W, D: Fn(W, &[u8]) -> (W, Result<Decoded<T>, String>)>(
    decode: D,
    packet: Seq<u8>,
    before: W,
    after: W,
    r: Result<Decoded<T>, String>,
) -> bool {
    exists|given: &[u8]|
        given@ == packet && #[trigger] call_ensures(decode, (before, given), (after, r))
}

/// Whether the decoder was given the first of the packets, each once and in order, and gave
/// these: `states` has its state at first, and after each of them.
pub open spec fn decoded_so_far<T, W, D: Fn(W, &[u8]) -> (W, Result<Decoded<T>, String>)>(
    decode: D,
    packets: Seq<Read>,
    chunks: Seq<Decoded<T>>,
    states: Seq<W>,
) -> bool {
    &&& chunks.len() <= packets.len()
    &&& states.len() == chunks.len() + 1
    &&& forall|i: int|
        0 <= i < chunks.len() ==> {
            &&& (#[trigger] packets[i]) is Ok
            &&& decodes(decode, packets[i]->Ok_0.0, states[i], states[i + 1], Ok(chunks[i]))
            &&& chunks[i].count <= MAX_SAMPLES_PER_PACKET
        }
}

/// The samples of all chunks, one after the other.
pub open spec fn pcm_of<T>(chunks: Seq<Decoded<T>>) -> Seq<T>
    decreases chunks.len(),
{
    if chunks.len() == 0 {
        Seq::empty()
    } else {
        pcm_of(chunks.drop_last()) + chunks.last().samples@
    }
}

/// The granule position of the last packet; none before the first.
pub open spec fn granule_after(packets: Seq<Read>, n: int) -> u64 {
    if n == 0 {
        0
    } else {
        packets[n - 1]->Ok_0.1
    }
}

/// Whether decoding ends on this packet, with an error in these words, and the decoder goes
/// from one state to the other by it. It is not asked for a packet that could not be read.
pub open spec fn fails_on_packet<T, W, D: Fn(W, &[u8]) -> (W, Result<Decoded<T>, String>)>(
    decode: D,
    packet: Read,
    before: W,
    after: W,
    words: Seq<char>,
) -> bool {
    match packet {
        Err(fault) => after == before && words == "read packet: "@ + fault.words(),
        Ok((data, _)) => {
            ||| exists|why: String|
                #[trigger] decodes(decode, data, before, after, Err::<Decoded<T>, String>(why))
                    && words == "decode: "@ + why@
            ||| exists|chunk: Decoded<T>| #[trigger]
                decodes(decode, data, before, after, Ok::<Decoded<T>, String>(chunk))
                    && chunk.count > MAX_SAMPLES_PER_PACKET && words == excess_words(
                    chunk.count as int,
                )
        },
    }
}

/// Whether a decoder that was created can take a stream with this pre-skip and these audio
/// packets from one state to the other, and this is the audio, or the error.
pub open spec fn decoded_as<T, W, D: Fn(W, &[u8]) -> (W, Result<Decoded<T>, String>)>(
    decode: D,
    pre_skip: int,
    audio: Seq<Read>,
    before: W,
    after: W,
    r: Result<Vec<T>, TranscriptionError>,
) -> bool {
    exists|chunks: Seq<Decoded<T>>, states: Seq<W>|
        {
            &&& #[trigger] decoded_so_far(decode, audio, chunks, states)
            &&& states[0] == before
            &&& match r {
                Ok(pcm) => {
                    &&& chunks.len() == audio.len()
                    &&& states.last() == after
                    &&& pcm@ == audible(
                        pcm_of(chunks),
                        pre_skip as nat,
                        granule_after(audio, audio.len() as int) as nat,
                    )
                },
                Err(error) => {
                    &&& chunks.len() < audio.len()
                    &&& error is Decode
                    &&& fails_on_packet(
                        decode,
                        audio[chunks.len() as int],
                        states.last(),
                        after,
                        error->Decode_0@,
                    )
                },
            }
        }
}

impl OpusStream {
    /// Decode the audio packets that have not been read yet.
    fn decode_all<T: Copy, W, D: Fn(W, &[u8]) -> (W, Result<Decoded<T>, String>)>(
        self,
        state: W,
        decode: D,
    ) -> (r: (W, Result<Vec<T>, TranscriptionError>))
        requires
            self.last_granule == 0,
            forall|state: W, packet: &[u8]| call_requires(decode, (state, packet)),
        ensures
            decoded_as(decode, self.pre_skip as int, self.unread(), state, r.0, r.1),
    {
        let ghost audio = self.unread();
        let mut stream = self;
        let mut pcm: Vec<T> = Vec::new();
        let ghost mut chunks: Seq<Decoded<T>> = Seq::empty();
        let ghost mut states: Seq<W> = seq![state];
        let mut current = state;
        proof {
            assert(audio.skip(0) =~= audio);
        }
        loop
            invariant
                audio == self.unread(),
                forall|state: W, packet: &[u8]| call_requires(decode, (state, packet)),
                stream.pre_skip == self.pre_skip,
                decoded_so_far(decode, audio, chunks, states),
                states[0] == state,
                states.last() == current,
                stream.unread() == audio.skip(chunks.len() as int),
                stream.last_granule == granule_after(audio, chunks.len() as int),
                pcm@ == pcm_of(chunks),
            decreases stream.unread().len(),
        {
            let ghost done = chunks.len() as int;
            assert(done < audio.len() ==> audio.skip(done)[0] == audio[done]);
            let packet = match stream.next_packet() {
                Ok(Some(packet)) => packet,
                Ok(None) => {
                    return (current, Ok(stream.finish(pcm)));
                },
                Err(e) => {
                    return (current, Err(e));
                },
            };
            let (next, result) = decode(current, packet.as_slice());
            assert(decodes(decode, audio[done]->Ok_0.0, states.last(), next, result));
            match result {
                Err(why) => {
                    let error = TranscriptionError::Decode(concat("decode: ", why.as_str()));
                    return (next, Err(error));
                },
                Ok(chunk) => {
                    if let Err(e) = check_decoded(chunk.count) {
                        return (next, Err(e));
                    }
                    let mut samples = chunk.samples;
                    pcm.append(&mut samples);
                    proof {
                        let before = chunks;
                        let earlier = states;
                        chunks = chunks.push(chunk);
                        states = states.push(next);
                        assert(chunks.drop_last() =~= before);
                        assert(audio.skip(done).drop_first() =~= audio.skip(done + 1));
                        assert(audio[done] is Ok);
                        assert forall|i: int| 0 <= i < chunks.len() implies (
                        #[trigger] audio[i]) is Ok && decodes(
                            decode,
                            audio[i]->Ok_0.0,
                            states[i],
                            states[i + 1],
                            Ok(chunks[i]),
                        ) && chunks[i].count <= MAX_SAMPLES_PER_PACKET by {
                            if i < done {
                                assert(chunks[i] == before[i]);
                                assert(states[i] == earlier[i] && states[i + 1] == earlier[i + 1]);
                            }
                        }
                    }
                },
            }
            current = next;
        }
    }
}

/// Decode the bytes of an Ogg/Opus file to its audio.
///
/// `create` makes the decoder, once the headers have been read, and `decode` decodes one packet.
/// Each takes the decoder's state and gives back what it has left, and the last one comes with
/// the result. A fault of the file or of the decoder ends the work.
pub fn decode_opus_16k_mono<
    T: Copy,
    W,
    M: Fn(W) -> (W, Result<(), String>),
    D: Fn(W, &[u8]) -> (W, Result<Decoded<T>, String>),
>(bytes: Vec<u8>, state: W, create: M, decode: D) -> (r: (W, Result<Vec<T>, TranscriptionError>))
    requires
        forall|state: W| call_requires(create, (state,)),
        forall|state: W, packet: &[u8]| call_requires(decode, (state, packet)),
    ensures
        ({
            let packets = ogg_packets(bytes@);
            match opening_fault(packets) {
                Some(words) => r.0 == state && decode_error(r.1, words),
                None => exists|ready: W, created: Result<(), String>|
                    {
                        &&& #[trigger] call_ensures(create, (state,), (ready, created))
                        &&& match created {
                            Err(why) => r.0 == ready && decode_error(
                                r.1,
                                "decoder create: "@ + why@,
                            ),
                            Ok(_) => decoded_as(
                                decode,
                                pre_skip_of(packets[0]->Ok_0.0),
                                packets.skip(2),
                                ready,
                                r.0,
                                r.1,
                            ),
                        }
                    },
            }
        }),
{
    let stream = match OpusStream::open(bytes) {
        Ok(stream) => stream,
        Err(e) => {
            return (state, Err(e));
        },
    };
    let (ready, created) = create(state);
    if let Err(why) = created {
        let error = TranscriptionError::Decode(concat("decoder create: ", why.as_str()));
        return (ready, Err(error));
    }
    stream.decode_all(ready, decode)
}

/// A file that the encoder has made reads back: its headers are accepted, nothing is skipped,
/// its packets come out as they went in, and its last granule position is that of a whole
/// number of frames.
pub proof fn an_encoded_file_reads_back(
    bytes: Seq<u8>,
    sample_rate: u32,
    channels: u8,
    packets: Seq<Seq<u8>>,
    stream: Result<OpusStream, TranscriptionError>,
)
    requires
        packets.len() <= MAX_FRAMES,
        reads_back(bytes, file_packets(sample_rate, channels, packets)),
        opened(ogg_packets(bytes), stream),
    ensures
        stream is Ok,
        stream->Ok_0.pre_skip == 0,
        stream->Ok_0.unread().len() == packets.len(),
        forall|i: int|
            0 <= i < packets.len() ==> (#[trigger] stream->Ok_0.unread()[i]) is Ok
                && stream->Ok_0.unread()[i]->Ok_0.0 == packets[i],
        packets.len() > 0 ==> stream->Ok_0.unread().last()->Ok_0.1 == 960 * packets.len(),
{
    let all = file_packets(sample_rate, channels, packets);
    let read = ogg_packets(bytes);
    assert(read[0]->Ok_0.0 == all[0].0);
    assert(read[1] is Ok);
    let head = opus_head(sample_rate, channels);
    assert(head.take(8) =~= seq![0x4fu8, 0x70, 0x75, 0x73, 0x48, 0x65, 0x61, 0x64]);
    assert(is_head(head));
    assert(pre_skip_of(head) == 0);
    assert forall|i: int| 0 <= i < packets.len() implies (#[trigger] read.skip(2)[i]) is Ok
        && read.skip(2)[i]->Ok_0.0 == packets[i] by {
        assert(read.skip(2)[i] == read[i + 2]);
        assert(all[i + 2] == audio_packet(packets, i));
    }
    if packets.len() > 0 {
        assert(all.last() == audio_packet(packets, packets.len() - 1));
        assert(read.skip(2).last() == read.last());
    }
}

/// The granule position never shortens a file of our own: when every packet decodes to a
/// whole frame at 16 kHz, all of the audio stays.
pub proof fn own_segments_are_never_clamped<T>(pcm: Seq<T>, packets: nat)
    requires
        pcm.len() == 320 * packets,
    ensures
        audible(pcm, 0, 960 * packets) == pcm,
{
    assert(pcm.skip(0) =~= pcm);
    assert(audible(pcm, 0, 960 * packets) =~= pcm);
}

proof fn lemma_pcm_len<T>(chunks: Seq<Decoded<T>>)
    requires
        forall|i: int| 0 <= i < chunks.len() ==> (#[trigger] chunks[i]).samples@.len() == 320,
    ensures
        pcm_of(chunks).len() == 320 * chunks.len(),
    decreases chunks.len(),
{
    if chunks.len() > 0 {
        lemma_pcm_len(chunks.drop_last());
    }
}

/// A segment comes back whole: the decoder is handed the packets that the encoder wrote, one
/// by one, and when each of them gives a whole frame at 16 kHz, all of it is kept.
pub proof fn a_segment_comes_back_whole<
    T,
    W,
    D: Fn(W, &[u8]) -> (W, Result<Decoded<T>, String>),
>(
    bytes: Seq<u8>,
    sample_rate: u32,
    channels: u8,
    packets: Seq<Seq<u8>>,
    decode: D,
    chunks: Seq<Decoded<T>>,
    states: Seq<W>,
)
    requires
        packets.len() <= MAX_FRAMES,
        reads_back(bytes, file_packets(sample_rate, channels, packets)),
        decoded_so_far(decode, ogg_packets(bytes).skip(2), chunks, states),
        chunks.len() == ogg_packets(bytes).skip(2).len(),
        forall|i: int| 0 <= i < chunks.len() ==> (#[trigger] chunks[i]).samples@.len() == 320,
    ensures
        opening_fault(ogg_packets(bytes)) is None,
        chunks.len() == packets.len(),
        forall|i: int|
            0 <= i < packets.len() ==> decodes(
                decode,
                #[trigger] packets[i],
                states[i],
                states[i + 1],
                Ok(chunks[i]),
            ),
        audible(
            pcm_of(chunks),
            pre_skip_of(ogg_packets(bytes)[0]->Ok_0.0) as nat,
            granule_after(ogg_packets(bytes).skip(2), chunks.len() as int) as nat,
        ) == pcm_of(chunks),
{
    let all = file_packets(sample_rate, channels, packets);
    let read = ogg_packets(bytes);
    let audio = read.skip(2);
    let head = opus_head(sample_rate, channels);
    assert(read[0]->Ok_0.0 == all[0].0);
    assert(read[1] is Ok);
    assert(head.take(8) =~= seq![0x4fu8, 0x70, 0x75, 0x73, 0x48, 0x65, 0x61, 0x64]);
    assert(is_head(head));
    assert(pre_skip_of(head) == 0);
    assert forall|i: int| 0 <= i < packets.len() implies decodes(
        decode,
        #[trigger] packets[i],
        states[i],
        states[i + 1],
        Ok(chunks[i]),
    ) by {
        assert(audio[i] == read[i + 2]);
        assert(all[i + 2] == audio_packet(packets, i));
    }
    lemma_pcm_len(chunks);
    if packets.len() > 0 {
        assert(all.last() == audio_packet(packets, packets.len() - 1));
        assert(audio.last() == read.last());
    }
    own_segments_are_never_clamped(pcm_of(chunks), packets.len());
}

/// What comes out of a stream is a part of what was decoded, in order.
pub proof fn trimming_only_removes<T>(pcm: Seq<T>, pre_skip: nat, last_granule: nat)
    ensures
        exists|start: int, end: int|
            0 <= start <= end <= pcm.len() && audible(pcm, pre_skip, last_granule)
                == #[trigger] pcm.subrange(start, end),
{
    let out = audible(pcm, pre_skip, last_granule);
    let skip = pre_skip * DECODE_RATE / ENCODE_RATE as int;
    let start = if skip >= pcm.len() {
        pcm.len() as int
    } else {
        skip
    };
    assert(out =~= pcm.subrange(start, start + out.len()));
}

/// A stream begins with a header that says so, and that tells how many samples come before its
/// start, the low byte first.
pub proof fn a_head_tells_what_comes_before_the_start(data: &[u8], r: Result<u16, TranscriptionError>)
    requires
        call_ensures(read_head, (data,), r),
    ensures
        r is Ok <==> data@.len() >= 12 && data@[0] == 0x4f && data@[1] == 0x70 && data@[2] == 0x75
            && data@[3] == 0x73 && data@[4] == 0x48 && data@[5] == 0x65 && data@[6] == 0x61
            && data@[7] == 0x64,
        r is Ok ==> r->Ok_0 == data@[10] + 256 * data@[11],
{
    let magic = seq![0x4fu8, 0x70, 0x75, 0x73, 0x48, 0x65, 0x61, 0x64];
    if data@.len() >= 12 {
        let head = data@.take(8);
        if head == magic {
            assert(head[0] == magic[0] && head[1] == magic[1] && head[2] == magic[2] && head[3]
                == magic[3] && head[4] == magic[4] && head[5] == magic[5] && head[6] == magic[6]
                && head[7] == magic[7]);
        } else if data@[0] == 0x4f && data@[1] == 0x70 && data@[2] == 0x75 && data@[3] == 0x73
            && data@[4] == 0x48 && data@[5] == 0x65 && data@[6] == 0x61 && data@[7] == 0x64 {
            assert(head =~= magic);
        }
    }
}

/// What is decoded loses a third of the pre-skip at its start, for three samples at 48 kHz are one
/// at 16 kHz, and what goes beyond the last granule position at its end, if that says anything.
/// Nothing else is lost, and nothing moves.
pub proof fn audio_is_trimmed_to_its_granules<T: Copy>(
    pcm: Vec<T>,
    pre_skip: u16,
    last_granule: u64,
    r: Vec<T>,
)
    requires
        call_ensures(trim_pcm::<T>, (pcm, pre_skip, last_granule), r),
    ensures
        ({
            let skip = pre_skip as int / 3;
            let rest = if skip < pcm@.len() {
                pcm@.len() - skip
            } else {
                0
            };
            let length = if last_granule > pre_skip {
                (last_granule - pre_skip) / 3
            } else {
                0
            };
            &&& r@.len() == (if 0 < length < rest {
                length
            } else {
                rest
            })
            &&& forall|i: int| 0 <= i < r@.len() ==> #[trigger] r@[i] == pcm@[skip + i]
        }),
{
    assert(pre_skip * DECODE_RATE == pre_skip * 16_000) by (nonlinear_arith)
        requires
            DECODE_RATE == 16_000,
    ;
    assert(pre_skip * 16_000 / 48_000 == pre_skip as int / 3);
}

/// A packet that decodes to more samples than 120 milliseconds hold is refused.
pub proof fn a_packet_holds_so_many_samples(n: usize, r: Result<(), TranscriptionError>)
    requires
        call_ensures(check_decoded, (n,), r),
    ensures
        r is Ok <==> n <= 1_920,
        r is Err ==> r->Err_0 is Decode && (r->Err_0)->Decode_0@ == "decode returned "@ + decimal(
            n as int,
        ) + " samples (buffer holds "@ + decimal(1_920) + ")"@,
{
}

/// A stream is opened if its first packet is a header and a second one follows; what is wrong
/// with it is told by the first of them that is not as it should be.
pub proof fn a_stream_needs_its_two_headers(packets: Seq<Read>)
    ensures
        packets.len() == 0 ==> opening_fault(packets) == Some("empty stream"@),
        packets.len() > 0 && packets[0] is Err ==> opening_fault(packets) == Some(
            "read OpusHead: "@ + packets[0]->Err_0.words(),
        ),
        packets.len() > 0 && packets[0] is Ok && !is_head(packets[0]->Ok_0.0) ==> opening_fault(
            packets,
        ) == Some("missing OpusHead"@),
        packets.len() == 1 && packets[0] is Ok && is_head(packets[0]->Ok_0.0) ==> opening_fault(
            packets,
        ) == Some("missing OpusTags"@),
        packets.len() > 1 && packets[0] is Ok && is_head(packets[0]->Ok_0.0) && packets[1] is Err
            ==> opening_fault(packets) == Some("read OpusTags: "@ + packets[1]->Err_0.words()),
        packets.len() > 1 && packets[0] is Ok && is_head(packets[0]->Ok_0.0) && packets[1] is Ok
            ==> opening_fault(packets) is None,
{
}

/// The packets after the headers are handed out one by one, as they were read.
pub proof fn a_stream_hands_out_its_packets(r: Result<Option<Vec<u8>>, TranscriptionError>)
    ensures
        forall|stream: &mut OpusStream|
            #[trigger] call_ensures(OpusStream::next_packet, (stream,), r) ==> {
                let ahead = ogg_unread((*stream).reader);
                &&& (*final(stream)).pre_skip == (*stream).pre_skip
                &&& ahead.len() == 0 ==> r is Ok && r->Ok_0 is None && (*final(
                    stream
                )).last_granule == (*stream).last_granule
                &&& ahead.len() > 0 && ahead[0] is Ok ==> r is Ok && r->Ok_0 is Some
                    && r->Ok_0->0@ == ahead[0]->Ok_0.0 && (*final(stream)).last_granule
                    == ahead[0]->Ok_0.1 && ogg_unread((*final(stream)).reader)
                    == ahead.drop_first()
                &&& ahead.len() > 0 && ahead[0] is Err ==> r is Err
            },
{
}

/// The decoded audio is that of all packets, one after the other.
pub proof fn the_audio_of_packets_adjoins<T>(
    a: Seq<Decoded<T>>,
    b: Seq<Decoded<T>>,
    chunk: Decoded<T>,
)
    ensures
        pcm_of(a + b) == pcm_of(a) + pcm_of(b),
        pcm_of(Seq::<Decoded<T>>::empty()).len() == 0,
        pcm_of(seq![chunk]) == chunk.samples@,
    decreases b.len(),
{
    let one = seq![chunk];
    assert(one.drop_last() =~= Seq::<Decoded<T>>::empty());
    assert(one.last() == chunk);
    assert(pcm_of(Seq::<Decoded<T>>::empty()) =~= Seq::<T>::empty());
    assert(Seq::<T>::empty() + chunk.samples@ =~= chunk.samples@);
    if b.len() == 0 {
        assert(a + b =~= a);
        assert(pcm_of(a) + pcm_of(b) =~= pcm_of(a));
    } else {
        the_audio_of_packets_adjoins(a, b.drop_last(), chunk);
        assert((a + b).drop_last() =~= a + b.drop_last());
        assert(pcm_of(a + b) =~= pcm_of(a) + pcm_of(b));
    }
}

/// The last granule position is that of the last packet.
pub proof fn the_last_granule_is_that_of_the_last_packet(packets: Seq<Read>)
    ensures
        packets.len() == 0 ==> granule_after(packets, packets.len() as int) == 0,
        packets.len() > 0 ==> granule_after(packets, packets.len() as int)
            == packets[packets.len() - 1]->Ok_0.1,
{
}

/// A file that was decoded had each of its packets given to the decoder once, in order, and its
/// audio is what those gave, trimmed.
pub proof fn each_packet_is_decoded_once<
    T,
    W,
    D: Fn(W, &[u8]) -> (W, Result<Decoded<T>, String>),
>(decode: D, pre_skip: int, audio: Seq<Read>, before: W, after: W, pcm: Vec<T>)
    requires
        decoded_as(decode, pre_skip, audio, before, after, Ok(pcm)),
    ensures
        exists|chunks: Seq<Decoded<T>>, states: Seq<W>, given: Seq<&[u8]>|
            {
                &&& #[trigger] chunks.len() == audio.len()
                &&& #[trigger] states.len() == audio.len() + 1
                &&& #[trigger] given.len() == audio.len()
                &&& states[0] == before
                &&& states[audio.len() as int] == after
                &&& forall|i: int|
                    0 <= i < audio.len() ==> (#[trigger] audio[i]) is Ok && given[i]@
                        == audio[i]->Ok_0.0 && call_ensures(
                        decode,
                        (states[i], given[i]),
                        (states[i + 1], Ok(chunks[i])),
                    ) && chunks[i].count <= 1_920
                &&& pcm@ == audible(
                    pcm_of(chunks),
                    pre_skip as nat,
                    granule_after(audio, audio.len() as int) as nat,
                )
            },
{
    let (chunks, states) = choose|chunks: Seq<Decoded<T>>, states: Seq<W>|
        {
            &&& #[trigger] decoded_so_far(decode, audio, chunks, states)
            &&& states[0] == before
            &&& chunks.len() == audio.len()
            &&& states.last() == after
            &&& pcm@ == audible(
                pcm_of(chunks),
                pre_skip as nat,
                granule_after(audio, audio.len() as int) as nat,
            )
        };
    let given = Seq::new(
        audio.len(),
        |i: int|
            choose|given: &[u8]|
                given@ == audio[i]->Ok_0.0 && #[trigger] call_ensures(
                    decode,
                    (states[i], given),
                    (states[i + 1], Ok(chunks[i])),
                ),
    );
    assert forall|i: int| 0 <= i < audio.len() implies (#[trigger] audio[i]) is Ok && given[i]@
        == audio[i]->Ok_0.0 && call_ensures(
        decode,
        (states[i], given[i]),
        (states[i + 1], Ok(chunks[i])),
    ) && chunks[i].count <= 1_920 by {
        assert(decodes(decode, audio[i]->Ok_0.0, states[i], states[i + 1], Ok(chunks[i])));
    }
    assert(chunks.len() == audio.len());
    assert(states.len() == audio.len() + 1);
    assert(given.len() == audio.len());
}

/// A decoding ends at the first packet that cannot be read or decoded, with what was wrong with
/// it.
pub proof fn a_decoding_ends_at_the_first_fault<
    T,
    W,
    D: Fn(W, &[u8]) -> (W, Result<Decoded<T>, String>),
>(decode: D, packet: Read, before: W, after: W, words: Seq<char>)
    requires
        fails_on_packet(decode, packet, before, after, words),
    ensures
        packet is Err ==> after == before && words == "read packet: "@ + packet->Err_0.words(),
        packet is Ok ==> exists|given: &[u8], r: Result<Decoded<T>, String>|
            {
                &&& given@ == packet->Ok_0.0
                &&& #[trigger] call_ensures(decode, (before, given), (after, r))
                &&& r is Err ==> words == "decode: "@ + r->Err_0@
                &&& r is Ok ==> r->Ok_0.count > 1_920
            },
{
    if packet is Ok {
        let data = packet->Ok_0.0;
        if exists|why: String|
            #[trigger] decodes(decode, data, before, after, Err::<Decoded<T>, String>(why))
                && words == "decode: "@ + why@ {
            let why = choose|why: String|
                #[trigger] decodes(decode, data, before, after, Err::<Decoded<T>, String>(why))
                    && words == "decode: "@ + why@;
            let r = Err::<Decoded<T>, String>(why);
            let given = choose|given: &[u8]|
                given@ == data && #[trigger] call_ensures(decode, (before, given), (after, r));
            assert(call_ensures(decode, (before, given), (after, r)));
        } else {
            let chunk = choose|chunk: Decoded<T>| #[trigger]
                decodes(decode, data, before, after, Ok::<Decoded<T>, String>(chunk))
                    && chunk.count > MAX_SAMPLES_PER_PACKET && words == excess_words(
                    chunk.count as int,
                );
            let r = Ok::<Decoded<T>, String>(chunk);
            let given = choose|given: &[u8]|
                given@ == data && #[trigger] call_ensures(decode, (before, given), (after, r));
            assert(call_ensures(decode, (before, given), (after, r)));
        }
    }
}

/// A file is decoded as the laws on its packets say: its headers come first, then the decoder, then
/// the audio.
pub proof fn a_file_is_decoded_headers_first<
    T: Copy,
    W,
    M: Fn(W) -> (W, Result<(), String>),
    D: Fn(W, &[u8]) -> (W, Result<Decoded<T>, String>),
>(
    bytes: Vec<u8>,
    state: W,
    create: M,
    decode: D,
    r: (W, Result<Vec<T>, TranscriptionError>),
    stream: Result<OpusStream, TranscriptionError>,
)
    requires
        call_ensures(
            decode_opus_16k_mono::<T, W, M, D>,
            (bytes, state, create, decode),
            r,
        ),
        call_ensures(OpusStream::open, (bytes,), stream),
    ensures
        ({
            let packets = ogg_packets(bytes@);
            &&& stream is Ok <==> opening_fault(packets) is None
            &&& stream is Ok ==> stream->Ok_0.pre_skip == packets[0]->Ok_0.0[10] + 256
                * packets[0]->Ok_0.0[11] && stream->Ok_0.last_granule == 0 && ogg_unread(
                stream->Ok_0.reader,
            ) == packets.skip(2)
            &&& stream is Err ==> stream->Err_0 is Decode && (stream->Err_0)->Decode_0@
                == opening_fault(packets)->0
            &&& stream is Err ==> r.0 == state && r.1 is Err && r.1->Err_0 is Decode && (
            r.1->Err_0)->Decode_0@ == opening_fault(packets)->0
            &&& stream is Ok ==> exists|ready: W, created: Result<(), String>|
                {
                    &&& #[trigger] call_ensures(create, (state,), (ready, created))
                    &&& created is Err ==> r.0 == ready && r.1 is Err && r.1->Err_0 is Decode && (
                    r.1->Err_0)->Decode_0@ == "decoder create: "@ + created->Err_0@
                    &&& created is Ok ==> decoded_as(
                        decode,
                        packets[0]->Ok_0.0[10] + 256 * packets[0]->Ok_0.0[11],
                        packets.skip(2),
                        ready,
                        r.0,
                        r.1,
                    )
                }
        }),
{
}

/// The end of a stream trims what was decoded, as `trim_pcm` does.
pub proof fn the_end_of_a_stream_trims_its_audio<T: Copy>(
    stream: OpusStream,
    pcm: Vec<T>,
    r: Vec<T>,
    trimmed: Vec<T>,
)
    requires
        call_ensures(OpusStream::finish::<T>, (stream, pcm), r),
        call_ensures(trim_pcm::<T>, (pcm, stream.pre_skip, stream.last_granule), trimmed),
    ensures
        r@ == trimmed@,
{
}

} // verus!
