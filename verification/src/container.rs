//! Ogg streams in memory: packets in, bytes out, and back.

use vstd::prelude::*;
use ogg::reading::PacketReader;
use ogg::writing::PacketWriter;
use std::io::Cursor;

verus! {

/// An `ogg::PacketWriter` into a vector.
#[verifier::external_body]
pub struct OggWriter {
    inner: PacketWriter<'static, Vec<u8>>,
}

/// An `ogg::PacketReader` over bytes in memory.
#[verifier::external_body]
pub struct OggReader {
    inner: PacketReader<Cursor<Vec<u8>>>,
}

/// What a packet ends.
#[derive(Debug, Clone, Copy, PartialEq, Eq, Structural)]
pub enum PacketEnd {
    /// Nothing: more packets may follow on its page.
    Packet,
    /// Its page.
    Page,
    /// The stream.
    Stream,
}

/// Why a stream could not be read on.
#[derive(Debug, Clone, Copy, PartialEq, Eq, Structural)]
pub enum ReadFault {
    NoCapturePattern,
    StreamStructureVersion(u8),
    HashMismatch(u32, u32),
    Io,
    InvalidData,
}

/// A packet as it was handed to a writer: its data, the serial number of its stream,
/// what it ends, and its granule position.
pub type Written = (Seq<u8>, u32, PacketEnd, u64);

/// A packet as it was read: its data and the granule position of the page it ended on;
/// or why it could not be read.
pub type Read = Result<(Seq<u8>, u64), ReadFault>;

/// The packets that a writer was given so far.
pub uninterp spec fn ogg_written(w: OggWriter) -> Seq<Written>;

/// The bytes that `ogg::PacketWriter` puts out for these packets.
pub uninterp spec fn ogg_bytes(packets: Seq<Written>) -> Seq<u8>;

/// What a reader has yet to return.
pub uninterp spec fn ogg_unread(r: OggReader) -> Seq<Read>;

/// What `ogg::PacketReader` returns for these bytes, up to the first fault.
pub uninterp spec fn ogg_packets(bytes: Seq<u8>) -> Seq<Read>;

/// The longest packet that spans no more than two pages.
pub const MAX_PACKET: usize = 64_770;

/// The most packets in a stream: no page number overflows with two pages for each.
pub const MAX_PACKETS: usize = 0x7fff_ffff;

/// Whether every packet of these belongs to the same stream and the last one ends its page.
pub open spec fn complete(packets: Seq<Written>) -> bool {
    &&& packets.len() > 0
    &&& packets.last().2 != PacketEnd::Packet
    &&& forall|i: int| 0 <= i < packets.len() ==> (#[trigger] packets[i]).1 == packets[0].1
}

/// `ogg::PacketWriter::new` over an empty vector: nothing has been written.
#[verifier::external_body]
pub(crate) fn ogg_writer() -> (w: OggWriter)
    ensures
        ogg_written(w) == Seq::<Written>::empty(),
{
    OggWriter { inner: PacketWriter::new(Vec::new()) }
}

/// `ogg::PacketWriter::write_packet` into a vector adds the packet to what was written. It
/// reports only failures of the underlying writer, and a vector has none. It numbers pages
/// with a `u32` and writes at most two pages for a packet of this size.
#[verifier::external_body]
pub(crate) fn ogg_write_packet(
    w: &mut OggWriter,
    data: Vec<u8>,
    serial: u32,
    end: PacketEnd,
    granule: u64,
) -> (ok: bool)
    requires
        data@.len() <= MAX_PACKET,
        ogg_written(*old(w)).len() < MAX_PACKETS,
    ensures
        ok,
        ogg_written(*final(w)) == ogg_written(*old(w)).push((data@, serial, end, granule)),
{
    let info = match end {
        PacketEnd::Packet => ogg::PacketWriteEndInfo::NormalPacket,
        PacketEnd::Page => ogg::PacketWriteEndInfo::EndPage,
        PacketEnd::Stream => ogg::PacketWriteEndInfo::EndStream,
    };
    w.inner.write_packet(data, serial, info, granule).is_ok()
}

/// `ogg::PacketWriter::into_inner` hands out the bytes of the pages written. They depend on
/// nothing but the packets. If the last packet ended its page, `ogg::PacketReader` gives
/// every packet of a single stream back, and with the last one its granule position.
#[verifier::external_body]
pub(crate) fn ogg_into_bytes(w: OggWriter) -> (r: Vec<u8>)
    ensures
        r@ == ogg_bytes(ogg_written(w)),
        complete(ogg_written(w)) ==> {
            &&& ogg_packets(r@).len() == ogg_written(w).len()
            &&& forall|i: int|
                0 <= i < ogg_written(w).len() ==> (#[trigger] ogg_packets(r@)[i]) is Ok
                    && ogg_packets(r@)[i]->Ok_0.0 == ogg_written(w)[i].0
            &&& ogg_packets(r@).last()->Ok_0.1 == ogg_written(w).last().3
        },
{
    w.inner.into_inner()
}

/// `ogg::PacketReader::new` over bytes in memory: all of their packets are unread.
#[verifier::external_body]
pub(crate) fn ogg_reader(bytes: Vec<u8>) -> (r: OggReader)
    ensures
        ogg_unread(r) == ogg_packets(bytes@),
{
    OggReader { inner: PacketReader::new(Cursor::new(bytes)) }
}

/// Whether a read that had `before` ahead of it may return `p` and leave `after`.
pub open spec fn reads(
    before: Seq<Read>,
    p: Result<Option<(Vec<u8>, u64)>, ReadFault>,
    after: Seq<Read>,
) -> bool {
    if before.len() == 0 {
        p is Ok && p->Ok_0 is None && after == before
    } else {
        match before[0] {
            Ok((data, granule)) => p is Ok && p->Ok_0 is Some && (p->Ok_0->0).0@ == data && (
            p->Ok_0->0).1 == granule && after == before.drop_first(),
            Err(fault) => p is Err && p->Err_0 == fault,
        }
    }
}

/// `ogg::PacketReader::read_packet` returns the next packet, the fault that stands in its
/// place, or nothing at the end. After a fault nothing is said of the reader.
#[verifier::external_body]
pub(crate) fn ogg_read_packet(r: &mut OggReader) -> (p: Result<
    Option<(Vec<u8>, u64)>,
    ReadFault,
>)
    ensures
        reads(ogg_unread(*old(r)), p, ogg_unread(*final(r))),
{
    match r.inner.read_packet() {
        Ok(packet) => Ok(packet.map(|p| (p.absgp_page(), p.data)).map(|p| (p.1, p.0))),
        Err(ogg::OggReadError::NoCapturePatternFound) => Err(ReadFault::NoCapturePattern),
        Err(ogg::OggReadError::InvalidStreamStructVer(v)) => Err(
            ReadFault::StreamStructureVersion(v),
        ),
        Err(ogg::OggReadError::HashMismatch(a, b)) => Err(ReadFault::HashMismatch(a, b)),
        Err(ogg::OggReadError::ReadError(_)) => Err(ReadFault::Io),
        Err(ogg::OggReadError::InvalidData) => Err(ReadFault::InvalidData),
    }
}

impl ReadFault {
    /// The fault in words.
    pub open spec fn words(self) -> Seq<char> {
        match self {
            ReadFault::NoCapturePattern => "No Ogg capture pattern found"@,
            ReadFault::StreamStructureVersion(_) =>
                "A non zero stream structure version was passed"@,
            ReadFault::HashMismatch(_, _) => "CRC32 hash mismatch"@,
            ReadFault::Io => "I/O error"@,
            ReadFault::InvalidData => "Constraint violated"@,
        }
    }

    /// The fault in words.
    pub fn describe(&self) -> (r: &'static str)
        ensures
            r@ == self.words(),
    {
        match self {
            ReadFault::NoCapturePattern => "No Ogg capture pattern found",
            ReadFault::StreamStructureVersion(_) =>
                "A non zero stream structure version was passed",
            ReadFault::HashMismatch(_, _) => "CRC32 hash mismatch",
            ReadFault::Io => "I/O error",
            ReadFault::InvalidData => "Constraint violated",
        }
    }
}

/// A fault of a stream is told in the words of its kind.
pub proof fn a_fault_is_told_by_its_kind(fault: ReadFault, r: &'static str)
    requires
        call_ensures(ReadFault::describe, (&fault,), r),
    ensures
        r@ == fault.words(),
        fault is NoCapturePattern ==> r@ == "No Ogg capture pattern found"@,
        fault is StreamStructureVersion ==> r@ == "A non zero stream structure version was passed"@,
        fault is HashMismatch ==> r@ == "CRC32 hash mismatch"@,
        fault is Io ==> r@ == "I/O error"@,
        fault is InvalidData ==> r@ == "Constraint violated"@,
{
}

} // verus!
