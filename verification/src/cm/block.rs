//! PNIO block codec: the 6-byte block header shared by every PNIO block, and the parsers
//! for the Connect-request block bodies (ARBlockReq, IOCRBlockReq,
//! ExpectedSubmoduleBlockReq, AlarmCRBlockReq).

use vstd::prelude::*;

use vstd::slice::slice_subrange;
use vstd::utf8;

use crate::bytes;
use crate::cm::BlockError;
use crate::eth::{read_mac, MacAddr};
use crate::rpc::{Drep, Uuid};

pub mod ty;

verus! {

/// `n`, or the largest `usize` where `n` lies beyond it.
pub open spec fn clamp(n: int) -> usize {
    if n <= usize::MAX {
        n as usize
    } else {
        usize::MAX
    }
}

/// The error of a read that ends at `end`, past the last byte of `b`.
pub open spec fn short(b: Seq<u8>, end: int) -> BlockError {
    BlockError::TooShort { need: clamp(end), have: b.len() as usize }
}

/// `String::from_utf8` of the standard library, the error dropped: a string comes back
/// exactly for valid UTF-8, and its UTF-8 bytes are the ones given.
#[verifier::external_body]
pub(crate) fn string_from_utf8(b: &[u8]) -> (r: Option<String>)
    ensures
        r is Some <==> utf8::valid_utf8(b@),
        r matches Some(s) ==> utf8::encode_utf8(s@) == b@,
{
    String::from_utf8(b.to_vec()).ok()
}

/// A big-endian reader over a block body. Every accessor returns `BlockError::TooShort` on
/// overrun.
pub struct Cursor<'a> {
    buf: &'a [u8],
    pos: usize,
}

impl<'a> Cursor<'a> {
    #[verifier::type_invariant]
    spec fn in_bounds(self) -> bool {
        self.pos <= self.buf@.len()
    }

    /// The bytes read from.
    pub closed spec fn data(self) -> Seq<u8> {
        self.buf@
    }

    /// The offset of the next read.
    pub closed spec fn pos(self) -> int {
        self.pos as int
    }

    /// What one read of `n` bytes does: it moves past them, or fails where they are not all
    /// there and stays.
    pub open spec fn moved(self, after: Self, n: int) -> bool {
        &&& after.data() == self.data()
        &&& self.pos() + n <= self.data().len()
        &&& after.pos() == self.pos() + n
    }

    /// What a read of `n` bytes that are not all there does.
    pub open spec fn refused(self, after: Self, n: int, e: BlockError) -> bool {
        &&& after.data() == self.data()
        &&& self.pos() + n > self.data().len()
        &&& after.pos() == self.pos()
        &&& e == short(self.data(), self.pos() + n)
    }

    /// A reader at the start of `buf`.
    pub fn new(buf: &'a [u8]) -> (c: Self)
        ensures
            c.data() == buf@,
            c.pos() == 0,
    {
        Cursor { buf, pos: 0 }
    }

    /// How many bytes are left.
    pub fn remaining(&self) -> (n: usize)
        ensures
            n == self.data().len() - self.pos(),
            self.pos() <= self.data().len(),
    {
        proof {
            use_type_invariant(self);
        }
        self.buf.len() - self.pos
    }

    fn need(&self, n: usize) -> (r: Result<(), BlockError>)
        ensures
            r is Ok <==> self.pos() + n <= self.data().len(),
            r is Ok ==> self.pos() + n <= usize::MAX,
            r matches Err(e) ==> e == short(self.data(), self.pos() + n),
    {
        proof {
            use_type_invariant(self);
        }
        if n > self.buf.len() - self.pos {
            let need: usize = if n <= usize::MAX - self.pos {
                self.pos + n
            } else {
                usize::MAX
            };
            Err(BlockError::TooShort { need, have: self.buf.len() })
        } else {
            Ok(())
        }
    }

    /// The next byte.
    pub fn u8(&mut self) -> (r: Result<u8, BlockError>)
        ensures
            match r {
                Ok(v) => old(self).moved(*final(self), 1) && v == old(self).data()[old(self).pos()],
                Err(e) => old(self).refused(*final(self), 1, e),
            },
    {
        self.need(1)?;
        let v: u8 = self.buf[self.pos];
        self.pos = self.pos + 1;
        Ok(v)
    }

    /// The next 16-bit value.
    pub fn u16(&mut self) -> (r: Result<u16, BlockError>)
        ensures
            match r {
                Ok(v) => old(self).moved(*final(self), 2) && v == bytes::be16(
                    old(self).data(),
                    old(self).pos(),
                ),
                Err(e) => old(self).refused(*final(self), 2, e),
            },
    {
        self.need(2)?;
        let v: u16 = bytes::read_be16(self.buf, self.pos);
        self.pos = self.pos + 2;
        Ok(v)
    }

    /// The next 32-bit value.
    pub fn u32(&mut self) -> (r: Result<u32, BlockError>)
        ensures
            match r {
                Ok(v) => old(self).moved(*final(self), 4) && v == bytes::be32(
                    old(self).data(),
                    old(self).pos(),
                ),
                Err(e) => old(self).refused(*final(self), 4, e),
            },
    {
        self.need(4)?;
        let v: u32 = bytes::read_be32(self.buf, self.pos);
        self.pos = self.pos + 4;
        Ok(v)
    }

    /// The next `n` bytes.
    pub fn bytes(&mut self, n: usize) -> (r: Result<&'a [u8], BlockError>)
        ensures
            match r {
                Ok(v) => old(self).moved(*final(self), n as int) && v@ == old(self).data().subrange(
                    old(self).pos(),
                    old(self).pos() + n,
                ),
                Err(e) => old(self).refused(*final(self), n as int, e),
            },
    {
        self.need(n)?;
        let v = slice_subrange(self.buf, self.pos, self.pos + n);
        self.pos = self.pos + n;
        Ok(v)
    }

    /// The next UUID, in big-endian order.
    pub fn uuid(&mut self) -> (r: Result<Uuid, BlockError>)
        ensures
            match r {
                Ok(v) => old(self).moved(*final(self), 16) && v == Uuid::at(
                    old(self).data(),
                    old(self).pos(),
                    Drep::big(),
                ),
                Err(e) => old(self).refused(*final(self), 16, e),
            },
    {
        self.need(16)?;
        let v = Uuid::read_at(self.buf, self.pos, Drep::big());
        self.pos = self.pos + 16;
        Ok(v)
    }

    /// The next Ethernet address.
    pub fn mac(&mut self) -> (r: Result<MacAddr, BlockError>)
        ensures
            match r {
                Ok(v) => old(self).moved(*final(self), 6) && v == crate::eth::mac_at(
                    old(self).data(),
                    old(self).pos(),
                ),
                Err(e) => old(self).refused(*final(self), 6, e),
            },
    {
        self.need(6)?;
        let v = read_mac(self.buf, self.pos);
        self.pos = self.pos + 6;
        Ok(v)
    }
}

/// The 6-byte header shared by every PNIO block: type, length, and version.
#[derive(Debug, Clone, Copy, PartialEq, Eq, Structural)]
pub struct BlockHeader {
    pub block_type: u16,
    pub block_length: u16,
    pub version_high: u8,
    pub version_low: u8,
}

/// The bytes of a header for a block of type `block_type` with a body of `body_len` bytes:
/// the length counts the two version bytes, and the version is 1.0.
pub open spec fn header_bytes(block_type: u16, body_len: int) -> Seq<u8> {
    bytes::be16_bytes(block_type) + bytes::be16_bytes((body_len + 2) as u16) + seq![1u8, 0u8]
}

impl BlockHeader {
    /// Length of the header on the wire.
    pub const LEN: usize = 6;

    /// How many body bytes a declared block length stands for: all but the version bytes.
    pub open spec fn body_len(block_length: u16) -> int {
        if block_length < 2 {
            0
        } else {
            block_length - 2
        }
    }

    /// What `buf` starts with: a version 1.0 header and its whole body.
    pub open spec fn spec_parse(buf: Seq<u8>) -> Result<(BlockHeader, Seq<u8>), BlockError> {
        let length = bytes::be16(buf, 2);
        if buf.len() < 6 {
            Err(short(buf, 6))
        } else if buf[4] != 1 || buf[5] != 0 {
            Err(BlockError::BadVersion(buf[4], buf[5]))
        } else if Self::body_len(length) > buf.len() - 6 {
            Err(BlockError::BadLength { declared: length, available: (buf.len() - 6) as usize })
        } else {
            Ok(
                (
                    BlockHeader {
                        block_type: bytes::be16(buf, 0),
                        block_length: length,
                        version_high: buf[4],
                        version_low: buf[5],
                    },
                    buf.subrange(6, 6 + Self::body_len(length)),
                ),
            )
        }
    }

    /// The blocks that stand one behind the other in `buf`, up to its end.
    pub open spec fn spec_read_all(buf: Seq<u8>) -> Result<
        Seq<(BlockHeader, Seq<u8>)>,
        BlockError,
    >
        decreases buf.len(),
    {
        if buf.len() == 0 {
            Ok(Seq::empty())
        } else {
            match Self::spec_parse(buf) {
                Err(e) => Err(e),
                Ok((h, body)) => match Self::spec_read_all(buf.skip(6 + body.len() as int)) {
                    Err(e) => Err(e),
                    Ok(rest) => Ok(seq![(h, body)] + rest),
                },
            }
        }
    }

    /// Parse one block header and return it along with its body (`block_length - 2` bytes
    /// after the version, i.e. everything but the 2 version bytes the length field counts).
    pub fn parse(buf: &[u8]) -> (res: Result<(BlockHeader, &[u8]), BlockError>)
        ensures
            match res {
                Ok((h, body)) => {
                    &&& Self::spec_parse(buf@) == Ok::<_, BlockError>((h, body@))
                    &&& 6 + body@.len() <= buf@.len()
                },
                Err(e) => Self::spec_parse(buf@) == Err::<(BlockHeader, Seq<u8>), _>(e),
            },
    {
        if buf.len() < Self::LEN {
            return Err(BlockError::TooShort { need: Self::LEN, have: buf.len() });
        }
        let block_type: u16 = bytes::read_be16(buf, 0);
        let block_length: u16 = bytes::read_be16(buf, 2);
        let version_high: u8 = buf[4];
        let version_low: u8 = buf[5];
        if version_high != 1 || version_low != 0 {
            return Err(BlockError::BadVersion(version_high, version_low));
        }
        let available: usize = buf.len() - Self::LEN;
        let body_len: usize = if block_length < 2 {
            0
        } else {
            (block_length - 2) as usize
        };
        if body_len > available {
            return Err(BlockError::BadLength { declared: block_length, available });
        }
        let header = BlockHeader { block_type, block_length, version_high, version_low };
        Ok((header, slice_subrange(buf, Self::LEN, Self::LEN + body_len)))
    }

    /// Write a block header for a body of `body_len` bytes (version 1.0).
    pub fn write(out: &mut Vec<u8>, block_type: u16, body_len: u16)
        requires
            body_len + 2 <= u16::MAX,
        ensures
            final(out)@ == old(out)@ + header_bytes(block_type, body_len as int),
    {
        bytes::put_be16(out, block_type);
        bytes::put_be16(out, body_len + 2);
        out.push(1);
        out.push(0);
        assert(out@ =~= old(out)@ + header_bytes(block_type, body_len as int));
    }

    /// Parse consecutive blocks until `buf` is exhausted.
    pub fn read_all(buf: &[u8]) -> (res: Result<Vec<(BlockHeader, &[u8])>, BlockError>)
        ensures
            match res {
                Ok(v) => Self::spec_read_all(buf@) == Ok::<_, BlockError>(
                    v@.map_values(|x: (BlockHeader, &[u8])| (x.0, x.1@)),
                ),
                Err(e) => Self::spec_read_all(buf@) == Err::<Seq<(BlockHeader, Seq<u8>)>, _>(e),
            },
    {
        let mut out: Vec<(BlockHeader, &[u8])> = Vec::new();
        let mut pos: usize = 0;
        let ghost f = |x: (BlockHeader, &[u8])| (x.0, x.1@);
        proof {
            assert(buf@.skip(0) =~= buf@);
            match Self::spec_read_all(buf@) {
                Ok(all) => {
                    assert(out@.map_values(f) + all =~= all);
                },
                Err(_) => {},
            }
        }
        while pos < buf.len()
            invariant
                pos <= buf@.len(),
                f == (|x: (BlockHeader, &[u8])| (x.0, x.1@)),
                Self::spec_read_all(buf@) == (match Self::spec_read_all(buf@.skip(pos as int)) {
                    Ok(rest) => Ok::<_, BlockError>(out@.map_values(f) + rest),
                    Err(e) => Err(e),
                }),
            decreases buf@.len() - pos,
        {
            let rest = slice_subrange(buf, pos, buf.len());
            assert(rest@ =~= buf@.skip(pos as int));
            match BlockHeader::parse(rest) {
                Err(e) => {
                    return Err(e);
                },
                Ok((header, body)) => {
                    let ghost before = out@.map_values(f);
                    pos = pos + BlockHeader::LEN + body.len();
                    out.push((header, body));
                    proof {
                        assert(rest@.skip(6 + body@.len() as int) =~= buf@.skip(pos as int));
                        assert(out@.map_values(f) =~= before.push((header, body@)));
                        match Self::spec_read_all(buf@.skip(pos as int)) {
                            Ok(tail) => {
                                assert(before + (seq![(header, body@)] + tail) =~= out@.map_values(
                                    f,
                                ) + tail);
                            },
                            Err(_) => {},
                        }
                    }
                },
            }
        }
        assert(buf@.skip(pos as int).len() == 0);
        assert(out@.map_values(f) + Seq::<(BlockHeader, Seq<u8>)>::empty() =~= out@.map_values(f));
        Ok(out)
    }
}

/// The header of a block of type `block_type` with a body of `body_len` bytes.
pub open spec fn header_of(block_type: u16, body_len: int) -> BlockHeader {
    BlockHeader {
        block_type,
        block_length: (body_len + 2) as u16,
        version_high: 1,
        version_low: 0,
    }
}

/// A header written in front of a body of the length it was written for reads back, body
/// included, whatever follows.
pub proof fn block_round_trip(block_type: u16, body: Seq<u8>, rest: Seq<u8>)
    requires
        body.len() + 2 <= u16::MAX,
    ensures
        header_bytes(block_type, body.len() as int).len() == BlockHeader::LEN,
        BlockHeader::spec_parse(header_bytes(block_type, body.len() as int) + body + rest) == Ok::<
            _,
            BlockError,
        >((header_of(block_type, body.len() as int), body)),
{
    let h = header_bytes(block_type, body.len() as int);
    let b = h + body + rest;
    crate::eth::lemma_at_16(b, 0, block_type);
    crate::eth::lemma_at_16(b, 2, (body.len() + 2) as u16);
    assert(b[4] == h[4] && b[5] == h[5]);
    assert(b.subrange(6, 6 + body.len() as int) =~= body);
}

/// Blocks written one behind the other are read back in order: the first block, then
/// whatever the rest reads as.
pub proof fn read_all_reads_the_first_block(block_type: u16, body: Seq<u8>, rest: Seq<u8>)
    requires
        body.len() + 2 <= u16::MAX,
    ensures
        BlockHeader::spec_read_all(
            header_bytes(block_type, body.len() as int) + body + rest,
        ) == after(
            seq![(header_of(block_type, body.len() as int), body)],
            BlockHeader::spec_read_all(rest),
        ),
{
    let h = header_bytes(block_type, body.len() as int);
    let b = h + body + rest;
    block_round_trip(block_type, body, rest);
    assert(b.skip(6 + body.len() as int) =~= rest);
}

/// The fields that identify a record in read and write headers: sequence number, AR, API,
/// slot, subslot, two reserved bytes, index.
pub open spec fn record_id_bytes(
    seq: u16,
    ar_uuid: Uuid,
    api: u32,
    slot: u16,
    subslot: u16,
    index: u16,
) -> Seq<u8> {
    bytes::be16_bytes(seq) + ar_uuid.spec_bytes(Drep::big()) + bytes::be32_bytes(api)
        + bytes::be16_bytes(slot) + bytes::be16_bytes(subslot) + bytes::be16_bytes(0)
        + bytes::be16_bytes(index)
}

/// The identifying fields take up 30 bytes.
pub proof fn lemma_record_id_len(
    seq: u16,
    ar_uuid: Uuid,
    api: u32,
    slot: u16,
    subslot: u16,
    index: u16,
)
    ensures
        record_id_bytes(seq, ar_uuid, api, slot, subslot, index).len() == 30,
{
}

/// Append the fields that identify a record.
pub fn put_record_id(
    out: &mut Vec<u8>,
    seq: u16,
    ar_uuid: Uuid,
    api: u32,
    slot: u16,
    subslot: u16,
    index: u16,
)
    ensures
        final(out)@ == old(out)@ + record_id_bytes(seq, ar_uuid, api, slot, subslot, index),
{
    broadcast use bytes::lemma_add_assoc;

    bytes::put_be16(out, seq);
    ar_uuid.write(out, Drep::big());
    bytes::put_be32(out, api);
    bytes::put_be16(out, slot);
    bytes::put_be16(out, subslot);
    bytes::put_be16(out, 0);
    bytes::put_be16(out, index);
}

// ---------------------------------------------------------------------------------
// ARBlockReq
// ---------------------------------------------------------------------------------

/// The AR's identity and the controller's address, as the Connect request gives them.
#[derive(Debug, Clone, PartialEq)]
pub struct ArBlockReq {
    pub ar_type: u16,
    pub ar_uuid: Uuid,
    pub session_key: u16,
    pub initiator_mac: MacAddr,
    pub initiator_object_uuid: Uuid,
    pub ar_properties: u32,
    pub activity_timeout_factor: u16,
    pub initiator_udp_rt_port: u16,
    pub station_name: String,
}

impl ArBlockReq {
    /// Where the first field that does not fit in `len` bytes ends, up to and with the name
    /// length.
    pub open spec fn first_end_beyond(len: int) -> int {
        if len < 2 {
            2
        } else if len < 18 {
            18
        } else if len < 20 {
            20
        } else if len < 26 {
            26
        } else if len < 42 {
            42
        } else if len < 46 {
            46
        } else if len < 48 {
            48
        } else if len < 50 {
            50
        } else {
            52
        }
    }

    /// The station name's bytes.
    pub open spec fn name_bytes(body: Seq<u8>) -> Seq<u8> {
        body.subrange(52, 52 + bytes::be16(body, 50))
    }

    /// Why `body` is no ARBlockReq body, if it is none: a field does not fit, or the name
    /// is not UTF-8.
    pub open spec fn fault(body: Seq<u8>) -> Option<BlockError> {
        if body.len() < 52 {
            Some(short(body, Self::first_end_beyond(body.len() as int)))
        } else if body.len() < 52 + bytes::be16(body, 50) {
            Some(short(body, 52 + bytes::be16(body, 50)))
        } else if !utf8::valid_utf8(Self::name_bytes(body)) {
            Some(BlockError::Malformed("station name not valid utf-8"))
        } else {
            None
        }
    }

    /// Whether `self` holds the fields of `body`, each at its offset.
    pub open spec fn reads(self, body: Seq<u8>) -> bool {
        &&& self.ar_type == bytes::be16(body, 0)
        &&& self.ar_uuid == Uuid::at(body, 2, Drep::big())
        &&& self.session_key == bytes::be16(body, 18)
        &&& self.initiator_mac == crate::eth::mac_at(body, 20)
        &&& self.initiator_object_uuid == Uuid::at(body, 26, Drep::big())
        &&& self.ar_properties == bytes::be32(body, 42)
        &&& self.activity_timeout_factor == bytes::be16(body, 46)
        &&& self.initiator_udp_rt_port == bytes::be16(body, 48)
        &&& utf8::encode_utf8(self.station_name@) == Self::name_bytes(body)
    }

    /// `body` = the bytes after the 6-byte block header.
    pub fn parse(body: &[u8]) -> (res: Result<Self, BlockError>)
        ensures
            match res {
                Ok(v) => Self::fault(body@) is None && v.reads(body@),
                Err(e) => Self::fault(body@) == Some(e),
            },
    {
        let mut c = Cursor::new(body);
        let ar_type: u16 = c.u16()?;
        let ar_uuid = c.uuid()?;
        let session_key: u16 = c.u16()?;
        let initiator_mac = c.mac()?;
        let initiator_object_uuid = c.uuid()?;
        let ar_properties: u32 = c.u32()?;
        let activity_timeout_factor: u16 = c.u16()?;
        let initiator_udp_rt_port: u16 = c.u16()?;
        let name_len: usize = c.u16()? as usize;
        let name_bytes = c.bytes(name_len)?;
        let station_name = match string_from_utf8(name_bytes) {
            Some(s) => s,
            None => {
                return Err(BlockError::Malformed("station name not valid utf-8"));
            },
        };
        Ok(
            ArBlockReq {
                ar_type,
                ar_uuid,
                session_key,
                initiator_mac,
                initiator_object_uuid,
                ar_properties,
                activity_timeout_factor,
                initiator_udp_rt_port,
                station_name,
            },
        )
    }
}

// ---------------------------------------------------------------------------------
// IOCRBlockReq
// ---------------------------------------------------------------------------------

/// One object of a communication relationship: a submodule and its offset in the frame.
#[derive(Debug, Clone, Copy, PartialEq, Eq, Structural)]
pub struct IocrObject {
    pub slot: u16,
    pub subslot: u16,
    pub frame_offset: u16,
}

/// The objects of one API: those that carry data and those that carry consumer status.
#[derive(Debug, Clone, PartialEq)]
pub struct IocrApi {
    pub api: u32,
    pub io_data: Vec<IocrObject>,
    pub iocs: Vec<IocrObject>,
}

/// What an [`IocrApi`] holds.
pub struct IocrApiView {
    pub api: u32,
    pub io_data: Seq<IocrObject>,
    pub iocs: Seq<IocrObject>,
}

impl View for IocrApi {
    type V = IocrApiView;

    open spec fn view(&self) -> IocrApiView {
        IocrApiView { api: self.api, io_data: self.io_data@, iocs: self.iocs@ }
    }
}

/// One communication relationship as the Connect request asks for it.
#[derive(Debug, Clone, PartialEq)]
pub struct IocrBlockReq {
    pub iocr_type: u16,
    pub reference: u16,
    pub lt: u16,
    pub properties: u32,
    pub data_length: u16,
    pub frame_id: u16,
    pub send_clock_factor: u16,
    pub reduction_ratio: u16,
    pub phase: u16,
    pub sequence: u16,
    pub frame_send_offset: u32,
    pub watchdog_factor: u16,
    pub data_hold_factor: u16,
    pub tag_header: u16,
    pub multicast_mac: MacAddr,
    pub apis: Vec<IocrApi>,
}

/// The object at offset `pos`.
pub open spec fn object_at(b: Seq<u8>, pos: int) -> IocrObject {
    IocrObject {
        slot: bytes::be16(b, pos),
        subslot: bytes::be16(b, pos + 2),
        frame_offset: bytes::be16(b, pos + 4),
    }
}

/// The `n` objects that stand one behind the other from `pos`, and where they end; an
/// overrun names the end of the first 16-bit field that does not fit.
pub open spec fn objects_at(b: Seq<u8>, pos: int, n: int) -> Result<
    (Seq<IocrObject>, int),
    BlockError,
> {
    if pos + 6 * n <= b.len() {
        Ok((Seq::new(n as nat, |i: int| object_at(b, pos + 6 * i)), pos + 6 * n))
    } else {
        Err(short(b, pos + (b.len() - pos) / 2 * 2 + 2))
    }
}

/// The API at `pos` and where it ends.
pub open spec fn api_at(b: Seq<u8>, pos: int) -> Result<(IocrApiView, int), BlockError> {
    if pos + 4 > b.len() {
        Err(short(b, pos + 4))
    } else if pos + 6 > b.len() {
        Err(short(b, pos + 6))
    } else {
        match objects_at(b, pos + 6, bytes::be16(b, pos + 4) as int) {
            Err(e) => Err(e),
            Ok((io_data, p)) => if p + 2 > b.len() {
                Err(short(b, p + 2))
            } else {
                match objects_at(b, p + 2, bytes::be16(b, p) as int) {
                    Err(e) => Err(e),
                    Ok((iocs, q)) => Ok(
                        (IocrApiView { api: bytes::be32(b, pos), io_data, iocs }, q),
                    ),
                }
            },
        }
    }
}

/// The `n` APIs that stand one behind the other from `pos`.
pub open spec fn apis_at(b: Seq<u8>, pos: int, n: nat) -> Result<Seq<IocrApiView>, BlockError>
    decreases n,
{
    if n == 0 {
        Ok(Seq::empty())
    } else {
        match api_at(b, pos) {
            Err(e) => Err(e),
            Ok((api, p)) => match apis_at(b, p, (n - 1) as nat) {
                Err(e) => Err(e),
                Ok(rest) => Ok(seq![api] + rest),
            },
        }
    }
}

/// `done`, followed by what the rest of a list reads as.
pub open spec fn after<T>(done: Seq<T>, rest: Result<Seq<T>, BlockError>) -> Result<
    Seq<T>,
    BlockError,
> {
    match rest {
        Err(e) => Err(e),
        Ok(r) => Ok(done + r),
    }
}

/// Moving the first item of a rest to the part that is done changes nothing.
pub proof fn lemma_after_step<T>(done: Seq<T>, item: T, rest: Result<Seq<T>, BlockError>)
    ensures
        after(done, after(seq![item], rest)) == after(done.push(item), rest),
{
    match rest {
        Ok(r) => {
            assert(done + (seq![item] + r) =~= done.push(item) + r);
        },
        Err(_) => {},
    }
}

/// Nothing done yet: the rest is all.
proof fn lemma_after_start<T>(rest: Result<Seq<T>, BlockError>)
    ensures
        after(Seq::empty(), rest) == rest,
{
    match rest {
        Ok(r) => {
            assert(Seq::<T>::empty() + r =~= r);
        },
        Err(_) => {},
    }
}

/// Nothing left: what is done is all.
pub proof fn lemma_after_end<T>(done: Seq<T>)
    ensures
        after(done, Ok(Seq::empty())) == Ok::<Seq<T>, BlockError>(done),
{
    assert(done + Seq::<T>::empty() =~= done);
}

/// Read `n` objects.
fn read_objects(c: &mut Cursor, n: u16) -> (res: Result<Vec<IocrObject>, BlockError>)
    requires
        old(c).pos() <= old(c).data().len(),
    ensures
        final(c).data() == old(c).data(),
        match res {
            Ok(v) => objects_at(old(c).data(), old(c).pos(), n as int) == Ok::<_, BlockError>(
                (v@, final(c).pos()),
            ) && final(c).pos() <= final(c).data().len(),
            Err(e) => objects_at(old(c).data(), old(c).pos(), n as int) == Err::<
                (Seq<IocrObject>, int),
                _,
            >(e),
        },
{
    let ghost b = c.data();
    let ghost start = c.pos();
    let mut v: Vec<IocrObject> = Vec::with_capacity(n as usize);
    let mut i: u16 = 0;
    while i < n
        invariant
            i <= n,
            b == old(c).data(),
            start == old(c).pos(),
            c.data() == b,
            c.pos() == start + 6 * i,
            c.pos() <= b.len(),
            v@.len() == i,
            forall|k: int| 0 <= k < i ==> #[trigger] v@[k] == object_at(b, start + 6 * k),
        decreases n - i,
    {
        let slot: u16 = c.u16()?;
        let subslot: u16 = c.u16()?;
        let frame_offset: u16 = c.u16()?;
        v.push(IocrObject { slot, subslot, frame_offset });
        i = i + 1;
    }
    proof {
        assert(v@ =~= Seq::new(n as nat, |i: int| object_at(b, start + 6 * i)));
    }
    Ok(v)
}

/// Read one API.
fn read_api(c: &mut Cursor) -> (res: Result<IocrApi, BlockError>)
    requires
        old(c).pos() <= old(c).data().len(),
    ensures
        final(c).data() == old(c).data(),
        match res {
            Ok(v) => api_at(old(c).data(), old(c).pos()) == Ok::<_, BlockError>(
                (v@, final(c).pos()),
            ) && final(c).pos() <= final(c).data().len(),
            Err(e) => api_at(old(c).data(), old(c).pos()) == Err::<(IocrApiView, int), _>(e),
        },
{
    let api: u32 = c.u32()?;
    let number_of_io_data: u16 = c.u16()?;
    let io_data = read_objects(c, number_of_io_data)?;
    let number_of_iocs: u16 = c.u16()?;
    let iocs = read_objects(c, number_of_iocs)?;
    Ok(IocrApi { api, io_data, iocs })
}

impl IocrBlockReq {
    /// Where the first fixed field that does not fit in `len` bytes ends.
    pub open spec fn first_end_beyond(len: int) -> int {
        if len < 6 {
            len / 2 * 2 + 2
        } else if len < 10 {
            10
        } else if len < 22 {
            len / 2 * 2 + 2
        } else if len < 26 {
            26
        } else if len < 32 {
            len / 2 * 2 + 2
        } else if len < 38 {
            38
        } else {
            40
        }
    }

    /// The APIs of a body whose fixed fields are all there.
    pub open spec fn spec_apis(body: Seq<u8>) -> Result<Seq<IocrApiView>, BlockError> {
        apis_at(body, 40, bytes::be16(body, 38) as nat)
    }

    /// Why `body` is no IOCRBlockReq body, if it is none.
    pub open spec fn fault(body: Seq<u8>) -> Option<BlockError> {
        if body.len() < 40 {
            Some(short(body, Self::first_end_beyond(body.len() as int)))
        } else {
            match Self::spec_apis(body) {
                Err(e) => Some(e),
                Ok(_) => None,
            }
        }
    }

    /// What the APIs hold.
    pub open spec fn api_views(self) -> Seq<IocrApiView> {
        self.apis@.map_values(|a: IocrApi| a@)
    }

    /// Whether `self` holds the fields of `body`, each at its offset.
    pub open spec fn reads(self, body: Seq<u8>) -> bool {
        &&& self.iocr_type == bytes::be16(body, 0)
        &&& self.reference == bytes::be16(body, 2)
        &&& self.lt == bytes::be16(body, 4)
        &&& self.properties == bytes::be32(body, 6)
        &&& self.data_length == bytes::be16(body, 10)
        &&& self.frame_id == bytes::be16(body, 12)
        &&& self.send_clock_factor == bytes::be16(body, 14)
        &&& self.reduction_ratio == bytes::be16(body, 16)
        &&& self.phase == bytes::be16(body, 18)
        &&& self.sequence == bytes::be16(body, 20)
        &&& self.frame_send_offset == bytes::be32(body, 22)
        &&& self.watchdog_factor == bytes::be16(body, 26)
        &&& self.data_hold_factor == bytes::be16(body, 28)
        &&& self.tag_header == bytes::be16(body, 30)
        &&& self.multicast_mac == crate::eth::mac_at(body, 32)
        &&& Self::spec_apis(body) == Ok::<_, BlockError>(self.api_views())
    }

    /// `body` = the bytes after the 6-byte block header.
    #[verifier::rlimit(50)]
    pub fn parse(body: &[u8]) -> (res: Result<Self, BlockError>)
        ensures
            match res {
                Ok(v) => Self::fault(body@) is None && v.reads(body@),
                Err(e) => Self::fault(body@) == Some(e),
            },
    {
        let mut c = Cursor::new(body);
        let iocr_type: u16 = c.u16()?;
        let reference: u16 = c.u16()?;
        let lt: u16 = c.u16()?;
        let properties: u32 = c.u32()?;
        let data_length: u16 = c.u16()?;
        let frame_id: u16 = c.u16()?;
        let send_clock_factor: u16 = c.u16()?;
        let reduction_ratio: u16 = c.u16()?;
        let phase: u16 = c.u16()?;
        let sequence: u16 = c.u16()?;
        let frame_send_offset: u32 = c.u32()?;
        let watchdog_factor: u16 = c.u16()?;
        let data_hold_factor: u16 = c.u16()?;
        let tag_header: u16 = c.u16()?;
        let multicast_mac = c.mac()?;
        let number_of_apis: u16 = c.u16()?;
        let mut apis: Vec<IocrApi> = Vec::with_capacity(number_of_apis as usize);
        let ghost f = |a: IocrApi| a@;
        let mut i: u16 = 0;
        proof {
            lemma_after_start(Self::spec_apis(body@));
            assert(apis@.map_values(f) =~= Seq::empty());
        }
        while i < number_of_apis
            invariant
                i <= number_of_apis,
                f == (|a: IocrApi| a@),
                c.data() == body@,
                c.pos() <= body@.len(),
                body@.len() >= 40,
                number_of_apis == bytes::be16(body@, 38),
                Self::spec_apis(body@) == after(
                    apis@.map_values(f),
                    apis_at(body@, c.pos(), (number_of_apis - i) as nat),
                ),
            decreases number_of_apis - i,
        {
            let ghost done = apis@.map_values(f);
            let ghost pos = c.pos();
            let api = read_api(&mut c)?;
            apis.push(api);
            i = i + 1;
            proof {
                let rest = apis_at(body@, c.pos(), (number_of_apis - i) as nat);
                lemma_after_step(done, api@, rest);
                assert(apis@.map_values(f) =~= done.push(api@));
            }
        }
        proof {
            lemma_after_end(apis@.map_values(f));
        }
        Ok(
            IocrBlockReq {
                iocr_type,
                reference,
                lt,
                properties,
                data_length,
                frame_id,
                send_clock_factor,
                reduction_ratio,
                phase,
                sequence,
                frame_send_offset,
                watchdog_factor,
                data_hold_factor,
                tag_header,
                multicast_mac,
                apis,
            },
        )
    }
}

/// The bytes that APIs take.
pub open spec fn apis_size(apis: Seq<IocrApiView>) -> int
    decreases apis.len(),
{
    if apis.len() == 0 {
        0
    } else {
        8 + 6 * (apis[0].io_data.len() + apis[0].iocs.len()) + apis_size(apis.skip(1))
    }
}

/// Objects read the same from any prefix that holds them, and are cut off by a shorter one.
proof fn lemma_objects_of_prefix(b: Seq<u8>, pos: int, n: int, m: int)
    requires
        0 <= pos <= m <= b.len(),
        0 <= n,
        objects_at(b, pos, n) is Ok,
    ensures
        objects_at(b, pos, n)->Ok_0.0.len() == n,
        pos + 6 * n <= m ==> objects_at(b.take(m), pos, n) == objects_at(b, pos, n),
        m < pos + 6 * n ==> (objects_at(b.take(m), pos, n) matches Err(
            BlockError::TooShort { .. },
        )),
{
    if pos + 6 * n <= m {
        let (v, w) = (objects_at(b, pos, n)->Ok_0.0, objects_at(b.take(m), pos, n)->Ok_0.0);
        assert forall|i: int| 0 <= i < n implies v[i] == w[i] by {
            assert(pos + 6 * i + 6 <= m);
        }
        assert(v =~= w);
    }
}

/// An API reads the same from any prefix that holds it, and is cut off by a shorter one.
proof fn lemma_api_of_prefix(b: Seq<u8>, pos: int, m: int)
    requires
        0 <= pos <= m <= b.len(),
        api_at(b, pos) is Ok,
    ensures
        ({
            let (v, end) = api_at(b, pos)->Ok_0;
            &&& end == pos + 8 + 6 * (v.io_data.len() + v.iocs.len())
            &&& end <= b.len()
            &&& end <= m ==> api_at(b.take(m), pos) == api_at(b, pos)
            &&& m < end ==> (api_at(b.take(m), pos) matches Err(BlockError::TooShort { .. }))
        }),
{
    let n1 = bytes::be16(b, pos + 4) as int;
    let p = pos + 6 + 6 * n1;
    let n2 = bytes::be16(b, p) as int;
    if pos + 6 <= m {
        lemma_objects_of_prefix(b, pos + 6, n1, m);
    } else {
        lemma_objects_of_prefix(b, pos + 6, n1, b.len() as int);
    }
    if p + 2 <= m {
        lemma_objects_of_prefix(b, p + 2, n2, m);
    } else {
        lemma_objects_of_prefix(b, p + 2, n2, b.len() as int);
    }
}

/// APIs read the same from any prefix that holds them, and are cut off by a shorter one.
proof fn lemma_apis_of_prefix(b: Seq<u8>, pos: int, n: nat, m: int)
    requires
        0 <= pos <= m <= b.len(),
        apis_at(b, pos, n) is Ok,
    ensures
        ({
            let v = apis_at(b, pos, n)->Ok_0;
            &&& v.len() == n
            &&& pos + apis_size(v) <= b.len()
            &&& apis_size(v) >= 0
            &&& pos + apis_size(v) <= m ==> apis_at(b.take(m), pos, n) == apis_at(b, pos, n)
            &&& m < pos + apis_size(v) ==> (apis_at(b.take(m), pos, n) matches Err(
                BlockError::TooShort { .. },
            ))
        }),
    decreases n,
{
    if n > 0 {
        let (api, p) = api_at(b, pos)->Ok_0;
        let rest = apis_at(b, p, (n - 1) as nat)->Ok_0;
        let v = apis_at(b, pos, n)->Ok_0;
        assert(v.skip(1) =~= rest);
        lemma_api_of_prefix(b, pos, m);
        if p <= m {
            lemma_apis_of_prefix(b, p, (n - 1) as nat, m);
        } else {
            lemma_apis_of_prefix(b, p, (n - 1) as nat, b.len() as int);
        }
    }
}

/// An IOCRBlockReq takes as many bytes as its APIs and objects say: bytes behind them are
/// ignored, and without all of them there is no result, only that the body is too short.
pub proof fn an_iocr_takes_just_its_bytes(r: IocrBlockReq, body: Seq<u8>, k: int)
    requires
        IocrBlockReq::fault(body) is None,
        r.reads(body),
    ensures
        ({
            let n = 40 + apis_size(r.api_views());
            &&& n <= body.len()
            &&& r.apis@.len() == bytes::be16(body, 38)
            &&& IocrBlockReq::fault(body.take(n)) is None
            &&& r.reads(body.take(n))
            &&& 0 <= k < n ==> (IocrBlockReq::fault(body.take(k)) matches Some(
                BlockError::TooShort { .. },
            ))
        }),
{
    let count = bytes::be16(body, 38) as nat;
    let n = 40 + apis_size(r.api_views());
    assert(r.api_views().len() == r.apis@.len());
    lemma_apis_of_prefix(body, 40, count, body.len() as int);
    lemma_apis_of_prefix(body, 40, count, n);
    if 40 <= k < n {
        lemma_apis_of_prefix(body, 40, count, k);
    }
    let head = body.take(n);
    assert(crate::eth::mac_at(head, 32) == crate::eth::mac_at(body, 32)) by {
        assert(head.subrange(32, 38) =~= body.subrange(32, 38));
    }
}

// ---------------------------------------------------------------------------------
// ExpectedSubmoduleBlockReq
// ---------------------------------------------------------------------------------

/// The length of one direction's data and of its status bytes.
#[derive(Debug, Clone, Copy, PartialEq, Eq, Structural)]
pub struct DataDescription {
    pub data_length: u16,
    pub length_iocs: u8,
    pub length_iops: u8,
}

/// One submodule the controller expects.
#[derive(Debug, Clone, Copy, PartialEq, Eq, Structural)]
pub struct ExpectedSubmodule {
    pub subslot: u16,
    pub submodule_ident: u32,
    pub properties: u16,
    pub input: Option<DataDescription>,
    pub output: Option<DataDescription>,
}

/// One slot the controller expects, with its submodules.
#[derive(Debug, Clone, PartialEq)]
pub struct ExpectedApi {
    pub api: u32,
    pub slot: u16,
    pub module_ident: u32,
    pub module_properties: u16,
    pub submodules: Vec<ExpectedSubmodule>,
}

/// What an [`ExpectedApi`] holds.
pub struct ExpectedApiView {
    pub api: u32,
    pub slot: u16,
    pub module_ident: u32,
    pub module_properties: u16,
    pub submodules: Seq<ExpectedSubmodule>,
}

impl View for ExpectedApi {
    type V = ExpectedApiView;

    open spec fn view(&self) -> ExpectedApiView {
        ExpectedApiView {
            api: self.api,
            slot: self.slot,
            module_ident: self.module_ident,
            module_properties: self.module_properties,
            submodules: self.submodules@,
        }
    }
}

/// The modules and submodules the controller expects.
#[derive(Debug, Clone, PartialEq)]
pub struct ExpectedSubmoduleBlockReq {
    pub apis: Vec<ExpectedApi>,
}

/// `DataDescription` tag of an input descriptor.
pub const DATA_DESCRIPTION_INPUT: u16 = 1;

/// `DataDescription` tag of an output descriptor.
pub const DATA_DESCRIPTION_OUTPUT: u16 = 2;

/// The descriptor at `pos`, which must carry the tag `tag`, and where it ends.
pub open spec fn description_at(b: Seq<u8>, pos: int, tag: u16) -> Result<
    (DataDescription, int),
    BlockError,
> {
    if pos + 2 > b.len() {
        Err(short(b, pos + 2))
    } else if bytes::be16(b, pos) != tag {
        Err(BlockError::Malformed("data description tag"))
    } else if pos + 4 > b.len() {
        Err(short(b, pos + 4))
    } else if pos + 5 > b.len() {
        Err(short(b, pos + 5))
    } else if pos + 6 > b.len() {
        Err(short(b, pos + 6))
    } else {
        Ok(
            (
                DataDescription {
                    data_length: bytes::be16(b, pos + 2),
                    length_iocs: b[pos + 4],
                    length_iops: b[pos + 5],
                },
                pos + 6,
            ),
        )
    }
}

/// The descriptors behind a submodule with these properties: the two low bits say which
/// directions carry data. A submodule without data still carries one input descriptor.
pub open spec fn descriptions_at(b: Seq<u8>, pos: int, properties: u16) -> Result<
    (Option<DataDescription>, Option<DataDescription>, int),
    BlockError,
> {
    let kind = properties % 4;
    if kind == 2 {
        match description_at(b, pos, DATA_DESCRIPTION_OUTPUT) {
            Err(e) => Err(e),
            Ok((d, p)) => Ok((None, Some(d), p)),
        }
    } else {
        match description_at(b, pos, DATA_DESCRIPTION_INPUT) {
            Err(e) => Err(e),
            Ok((d, p)) => if kind != 3 {
                Ok((Some(d), None, p))
            } else {
                match description_at(b, p, DATA_DESCRIPTION_OUTPUT) {
                    Err(e) => Err(e),
                    Ok((o, q)) => Ok((Some(d), Some(o), q)),
                }
            },
        }
    }
}

/// The submodule at `pos` and where it ends.
pub open spec fn submodule_at(b: Seq<u8>, pos: int) -> Result<
    (ExpectedSubmodule, int),
    BlockError,
> {
    if pos + 2 > b.len() {
        Err(short(b, pos + 2))
    } else if pos + 6 > b.len() {
        Err(short(b, pos + 6))
    } else if pos + 8 > b.len() {
        Err(short(b, pos + 8))
    } else {
        match descriptions_at(b, pos + 8, bytes::be16(b, pos + 6)) {
            Err(e) => Err(e),
            Ok((input, output, p)) => Ok(
                (
                    ExpectedSubmodule {
                        subslot: bytes::be16(b, pos),
                        submodule_ident: bytes::be32(b, pos + 2),
                        properties: bytes::be16(b, pos + 6),
                        input,
                        output,
                    },
                    p,
                ),
            ),
        }
    }
}

/// The `n` submodules that stand one behind the other from `pos`, and where they end.
pub open spec fn submodules_at(b: Seq<u8>, pos: int, n: nat) -> Result<
    (Seq<ExpectedSubmodule>, int),
    BlockError,
>
    decreases n,
{
    if n == 0 {
        Ok((Seq::empty(), pos))
    } else {
        match submodule_at(b, pos) {
            Err(e) => Err(e),
            Ok((sm, p)) => match submodules_at(b, p, (n - 1) as nat) {
                Err(e) => Err(e),
                Ok((rest, q)) => Ok((seq![sm] + rest, q)),
            },
        }
    }
}

/// The slot at `pos` and where it ends.
pub open spec fn expected_api_at(b: Seq<u8>, pos: int) -> Result<
    (ExpectedApiView, int),
    BlockError,
> {
    if pos + 4 > b.len() {
        Err(short(b, pos + 4))
    } else if pos + 6 > b.len() {
        Err(short(b, pos + 6))
    } else if pos + 10 > b.len() {
        Err(short(b, pos + 10))
    } else if pos + 12 > b.len() {
        Err(short(b, pos + 12))
    } else if pos + 14 > b.len() {
        Err(short(b, pos + 14))
    } else {
        match submodules_at(b, pos + 14, bytes::be16(b, pos + 12) as nat) {
            Err(e) => Err(e),
            Ok((submodules, p)) => Ok(
                (
                    ExpectedApiView {
                        api: bytes::be32(b, pos),
                        slot: bytes::be16(b, pos + 4),
                        module_ident: bytes::be32(b, pos + 6),
                        module_properties: bytes::be16(b, pos + 10),
                        submodules,
                    },
                    p,
                ),
            ),
        }
    }
}

/// The `n` slots that stand one behind the other from `pos`.
pub open spec fn expected_apis_at(b: Seq<u8>, pos: int, n: nat) -> Result<
    Seq<ExpectedApiView>,
    BlockError,
>
    decreases n,
{
    if n == 0 {
        Ok(Seq::empty())
    } else {
        match expected_api_at(b, pos) {
            Err(e) => Err(e),
            Ok((api, p)) => match expected_apis_at(b, p, (n - 1) as nat) {
                Err(e) => Err(e),
                Ok(rest) => Ok(seq![api] + rest),
            },
        }
    }
}

/// Read one submodule.
fn read_submodule(c: &mut Cursor) -> (res: Result<ExpectedSubmodule, BlockError>)
    requires
        old(c).pos() <= old(c).data().len(),
    ensures
        final(c).data() == old(c).data(),
        match res {
            Ok(v) => submodule_at(old(c).data(), old(c).pos()) == Ok::<_, BlockError>(
                (v, final(c).pos()),
            ) && final(c).pos() <= final(c).data().len(),
            Err(e) => submodule_at(old(c).data(), old(c).pos()) == Err::<
                (ExpectedSubmodule, int),
                _,
            >(e),
        },
{
    let subslot: u16 = c.u16()?;
    let submodule_ident: u32 = c.u32()?;
    let properties: u16 = c.u16()?;
    assert(properties & 3 == properties % 4) by (bit_vector);
    let kind: u16 = properties & 0x3;
    let (input, output) = if kind == 0 || kind == 1 {
        let input = ExpectedSubmoduleBlockReq::data_description(c, DATA_DESCRIPTION_INPUT)?;
        (Some(input), None)
    } else if kind == 2 {
        let output = ExpectedSubmoduleBlockReq::data_description(c, DATA_DESCRIPTION_OUTPUT)?;
        (None, Some(output))
    } else {
        let input = ExpectedSubmoduleBlockReq::data_description(c, DATA_DESCRIPTION_INPUT)?;
        let output = ExpectedSubmoduleBlockReq::data_description(c, DATA_DESCRIPTION_OUTPUT)?;
        (Some(input), Some(output))
    };
    Ok(ExpectedSubmodule { subslot, submodule_ident, properties, input, output })
}

/// Read one slot with its submodules.
fn read_expected_api(c: &mut Cursor) -> (res: Result<ExpectedApi, BlockError>)
    requires
        old(c).pos() <= old(c).data().len(),
    ensures
        final(c).data() == old(c).data(),
        match res {
            Ok(v) => expected_api_at(old(c).data(), old(c).pos()) == Ok::<_, BlockError>(
                (v@, final(c).pos()),
            ) && final(c).pos() <= final(c).data().len(),
            Err(e) => expected_api_at(old(c).data(), old(c).pos()) == Err::<
                (ExpectedApiView, int),
                _,
            >(e),
        },
{
    let ghost b = c.data();
    let api: u32 = c.u32()?;
    let slot: u16 = c.u16()?;
    let module_ident: u32 = c.u32()?;
    let module_properties: u16 = c.u16()?;
    let number_of_submodules: u16 = c.u16()?;
    let ghost start = c.pos();
    let ghost all = submodules_at(b, start, number_of_submodules as nat);
    let mut submodules: Vec<ExpectedSubmodule> = Vec::with_capacity(number_of_submodules as usize);
    let mut i: u16 = 0;
    proof {
        match all {
            Ok((v, _)) => {
                assert(submodules@ + v =~= v);
            },
            Err(_) => {},
        }
    }
    while i < number_of_submodules
        invariant
            i <= number_of_submodules,
            b == old(c).data(),
            start == old(c).pos() + 14,
            number_of_submodules == bytes::be16(b, start - 2),
            all == submodules_at(b, start, number_of_submodules as nat),
            old(c).pos() + 14 <= b.len(),
            c.data() == b,
            c.pos() <= b.len(),
            match submodules_at(b, c.pos(), (number_of_submodules - i) as nat) {
                Ok((rest, end)) => all == Ok::<_, BlockError>((submodules@ + rest, end)),
                Err(e) => all == Err::<(Seq<ExpectedSubmodule>, int), _>(e),
            },
        decreases number_of_submodules - i,
    {
        let ghost done = submodules@;
        let sm = read_submodule(c)?;
        submodules.push(sm);
        i = i + 1;
        proof {
            match submodules_at(b, c.pos(), (number_of_submodules - i) as nat) {
                Ok((rest, _)) => {
                    assert(done + (seq![sm] + rest) =~= submodules@ + rest);
                },
                Err(_) => {},
            }
        }
    }
    assert(submodules@ + Seq::<ExpectedSubmodule>::empty() =~= submodules@);
    Ok(ExpectedApi { api, slot, module_ident, module_properties, submodules })
}

impl ExpectedSubmoduleBlockReq {
    /// The slots of a body.
    pub open spec fn spec_parse(body: Seq<u8>) -> Result<Seq<ExpectedApiView>, BlockError> {
        if body.len() < 2 {
            Err(short(body, 2))
        } else {
            expected_apis_at(body, 2, bytes::be16(body, 0) as nat)
        }
    }

    /// What the slots hold.
    pub open spec fn api_views(self) -> Seq<ExpectedApiView> {
        self.apis@.map_values(|a: ExpectedApi| a@)
    }

    /// `body` = the bytes after the 6-byte block header.
    pub fn parse(body: &[u8]) -> (res: Result<Self, BlockError>)
        ensures
            match res {
                Ok(v) => Self::spec_parse(body@) == Ok::<_, BlockError>(v.api_views()),
                Err(e) => Self::spec_parse(body@) == Err::<Seq<ExpectedApiView>, _>(e),
            },
    {
        let mut c = Cursor::new(body);
        let number_of_apis: u16 = c.u16()?;
        let mut apis: Vec<ExpectedApi> = Vec::with_capacity(number_of_apis as usize);
        let ghost f = |a: ExpectedApi| a@;
        let mut i: u16 = 0;
        proof {
            lemma_after_start(Self::spec_parse(body@));
            assert(apis@.map_values(f) =~= Seq::empty());
        }
        while i < number_of_apis
            invariant
                i <= number_of_apis,
                f == (|a: ExpectedApi| a@),
                c.data() == body@,
                c.pos() <= body@.len(),
                body@.len() >= 2,
                number_of_apis == bytes::be16(body@, 0),
                Self::spec_parse(body@) == after(
                    apis@.map_values(f),
                    expected_apis_at(body@, c.pos(), (number_of_apis - i) as nat),
                ),
            decreases number_of_apis - i,
        {
            let ghost done = apis@.map_values(f);
            let api = read_expected_api(&mut c)?;
            apis.push(api);
            i = i + 1;
            proof {
                let rest = expected_apis_at(body@, c.pos(), (number_of_apis - i) as nat);
                lemma_after_step(done, api@, rest);
                assert(apis@.map_values(f) =~= done.push(api@));
            }
        }
        proof {
            lemma_after_end(apis@.map_values(f));
        }
        Ok(ExpectedSubmoduleBlockReq { apis })
    }

    fn data_description(c: &mut Cursor, expected_tag: u16) -> (res: Result<
        DataDescription,
        BlockError,
    >)
        ensures
            final(c).data() == old(c).data(),
            match res {
                Ok(v) => description_at(old(c).data(), old(c).pos(), expected_tag) == Ok::<
                    _,
                    BlockError,
                >((v, final(c).pos())) && final(c).pos() <= final(c).data().len(),
                Err(e) => description_at(old(c).data(), old(c).pos(), expected_tag) == Err::<
                    (DataDescription, int),
                    _,
                >(e),
            },
    {
        let tag: u16 = c.u16()?;
        if tag != expected_tag {
            return Err(BlockError::Malformed("data description tag"));
        }
        let data_length: u16 = c.u16()?;
        let length_iocs: u8 = c.u8()?;
        let length_iops: u8 = c.u8()?;
        Ok(DataDescription { data_length, length_iocs, length_iops })
    }
}

// ---------------------------------------------------------------------------------
// AlarmCRBlockReq
// ---------------------------------------------------------------------------------

/// The alarm communication relationship as the Connect request asks for it.
#[derive(Debug, Clone, Copy, PartialEq, Eq, Structural)]
pub struct AlarmCrBlockReq {
    pub alarm_cr_type: u16,
    pub lt: u16,
    pub properties: u32,
    pub rta_timeout_factor: u16,
    pub rta_retries: u16,
    pub local_alarm_reference: u16,
    pub max_alarm_data_length: u16,
    pub tag_header_high: u16,
    pub tag_header_low: u16,
}

impl AlarmCrBlockReq {
    /// Where the first field that does not fit in `len` bytes ends.
    pub open spec fn first_end_beyond(len: int) -> int {
        if 4 <= len < 8 {
            8
        } else {
            len / 2 * 2 + 2
        }
    }

    /// What `body` reads as.
    pub open spec fn spec_parse(body: Seq<u8>) -> Result<AlarmCrBlockReq, BlockError> {
        if body.len() < 20 {
            Err(short(body, Self::first_end_beyond(body.len() as int)))
        } else {
            Ok(
                AlarmCrBlockReq {
                    alarm_cr_type: bytes::be16(body, 0),
                    lt: bytes::be16(body, 2),
                    properties: bytes::be32(body, 4),
                    rta_timeout_factor: bytes::be16(body, 8),
                    rta_retries: bytes::be16(body, 10),
                    local_alarm_reference: bytes::be16(body, 12),
                    max_alarm_data_length: bytes::be16(body, 14),
                    tag_header_high: bytes::be16(body, 16),
                    tag_header_low: bytes::be16(body, 18),
                },
            )
        }
    }

    /// `body` = the bytes after the 6-byte block header.
    pub fn parse(body: &[u8]) -> (res: Result<Self, BlockError>)
        ensures
            res == Self::spec_parse(body@),
    {
        let mut c = Cursor::new(body);
        let alarm_cr_type: u16 = c.u16()?;
        let lt: u16 = c.u16()?;
        let properties: u32 = c.u32()?;
        let rta_timeout_factor: u16 = c.u16()?;
        let rta_retries: u16 = c.u16()?;
        let local_alarm_reference: u16 = c.u16()?;
        let max_alarm_data_length: u16 = c.u16()?;
        let tag_header_high: u16 = c.u16()?;
        let tag_header_low: u16 = c.u16()?;
        Ok(
            AlarmCrBlockReq {
                alarm_cr_type,
                lt,
                properties,
                rta_timeout_factor,
                rta_retries,
                local_alarm_reference,
                max_alarm_data_length,
                tag_header_high,
                tag_header_low,
            },
        )
    }
}

// ---------------------------------------------------------------------------------
// Laws of the wire
// ---------------------------------------------------------------------------------

/// A header is its type, the length of what follows it, and version 1.0.
pub proof fn block_headers_stand_at_their_places(block_type: u16, body_len: int)
    requires
        0 <= body_len <= 0xFFFD,
    ensures
        ({
            let h = header_bytes(block_type, body_len);
            &&& h.len() == 6
            &&& bytes::be16(h, 0) == block_type
            &&& bytes::be16(h, 2) == 2 + body_len
            &&& h[4] == 1 && h[5] == 0
        }),
{
    let h = header_bytes(block_type, body_len);
    crate::eth::lemma_at_16(h, 0, block_type);
    crate::eth::lemma_at_16(h, 2, (body_len + 2) as u16);
}

/// How a block is read: six bytes of header, of version 1.0, and as many bytes of body as the
/// header says, less the two of the version. Refused are bytes that end before the header or
/// the body does, and other versions.
pub proof fn blocks_are_read_by_their_header(buf: Seq<u8>)
    requires
        buf.len() <= usize::MAX,
    ensures
        ({
            let length = bytes::be16(buf, 2);
            let body_len = if length < 2 { 0int } else { length - 2 };
            match BlockHeader::spec_parse(buf) {
                Ok((h, body)) => {
                    &&& h.block_type == bytes::be16(buf, 0) && h.block_length == length
                    &&& h.version_high == 1 && buf[4] == 1 && h.version_low == 0 && buf[5] == 0
                    &&& 6 + body_len <= buf.len()
                    &&& body == buf.subrange(6, 6 + body_len)
                },
                Err(BlockError::TooShort { need, have }) => need == 6 && have == buf.len() && have
                    < 6,
                Err(BlockError::BadVersion(high, low)) => {
                    &&& buf.len() >= 6 && high == buf[4] && low == buf[5]
                    &&& high != 1 || low != 0
                },
                Err(BlockError::BadLength { declared, available }) => {
                    &&& buf.len() >= 6 && buf[4] == 1 && buf[5] == 0
                    &&& declared == length && available == buf.len() - 6 && body_len > available
                },
                Err(_) => false,
            }
        }),
{
}

/// Where the fields stand that say which record is meant.
pub proof fn record_ids_stand_at_their_places(
    seq: u16,
    ar_uuid: Uuid,
    api: u32,
    slot: u16,
    subslot: u16,
    index: u16,
)
    ensures
        ({
            let b = record_id_bytes(seq, ar_uuid, api, slot, subslot, index);
            &&& b.len() == 30
            &&& bytes::be16(b, 0) == seq
            &&& Uuid::at(b, 2, Drep::big()) == ar_uuid
            &&& bytes::be32(b, 18) == api
            &&& bytes::be16(b, 22) == slot
            &&& bytes::be16(b, 24) == subslot
            &&& b[26] == 0 && b[27] == 0
            &&& bytes::be16(b, 28) == index
        }),
{
    let b = record_id_bytes(seq, ar_uuid, api, slot, subslot, index);
    lemma_record_id_len(seq, ar_uuid, api, slot, subslot, index);
    let (front, rest) = (bytes::be16_bytes(seq), b.skip(18));
    crate::rpc::uuid::uuid_round_trip(ar_uuid, Drep::big(), front, rest);
    assert(front + ar_uuid.spec_bytes(Drep::big()) + rest =~= b);
    crate::eth::lemma_at_16(b, 0, seq);
    bytes::lemma_be32_round_trip(api, b.take(18), b.skip(22));
    assert(b.take(18) + bytes::be32_bytes(api) + b.skip(22) =~= b);
    crate::eth::lemma_at_16(b, 22, slot);
    crate::eth::lemma_at_16(b, 24, subslot);
    crate::eth::lemma_at_16(b, 26, 0);
    crate::eth::lemma_at_16(b, 28, index);
    assert(b.subrange(26, 28) =~= bytes::be16_bytes(0));
    assert(b[26] == b.subrange(26, 28)[0] && b[27] == b.subrange(26, 28)[1]);
}

/// Where the fields of an AR request stand.
pub proof fn ar_requests_are_read_by_place(r: ArBlockReq, body: Seq<u8>)
    requires
        ArBlockReq::fault(body) is None,
        r.reads(body),
    ensures
        r.ar_type == bytes::be16(body, 0),
        r.ar_uuid == Uuid::at(body, 2, Drep::big()),
        r.session_key == bytes::be16(body, 18),
        r.initiator_mac == crate::eth::mac_at(body, 20),
        r.initiator_object_uuid == Uuid::at(body, 26, Drep::big()),
        r.ar_properties == bytes::be32(body, 42),
        r.activity_timeout_factor == bytes::be16(body, 46),
        r.initiator_udp_rt_port == bytes::be16(body, 48),
        utf8::encode_utf8(r.station_name@) == body.subrange(52, 52 + bytes::be16(body, 50)),
        body.len() >= 52 + bytes::be16(body, 50),
{
}

/// An AR request is refused just where it ends before its name does, or its name is no text;
/// what it lacks is counted up to the end of the first field that is not whole.
pub proof fn ar_requests_are_refused_for_a_reason(body: Seq<u8>)
    requires
        body.len() <= 0xFFFF_FFFF,
        body.len() <= usize::MAX,
    ensures
        ({
            let n = body.len() as int;
            let end = 52 + bytes::be16(body, 50);
            match ArBlockReq::fault(body) {
                None => n >= 52 && n >= end && utf8::valid_utf8(body.subrange(52, end)),
                Some(BlockError::TooShort { need, have }) => {
                    &&& have == n && need > n
                    &&& n >= 52 ==> need == clamp(end)
                    &&& n < 2 ==> need == 2
                    &&& 2 <= n < 18 ==> need == 18
                    &&& 18 <= n < 20 ==> need == 20
                    &&& 20 <= n < 26 ==> need == 26
                    &&& 26 <= n < 42 ==> need == 42
                    &&& 42 <= n < 46 ==> need == 46
                    &&& 46 <= n < 48 ==> need == 48
                    &&& 48 <= n < 50 ==> need == 50
                    &&& 50 <= n < 52 ==> need == 52
                },
                Some(e) => n >= 52 && n >= end && !utf8::valid_utf8(body.subrange(52, end)),
            }
        }),
{
}

/// Where the fields of a CR request stand.
pub proof fn cr_requests_are_read_by_place(r: IocrBlockReq, body: Seq<u8>)
    requires
        IocrBlockReq::fault(body) is None,
        r.reads(body),
    ensures
        body.len() >= 40,
        r.iocr_type == bytes::be16(body, 0),
        r.reference == bytes::be16(body, 2),
        r.lt == bytes::be16(body, 4),
        r.properties == bytes::be32(body, 6),
        r.data_length == bytes::be16(body, 10),
        r.frame_id == bytes::be16(body, 12),
        r.send_clock_factor == bytes::be16(body, 14),
        r.reduction_ratio == bytes::be16(body, 16),
        r.phase == bytes::be16(body, 18),
        r.sequence == bytes::be16(body, 20),
        r.frame_send_offset == bytes::be32(body, 22),
        r.watchdog_factor == bytes::be16(body, 26),
        r.data_hold_factor == bytes::be16(body, 28),
        r.tag_header == bytes::be16(body, 30),
        r.multicast_mac == crate::eth::mac_at(body, 32),
        r.api_views().len() == bytes::be16(body, 38),
{
    lemma_apis_of_prefix(body, 40, bytes::be16(body, 38) as nat, body.len() as int);
}

/// Where the objects of an API stand: behind its number those with data, then those with
/// consumer status, each list behind its count, each object six bytes of slot, subslot and
/// offset.
pub proof fn objects_are_read_by_place(b: Seq<u8>, pos: int, i: int)
    requires
        0 <= pos,
        api_at(b, pos) is Ok,
        0 <= i,
    ensures
        ({
            let (v, end) = api_at(b, pos)->Ok_0;
            let n = bytes::be16(b, pos + 4) as int;
            let k = bytes::be16(b, pos + 6 + 6 * n) as int;
            &&& v.api == bytes::be32(b, pos)
            &&& v.io_data.len() == n && v.iocs.len() == k
            &&& end == pos + 8 + 6 * n + 6 * k
            &&& i < n ==> {
                let o = v.io_data[i];
                let p = pos + 6 + 6 * i;
                &&& o.slot == bytes::be16(b, p) && o.subslot == bytes::be16(b, p + 2)
                &&& o.frame_offset == bytes::be16(b, p + 4)
            }
            &&& i < k ==> {
                let o = v.iocs[i];
                let p = pos + 8 + 6 * n + 6 * i;
                &&& o.slot == bytes::be16(b, p) && o.subslot == bytes::be16(b, p + 2)
                &&& o.frame_offset == bytes::be16(b, p + 4)
            }
        }),
{
}

/// APIs stand one behind the other, each where the one before it ends.
pub proof fn apis_follow_one_another(b: Seq<u8>, pos: int, n: nat)
    requires
        n > 0,
        apis_at(b, pos, n) is Ok,
    ensures
        api_at(b, pos) is Ok,
        apis_at(b, pos, n)->Ok_0[0] == api_at(b, pos)->Ok_0.0,
        apis_at(b, api_at(b, pos)->Ok_0.1, (n - 1) as nat) is Ok,
        apis_at(b, pos, n)->Ok_0.skip(1) == apis_at(
            b,
            api_at(b, pos)->Ok_0.1,
            (n - 1) as nat,
        )->Ok_0,
{
    let (_, p) = api_at(b, pos)->Ok_0;
    assert(apis_at(b, pos, n)->Ok_0.skip(1) =~= apis_at(b, p, (n - 1) as nat)->Ok_0);
}

/// What the properties of an expected submodule say of its data: an output where the second bit
/// is set, an input unless it is the only one; the input's descriptor stands first, with tag 1,
/// the output's has tag 2.
pub proof fn properties_say_which_data_follows(b: Seq<u8>, pos: int, properties: u16)
    requires
        descriptions_at(b, pos, properties) is Ok,
    ensures
        ({
            let (input, output, end) = descriptions_at(b, pos, properties)->Ok_0;
            let kind = properties % 4;
            &&& input is Some <==> kind != 2
            &&& output is Some <==> kind == 2 || kind == 3
            &&& end == pos + (if kind == 3 { 12int } else { 6 }) && end <= b.len()
            &&& input matches Some(d) ==> {
                &&& bytes::be16(b, pos) == 1 && d.data_length == bytes::be16(b, pos + 2)
                &&& d.length_iocs == b[pos + 4] && d.length_iops == b[pos + 5]
            }
            &&& output matches Some(d) ==> {
                let p = end - 6;
                &&& bytes::be16(b, p) == 2 && d.data_length == bytes::be16(b, p + 2)
                &&& d.length_iocs == b[p + 4] && d.length_iops == b[p + 5]
            }
        }),
{
}

/// Where the fields of an expected submodule stand.
pub proof fn expected_submodules_are_read_by_place(b: Seq<u8>, pos: int)
    requires
        submodule_at(b, pos) is Ok,
    ensures
        ({
            let (s, end) = submodule_at(b, pos)->Ok_0;
            &&& s.subslot == bytes::be16(b, pos)
            &&& s.submodule_ident == bytes::be32(b, pos + 2)
            &&& s.properties == bytes::be16(b, pos + 6)
            &&& descriptions_at(b, pos + 8, s.properties) == Ok::<_, BlockError>(
                (s.input, s.output, end),
            )
        }),
{
}

/// Where the fields of an expected slot stand, with its submodules behind them.
pub proof fn expected_slots_are_read_by_place(b: Seq<u8>, pos: int)
    requires
        expected_api_at(b, pos) is Ok,
    ensures
        ({
            let (s, end) = expected_api_at(b, pos)->Ok_0;
            &&& s.api == bytes::be32(b, pos)
            &&& s.slot == bytes::be16(b, pos + 4)
            &&& s.module_ident == bytes::be32(b, pos + 6)
            &&& s.module_properties == bytes::be16(b, pos + 10)
            &&& submodules_at(b, pos + 14, bytes::be16(b, pos + 12) as nat) == Ok::<_, BlockError>(
                (s.submodules, end),
            )
        }),
{
}

/// Submodules stand one behind the other, each where the one before it ends.
pub proof fn expected_submodules_follow_one_another(b: Seq<u8>, pos: int, n: nat)
    requires
        n > 0,
        submodules_at(b, pos, n) is Ok,
    ensures
        ({
            let (all, end) = submodules_at(b, pos, n)->Ok_0;
            let (first, p) = submodule_at(b, pos)->Ok_0;
            &&& submodule_at(b, pos) is Ok && all[0] == first
            &&& submodules_at(b, p, (n - 1) as nat) == Ok::<_, BlockError>((all.skip(1), end))
        }),
{
    let (_, p) = submodule_at(b, pos)->Ok_0;
    let (rest, _) = submodules_at(b, p, (n - 1) as nat)->Ok_0;
    assert(submodules_at(b, pos, n)->Ok_0.0.skip(1) =~= rest);
}

/// Where the fields of an alarm CR request stand: it is refused just where it ends before them.
pub proof fn alarm_requests_are_read_by_place(body: Seq<u8>)
    ensures
        AlarmCrBlockReq::spec_parse(body) is Ok <==> body.len() >= 20,
        AlarmCrBlockReq::spec_parse(body) matches Ok(r) ==> {
            &&& r.alarm_cr_type == bytes::be16(body, 0)
            &&& r.lt == bytes::be16(body, 2)
            &&& r.properties == bytes::be32(body, 4)
            &&& r.rta_timeout_factor == bytes::be16(body, 8)
            &&& r.rta_retries == bytes::be16(body, 10)
            &&& r.local_alarm_reference == bytes::be16(body, 12)
            &&& r.max_alarm_data_length == bytes::be16(body, 14)
            &&& r.tag_header_high == bytes::be16(body, 16)
            &&& r.tag_header_low == bytes::be16(body, 18)
        },
        AlarmCrBlockReq::spec_parse(body) matches Err(e) ==> (e matches BlockError::TooShort {
            need,
            have,
        } && have == body.len() && body.len() < need <= body.len() + 4 && need <= 20),
{
}

/// What a CR request that ends within its fixed fields lacks is counted up to the end of the
/// first field that is not whole.
pub proof fn short_cr_requests_name_the_field(body: Seq<u8>)
    requires
        body.len() < 40,
    ensures
        IocrBlockReq::fault(body) matches Some(BlockError::TooShort { need, have }) && have
            == body.len() && {
            let n = body.len() as int;
            &&& n < 6 || 10 <= n < 22 || 26 <= n < 32 || n >= 38 ==> need % 2 == 0 && n < need <= n
                + 2
            &&& 6 <= n < 10 ==> need == 10
            &&& 22 <= n < 26 ==> need == 26
            &&& 32 <= n < 38 ==> need == 38
        },
{
}

} // verus!
