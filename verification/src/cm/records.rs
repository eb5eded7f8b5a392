//! `IODReadReq`/`IODReadRes`: I&M record reads served over `Read` and `ReadImplicit`, plus
//! the I&M1-3 side of a parameter Write.
//!
//! Every submodule the model knows answers I&M0 with the same `IM_Supported = 0x000E`, and
//! every known submodule also reads and writes I&M1-3 from the one device-wide [`ImStore`].

use vstd::prelude::*;

use crate::bytes;
use crate::cm::block::ty;
use crate::cm::block::{self, BlockHeader, Cursor};
use crate::cm::model::DeviceModel;
use crate::cm::{BlockError, CmError, PnioStatus, Record};
use crate::im::{
    self, encode_im0, Im0, ImStore, IM_SUPPORTED_DAP, INDEX_IM0, INDEX_IM1, INDEX_IM3,
};
use crate::rpc::{Drep, Uuid};

verus! {

/// One `IODReadReqHeader` request (58-byte body after the 6-byte block header): identifies
/// the record to read by `(api, slot, subslot, index)`.
#[derive(Debug, Clone, Copy, PartialEq, Eq, Structural)]
pub struct ReadReq {
    pub seq: u16,
    pub ar_uuid: Uuid,
    pub api: u32,
    pub slot: u16,
    pub subslot: u16,
    pub index: u16,
    pub record_data_length: u32,
    pub target_ar_uuid: Uuid,
}

impl ReadReq {
    /// Where the first field that does not fit in `len` bytes ends.
    pub open spec fn first_end_beyond(len: int) -> int {
        if len < 2 {
            2
        } else if len < 18 {
            18
        } else if len < 22 {
            22
        } else if len < 30 {
            len / 2 * 2 + 2
        } else if len < 34 {
            34
        } else if len < 50 {
            50
        } else {
            58
        }
    }

    /// What `blocks` starts with: a read request.
    pub open spec fn spec_parse(blocks: Seq<u8>) -> Result<ReadReq, CmError> {
        match BlockHeader::spec_parse(blocks) {
            Err(e) => Err(CmError::Block(e)),
            Ok((header, body)) => if header.block_type != ty::IOD_READ_REQ_HEADER {
                Err(
                    CmError::Block(
                        BlockError::UnexpectedType {
                            expected: ty::IOD_READ_REQ_HEADER,
                            got: header.block_type,
                        },
                    ),
                )
            } else if body.len() < 58 {
                Err(CmError::Block(block::short(body, Self::first_end_beyond(body.len() as int))))
            } else {
                Ok(
                    ReadReq {
                        seq: bytes::be16(body, 0),
                        ar_uuid: Uuid::at(body, 2, Drep::big()),
                        api: bytes::be32(body, 18),
                        slot: bytes::be16(body, 22),
                        subslot: bytes::be16(body, 24),
                        index: bytes::be16(body, 28),
                        record_data_length: bytes::be32(body, 30),
                        target_ar_uuid: Uuid::at(body, 34, Drep::big()),
                    },
                )
            },
        }
    }

    /// Parse the concatenated PNIO blocks of a Read/ReadImplicit request (no RPC
    /// header/NDR): exactly one `IODReadReqHeader` (`0x0009`).
    pub fn parse(blocks: &[u8]) -> (res: Result<ReadReq, CmError>)
        ensures
            res == Self::spec_parse(blocks@),
    {
        let (header, body) = match BlockHeader::parse(blocks) {
            Ok(x) => x,
            Err(e) => {
                return Err(CmError::Block(e));
            },
        };
        if header.block_type != ty::IOD_READ_REQ_HEADER {
            return Err(
                CmError::Block(
                    BlockError::UnexpectedType {
                        expected: ty::IOD_READ_REQ_HEADER,
                        got: header.block_type,
                    },
                ),
            );
        }
        match Self::parse_body(body) {
            Ok(r) => Ok(r),
            Err(e) => Err(CmError::Block(e)),
        }
    }

    fn parse_body(body: &[u8]) -> (res: Result<ReadReq, BlockError>)
        ensures
            res == if body@.len() < 58 {
                Err(block::short(body@, Self::first_end_beyond(body@.len() as int)))
            } else {
                Ok(
                    ReadReq {
                        seq: bytes::be16(body@, 0),
                        ar_uuid: Uuid::at(body@, 2, Drep::big()),
                        api: bytes::be32(body@, 18),
                        slot: bytes::be16(body@, 22),
                        subslot: bytes::be16(body@, 24),
                        index: bytes::be16(body@, 28),
                        record_data_length: bytes::be32(body@, 30),
                        target_ar_uuid: Uuid::at(body@, 34, Drep::big()),
                    },
                )
            },
    {
        let mut c = Cursor::new(body);
        let seq: u16 = c.u16()?;
        let ar_uuid = c.uuid()?;
        let api: u32 = c.u32()?;
        let slot: u16 = c.u16()?;
        let subslot: u16 = c.u16()?;
        let _pad: u16 = c.u16()?;
        let index: u16 = c.u16()?;
        let record_data_length: u32 = c.u32()?;
        let target_ar_uuid = c.uuid()?;
        let _padding = c.bytes(8)?;
        Ok(
            ReadReq {
                seq,
                ar_uuid,
                api,
                slot,
                subslot,
                index,
                record_data_length,
                target_ar_uuid,
            },
        )
    }
}

/// The Read response: the request's fixed fields echoed, the data's length, the data.
pub open spec fn read_res_bytes(req: ReadReq, data: Seq<u8>) -> Seq<u8> {
    block::header_bytes(ty::IOD_READ_RES_HEADER, 58) + block::record_id_bytes(
        req.seq,
        req.ar_uuid,
        req.api,
        req.slot,
        req.subslot,
        req.index,
    ) + bytes::be32_bytes(data.len() as u32) + bytes::repeated(0, 24) + data
}

/// Build the Read response's PNIO blocks: one `IODReadResHeader` (`0x8009`) whose fixed
/// fields echo the request, `record_data_length = data.len()`, followed immediately by
/// `data` (the record itself, its own block header included).
pub fn build_read_res(req: &ReadReq, data: &[u8]) -> (out: Vec<u8>)
    ensures
        out@ == read_res_bytes(*req, data@),
        out@.len() == 64 + data@.len(),
{
    let mut out: Vec<u8> = Vec::new();
    BlockHeader::write(&mut out, ty::IOD_READ_RES_HEADER, 58);
    block::put_record_id(
        &mut out,
        req.seq,
        req.ar_uuid,
        req.api,
        req.slot,
        req.subslot,
        req.index,
    );
    bytes::put_be32(&mut out, data.len() as u32);
    // additional_value_1 and 2, padding
    bytes::put_repeated(&mut out, 0, 24);
    bytes::put_all(&mut out, data);
    proof {
        block::lemma_record_id_len(
            req.seq,
            req.ar_uuid,
            req.api,
            req.slot,
            req.subslot,
            req.index,
        );
        assert(out@ =~= read_res_bytes(*req, data@));
    }
    out
}

/// Everything [`read_record`] needs that is not in the request.
pub struct RecordCtx<'a> {
    pub model: &'a DeviceModel,
    pub im0: &'a Im0,
    pub im: &'a ImStore,
}

/// The record served at `(slot, subslot)` under `index`, if one is.
pub open spec fn served_record(
    req: ReadReq,
    model: DeviceModel,
    im0: Im0,
    im: ImStore,
) -> Option<Seq<u8>> {
    if model.spec_find(req.slot, req.subslot) is None {
        None
    } else if req.index == INDEX_IM0 {
        Some(im::im0_record(model.vendor_id, im0, IM_SUPPORTED_DAP))
    } else {
        match im::record_shape(req.index) {
            Some((block_type, len)) => Some(
                block::header_bytes(block_type, len) + im.body(req.index),
            ),
            None => None,
        }
    }
}

/// Serve one record read: `Some(record bytes)` for an index we answer on that `(slot,
/// subslot)`, `None` for "invalid index", including a `(slot, subslot)` absent from the
/// model entirely.
///
/// - `0xAFF0` (I&M0): any submodule the model knows, always encoded with
///   `IM_SUPPORTED_DAP`.
/// - `0xAFF1..=0xAFF3` (I&M1-3): any submodule the model knows, served from the one
///   device-wide [`ImStore`].
pub fn read_record(req: &ReadReq, ctx: &RecordCtx) -> (r: Option<Vec<u8>>)
    ensures
        match r {
            Some(v) => served_record(*req, *ctx.model, *ctx.im0, *ctx.im) == Some(v@),
            None => served_record(*req, *ctx.model, *ctx.im0, *ctx.im) is None,
        },
{
    if ctx.model.find(req.slot, req.subslot).is_none() {
        return None;
    }
    if req.index == INDEX_IM0 {
        return Some(encode_im0(ctx.model.vendor_id, ctx.im0, IM_SUPPORTED_DAP));
    }
    ctx.im.read(req.index)
}

/// Called for every Write record with index `0xAFF1..=0xAFF3` once the AR has accepted the
/// Write. A record on a `(slot, subslot)` absent from the model, or one [`ImStore::write`]
/// refuses, answers [`PnioStatus::write_invalid_parameter`] and leaves the store as it is.
pub fn write_im_record(r: &Record, model: &DeviceModel, im: &mut ImStore) -> (status: PnioStatus)
    ensures
        if model.spec_find(r.slot, r.subslot) is Some && im::record_fault(
            r.index,
            r.data@,
        ) is None {
            &&& status == PnioStatus::ok()
            &&& final(im).body(r.index) == BlockHeader::spec_parse(r.data@)->Ok_0.1
            &&& forall|other: u16| other != r.index ==> #[trigger] final(im).body(other) == old(
                im,
            ).body(other)
        } else {
            status == PnioStatus::write_invalid_parameter() && *final(im) == *old(im)
        },
{
    if model.find(r.slot, r.subslot).is_none() {
        return PnioStatus::write_invalid_parameter();
    }
    match im.write(r.index, r.data.as_slice()) {
        Ok(_) => PnioStatus::ok(),
        Err(_) => PnioStatus::write_invalid_parameter(),
    }
}

/// Every known submodule serves the same records: which one is asked does not matter.
pub proof fn records_are_device_wide(a: ReadReq, b: ReadReq, model: DeviceModel, im0: Im0, im: ImStore)
    requires
        a.index == b.index,
        model.spec_find(a.slot, a.subslot) is Some,
        model.spec_find(b.slot, b.subslot) is Some,
    ensures
        served_record(a, model, im0, im) == served_record(b, model, im0, im),
{
}

/// How a read request is read: the record it names stands behind the header of a block of
/// type 9.
pub proof fn read_requests_are_read_by_place(blocks: Seq<u8>)
    ensures
        match (BlockHeader::spec_parse(blocks), ReadReq::spec_parse(blocks)) {
            (Ok((h, body)), Ok(r)) => {
                &&& h.block_type == 9 && body.len() >= 58
                &&& r.seq == bytes::be16(body, 0)
                &&& r.ar_uuid == Uuid::at(body, 2, Drep::big())
                &&& r.api == bytes::be32(body, 18)
                &&& r.slot == bytes::be16(body, 22)
                &&& r.subslot == bytes::be16(body, 24)
                &&& r.index == bytes::be16(body, 28)
                &&& r.record_data_length == bytes::be32(body, 30)
                &&& r.target_ar_uuid == Uuid::at(body, 34, Drep::big())
            },
            (Ok((h, body)), Err(CmError::Block(BlockError::UnexpectedType { expected, got }))) => {
                &&& h.block_type != 9
                &&& expected == 9 && got == h.block_type
            },
            (Ok((h, body)), Err(CmError::Block(BlockError::TooShort { need, have }))) => {
                &&& h.block_type == 9 && body.len() < 58
                &&& have == body.len() && have < need <= 58
            },
            (Err(e), Err(CmError::Block(f))) => e == f,
            _ => false,
        },
{
}

/// Where the parts of a read response stand: the record that was asked for, the length of its
/// data, and the data behind 64 bytes of header.
pub proof fn read_responses_stand_at_their_places(req: ReadReq, data: Seq<u8>)
    requires
        data.len() <= u32::MAX,
    ensures
        ({
            let b = read_res_bytes(req, data);
            &&& b.len() == 64 + data.len()
            &&& bytes::be16(b, 0) == 0x8009 && bytes::be16(b, 2) == 60 && b[4] == 1 && b[5] == 0
            &&& bytes::be16(b, 6) == req.seq
            &&& Uuid::at(b, 8, Drep::big()) == req.ar_uuid
            &&& bytes::be32(b, 24) == req.api
            &&& bytes::be16(b, 28) == req.slot
            &&& bytes::be16(b, 30) == req.subslot
            &&& bytes::be16(b, 34) == req.index
            &&& bytes::be32(b, 36) == data.len()
            &&& forall|i: int| 40 <= i < 64 ==> #[trigger] b[i] == 0
            &&& b.skip(64) == data
        }),
{
    let b = read_res_bytes(req, data);
    let id = block::record_id_bytes(
        req.seq,
        req.ar_uuid,
        req.api,
        req.slot,
        req.subslot,
        req.index,
    );
    let h = block::header_bytes(0x8009, 58);
    block::record_ids_stand_at_their_places(
        req.seq,
        req.ar_uuid,
        req.api,
        req.slot,
        req.subslot,
        req.index,
    );
    block::block_headers_stand_at_their_places(0x8009, 58);
    assert(forall|i: int| 0 <= i < 6 ==> b[i] == h[i]);
    assert(b.subrange(6, 36) =~= id);
    lemma_id_is_read_in_place(b, 6);
    let n = data.len() as u32;
    bytes::lemma_be32_round_trip(n, b.take(36), b.skip(40));
    assert(b.take(36) + bytes::be32_bytes(n) + b.skip(40) =~= b);
    assert(b.skip(64) =~= data);
}

/// Fields read the same from where they stand as from the bytes cut out.
pub proof fn lemma_id_is_read_in_place(b: Seq<u8>, pos: int)
    requires
        0 <= pos,
        pos + 30 <= b.len(),
    ensures
        ({
            let id = b.subrange(pos, pos + 30);
            &&& bytes::be16(b, pos) == bytes::be16(id, 0)
            &&& Uuid::at(b, pos + 2, Drep::big()) == Uuid::at(id, 2, Drep::big())
            &&& bytes::be32(b, pos + 18) == bytes::be32(id, 18)
            &&& bytes::be16(b, pos + 22) == bytes::be16(id, 22)
            &&& bytes::be16(b, pos + 24) == bytes::be16(id, 24)
            &&& bytes::be16(b, pos + 28) == bytes::be16(id, 28)
        }),
{
    let id = b.subrange(pos, pos + 30);
    assert forall|i: int| 0 <= i < 30 implies #[trigger] b[pos + i] == id[i] by {}
    assert(b[pos] == id[0]);
}

/// Which records are served: on every submodule of the model the identity and the three
/// records that can be written, under the indices from 0xAFF0 on; on any other, and under any
/// other index, none.
pub proof fn served_records_are_the_identity_and_the_written(
    req: ReadReq,
    model: DeviceModel,
    im0: Im0,
    im: ImStore,
)
    ensures
        ({
            let known = model.spec_find(req.slot, req.subslot) is Some;
            let r = served_record(req, model, im0, im);
            &&& r is Some <==> known && 0xAFF0 <= req.index <= 0xAFF3
            &&& known && req.index == 0xAFF0 ==> r == Some(
                im::im0_record(model.vendor_id, im0, 0x000E),
            )
            &&& known && 0xAFF1 <= req.index <= 0xAFF3 ==> {
                &&& r->0.len() == 6 + im.body(req.index).len()
                &&& r->0.skip(6) == im.body(req.index)
                &&& bytes::be16(r->0, 0) == 0x21 + (req.index - 0xAFF1)
            }
        }),
{
    if 0xAFF1 <= req.index <= 0xAFF3 && model.spec_find(req.slot, req.subslot) is Some {
        let (block_type, len) = im::record_shape(req.index)->0;
        let r = served_record(req, model, im0, im)->0;
        assert(r.skip(6) =~= im.body(req.index));
        crate::eth::lemma_at_16(r, 0, block_type);
    }
}

} // verus!
