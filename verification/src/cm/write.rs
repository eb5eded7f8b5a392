//! IODWriteReq / MultipleWrite parsing and the IODWriteRes response.
//!
//! At Connect time, the controller stacks several parameter-write records inside one
//! `MultipleWrite` container (index `0xe040`): an outer `IODWriteReqHeader` whose data holds
//! nested `IODWriteReqHeader + data` records back to back, each padded to the next 4-byte
//! boundary. The response mirrors the request one-for-one, in request order, each response
//! record a fixed 64 bytes with `status = 0`.

use vstd::prelude::*;

use vstd::slice::{slice_subrange, slice_to_vec};

use crate::bytes;
use crate::cm::block::ty;
use crate::cm::block::{self, BlockHeader, Cursor};
use crate::cm::{BlockError, CmError};
use crate::rpc::{Drep, Uuid};

verus! {

/// The index of the `MultipleWrite` container record.
pub const INDEX_MULTIPLE_WRITE: u16 = 0xe040;

/// One `IODWriteReqHeader` record: fixed fields plus its `data[record_data_length]` payload
/// (the raw record data, before any nested parsing).
#[derive(Debug, Clone, PartialEq)]
pub struct Record {
    /// `Sequence Number`, echoed back unchanged in the matching response record.
    pub seq: u16,
    /// The AR this record is written against.
    pub ar_uuid: Uuid,
    /// Application process identifier.
    pub api: u32,
    /// Target slot (`0xffff` on the outer `MultipleWrite` record).
    pub slot: u16,
    /// Target subslot (`0xffff` on the outer `MultipleWrite` record).
    pub subslot: u16,
    /// The record data index being written.
    pub index: u16,
    /// The record's raw payload, unparsed.
    pub data: Vec<u8>,
}

/// What a [`Record`] holds.
pub struct RecordView {
    pub seq: u16,
    pub ar_uuid: Uuid,
    pub api: u32,
    pub slot: u16,
    pub subslot: u16,
    pub index: u16,
    pub data: Seq<u8>,
}

impl View for Record {
    type V = RecordView;

    open spec fn view(&self) -> RecordView {
        RecordView {
            seq: self.seq,
            ar_uuid: self.ar_uuid,
            api: self.api,
            slot: self.slot,
            subslot: self.subslot,
            index: self.index,
            data: self.data@,
        }
    }
}

/// A Write request's records, in request order. When the first record's index is
/// `INDEX_MULTIPLE_WRITE` it is kept as `records[0]` (with its raw data) and the nested
/// records parsed out of that data follow it; otherwise `records` holds the single record.
#[derive(Debug, Clone, PartialEq)]
pub struct WriteReq {
    /// The request's records, in request order.
    pub records: Vec<Record>,
}

/// Where the first fixed field that does not fit in `len` bytes ends.
pub open spec fn first_end_beyond(len: int) -> int {
    if len < 2 {
        2
    } else if len < 18 {
        18
    } else if len < 22 {
        22
    } else if len < 30 {
        len / 2 * 2 + 2
    } else if len < 34 {
        34
    } else {
        58
    }
}

/// The record `buf` starts with and how many bytes it takes up, its data included (the
/// data is not counted in the block's own declared length).
#[verifier::opaque]
pub open spec fn record_at(buf: Seq<u8>) -> Result<(RecordView, int), BlockError> {
    match BlockHeader::spec_parse(buf) {
        Err(e) => Err(e),
        Ok((header, body)) => {
            let header_end = 6 + body.len();
            let data_end = header_end + bytes::be32(body, 30);
            if header.block_type != ty::IOD_WRITE_REQ_HEADER {
                Err(
                    BlockError::UnexpectedType {
                        expected: ty::IOD_WRITE_REQ_HEADER,
                        got: header.block_type,
                    },
                )
            } else if body.len() < 58 {
                Err(block::short(body, first_end_beyond(body.len() as int)))
            } else if data_end > buf.len() {
                Err(block::short(buf, data_end))
            } else {
                Ok(
                    (
                        RecordView {
                            seq: bytes::be16(body, 0),
                            ar_uuid: Uuid::at(body, 2, Drep::big()),
                            api: bytes::be32(body, 18),
                            slot: bytes::be16(body, 22),
                            subslot: bytes::be16(body, 24),
                            index: bytes::be16(body, 28),
                            data: buf.subrange(header_end as int, data_end),
                        },
                        data_end,
                    ),
                )
            }
        },
    }
}

/// The next multiple of four from `n` on.
pub open spec fn align4(n: int) -> int {
    (n + 3) / 4 * 4
}

/// The records nested in a `MultipleWrite` container's data from `pos` on, each on a 4-byte
/// boundary.
pub open spec fn nested_at(data: Seq<u8>, pos: int) -> Result<Seq<RecordView>, BlockError>
    decreases
            (if pos < data.len() {
                data.len() - pos
            } else {
                0
            }),
{
    if pos >= data.len() {
        Ok(Seq::empty())
    } else {
        match record_at(data.skip(pos)) {
            Err(e) => Err(e),
            Ok((record, consumed)) => {
                proof {
                    reveal(record_at);
                }
                block::after(seq![record], nested_at(data, align4(pos + consumed)))
            },
        }
    }
}

impl WriteReq {
    /// The records a Write request reads as.
    pub open spec fn spec_parse(blocks: Seq<u8>) -> Result<Seq<RecordView>, BlockError> {
        match record_at(blocks) {
            Err(e) => Err(e),
            Ok((outer, _)) => if outer.index == INDEX_MULTIPLE_WRITE {
                block::after(seq![outer], nested_at(outer.data, 0))
            } else {
                Ok(seq![outer])
            },
        }
    }

    /// What the records hold.
    pub open spec fn record_views(self) -> Seq<RecordView> {
        self.records@.map_values(|r: Record| r@)
    }

    /// Parse the concatenated PNIO blocks of a Write request (no RPC header/NDR).
    pub fn parse(blocks: &[u8]) -> (res: Result<WriteReq, CmError>)
        ensures
            match res {
                Ok(w) => Self::spec_parse(blocks@) == Ok::<_, BlockError>(w.record_views()),
                Err(CmError::Block(e)) => Self::spec_parse(blocks@) == Err::<Seq<RecordView>, _>(e),
                Err(CmError::Reject(_)) => false,
            },
    {
        let (outer, _consumed) = match parse_one(blocks) {
            Ok(x) => x,
            Err(e) => {
                return Err(CmError::Block(e));
            },
        };
        let mut records: Vec<Record> = Vec::new();
        let ghost f = |r: Record| r@;
        if outer.index != INDEX_MULTIPLE_WRITE {
            records.push(outer);
            assert(records@.map_values(f) =~= seq![outer@]);
            return Ok(WriteReq { records });
        }
        let data: Vec<u8> = slice_to_vec(outer.data.as_slice());
        records.push(outer);
        assert(records@.map_values(f) =~= seq![outer@]);
        let mut pos: usize = 0;
        while pos < data.len()
            invariant
                pos <= data@.len(),
                f == (|r: Record| r@),
                Self::spec_parse(blocks@) == block::after(
                    records@.map_values(f),
                    nested_at(data@, pos as int),
                ),
            decreases data@.len() - pos,
        {
            let rest = slice_subrange(data.as_slice(), pos, data.len());
            assert(rest@ =~= data@.skip(pos as int));
            match parse_one(rest) {
                Err(e) => {
                    return Err(CmError::Block(e));
                },
                Ok((record, consumed)) => {
                    let ghost done = records@.map_values(f);
                    let ghost here = pos as int;
                    let end: usize = pos + consumed;
                    let pad: usize = (4 - end % 4) % 4;
                    pos = if pad > data.len() - end {
                        data.len()
                    } else {
                        end + pad
                    };
                    records.push(record);
                    proof {
                        assert(records@.map_values(f) =~= done.push(record@));
                        assert(nested_at(data@, align4(end as int)) == nested_at(data@, pos as int));
                        block::lemma_after_step(done, record@, nested_at(data@, pos as int));
                    }
                },
            }
        }
        proof {
            block::lemma_after_end(records@.map_values(f));
        }
        Ok(WriteReq { records })
    }
}

/// Parse one `IODWriteReqHeader` block (header + fixed body + `data[record_data_length]`)
/// starting at `buf[0]`. Returns the record and the number of bytes consumed, including the
/// trailing data.
fn parse_one(buf: &[u8]) -> (res: Result<(Record, usize), BlockError>)
    ensures
        match res {
            Ok((r, consumed)) => record_at(buf@) == Ok::<_, BlockError>((r@, consumed as int)) && 64
                <= consumed <= buf@.len(),
            Err(e) => record_at(buf@) == Err::<(RecordView, int), _>(e),
        },
{
    proof {
        reveal(record_at);
    }
    let (header, body) = BlockHeader::parse(buf)?;
    if header.block_type != ty::IOD_WRITE_REQ_HEADER {
        return Err(
            BlockError::UnexpectedType {
                expected: ty::IOD_WRITE_REQ_HEADER,
                got: header.block_type,
            },
        );
    }
    let mut c = Cursor::new(body);
    let seq: u16 = c.u16()?;
    let ar_uuid = c.uuid()?;
    let api: u32 = c.u32()?;
    let slot: u16 = c.u16()?;
    let subslot: u16 = c.u16()?;
    let _pad: u16 = c.u16()?;
    let index: u16 = c.u16()?;
    let record_data_length: usize = c.u32()? as usize;
    let _padding = c.bytes(24)?;
    let header_end: usize = BlockHeader::LEN + body.len();
    if record_data_length > buf.len() - header_end {
        let need: usize = if record_data_length <= usize::MAX - header_end {
            header_end + record_data_length
        } else {
            usize::MAX
        };
        return Err(BlockError::TooShort { need, have: buf.len() });
    }
    let data_end: usize = header_end + record_data_length;
    let data: Vec<u8> = slice_to_vec(slice_subrange(buf, header_end, data_end));
    Ok((Record { seq, ar_uuid, api, slot, subslot, index, data }, data_end))
}

/// The 64 response bytes to one record: its fixed fields echoed, no data, status zero.
pub open spec fn record_res_bytes(r: RecordView) -> Seq<u8> {
    block::header_bytes(ty::IOD_WRITE_RES_HEADER, 58) + block::record_id_bytes(
        r.seq,
        r.ar_uuid,
        r.api,
        r.slot,
        r.subslot,
        r.index,
    ) + bytes::repeated(0, 28)
}

/// The response bytes to `records`, in order.
pub open spec fn write_res_bytes(records: Seq<RecordView>) -> Seq<u8>
    decreases records.len(),
{
    if records.len() == 0 {
        Seq::empty()
    } else {
        write_res_bytes(records.drop_last()) + record_res_bytes(records.last())
    }
}

/// Append the response to one record.
fn write_record_res(out: &mut Vec<u8>, r: &Record)
    ensures
        final(out)@ == old(out)@ + record_res_bytes(r@),
{
    BlockHeader::write(out, ty::IOD_WRITE_RES_HEADER, 58);
    block::put_record_id(out, r.seq, r.ar_uuid, r.api, r.slot, r.subslot, r.index);
    // record_data_length, additional_value_1 and 2, status, padding
    bytes::put_repeated(out, 0, 28);
    assert(out@ =~= old(out)@ + record_res_bytes(r@));
}

/// Build the Write response's PNIO blocks: one `IODWriteResHeader` per request record, in
/// request order, each 64 bytes (`record_data_length = 0`, `additional_value_1/2 = 0`,
/// `status = 0`).
pub fn build_write_res(req: &WriteReq) -> (out: Vec<u8>)
    ensures
        out@ == write_res_bytes(req.record_views()),
{
    let mut out: Vec<u8> = Vec::new();
    let ghost views = req.record_views();
    let mut i: usize = 0;
    assert(views.take(0) =~= Seq::empty());
    while i < req.records.len()
        invariant
            i <= req.records@.len(),
            views == req.record_views(),
            out@ == write_res_bytes(views.take(i as int)),
        decreases req.records@.len() - i,
    {
        write_record_res(&mut out, &req.records[i]);
        proof {
            assert(views.take(i + 1).drop_last() =~= views.take(i as int));
            assert(views.take(i + 1).last() == req.records@[i as int]@);
        }
        i = i + 1;
    }
    assert(views.take(i as int) =~= views);
    out
}

/// The response mirrors the request one for one, in request order: its `i`th 64 bytes
/// answer the `i`th record, and there are no others.
pub proof fn write_response_mirrors_the_request(records: Seq<RecordView>)
    ensures
        write_res_bytes(records).len() == 64 * records.len(),
        forall|i: int|
            0 <= i < records.len() ==> #[trigger] write_res_bytes(records).subrange(
                64 * i,
                64 * i + 64,
            ) == record_res_bytes(records[i]),
    decreases records.len(),
{
    if records.len() > 0 {
        let head = records.drop_last();
        let last = records.last();
        write_response_mirrors_the_request(head);
        lemma_record_res_len(last);
        let all = write_res_bytes(records);
        assert forall|i: int| 0 <= i < records.len() implies #[trigger] all.subrange(
            64 * i,
            64 * i + 64,
        ) == record_res_bytes(records[i]) by {
            if i < head.len() {
                assert(all.subrange(64 * i, 64 * i + 64) =~= write_res_bytes(head).subrange(
                    64 * i,
                    64 * i + 64,
                ));
                assert(head[i] == records[i]);
            } else {
                assert(all.subrange(64 * i, 64 * i + 64) =~= record_res_bytes(last));
            }
        }
    }
}

proof fn lemma_record_res_len(r: RecordView)
    ensures
        record_res_bytes(r).len() == 64,
{
    block::lemma_record_id_len(r.seq, r.ar_uuid, r.api, r.slot, r.subslot, r.index);
}

/// A Write request always answers at least one record, and a container record comes first.
pub proof fn write_request_has_a_first_record(blocks: Seq<u8>)
    ensures
        match WriteReq::spec_parse(blocks) {
            Ok(records) => records.len() >= 1 && (records.len() > 1 ==> records[0].index
                == INDEX_MULTIPLE_WRITE),
            Err(_) => true,
        },
{
}

/// A boundary is the next multiple of four, at most three bytes away.
pub proof fn boundaries_are_every_four_bytes(n: int)
    requires
        0 <= n,
    ensures
        align4(n) % 4 == 0,
        n <= align4(n) < n + 4,
{
}

/// Where the fields of a written record stand, and its data behind the block.
pub proof fn written_records_are_read_by_place(buf: Seq<u8>)
    ensures
        match (BlockHeader::spec_parse(buf), record_at(buf)) {
            (Ok((h, body)), Ok((r, end))) => {
                &&& h.block_type == 8 && body.len() >= 58
                &&& r.seq == bytes::be16(body, 0)
                &&& r.ar_uuid == Uuid::at(body, 2, Drep::big())
                &&& r.api == bytes::be32(body, 18)
                &&& r.slot == bytes::be16(body, 22)
                &&& r.subslot == bytes::be16(body, 24)
                &&& r.index == bytes::be16(body, 28)
                &&& r.data.len() == bytes::be32(body, 30)
                &&& end == 6 + body.len() + r.data.len() && end <= buf.len()
                &&& r.data == buf.subrange(6 + body.len() as int, end)
            },
            (Ok((h, body)), Err(BlockError::UnexpectedType { expected, got })) => {
                &&& h.block_type != 8
                &&& expected == 8 && got == h.block_type
            },
            (Ok((h, body)), Err(BlockError::TooShort { need, have })) => {
                &&& h.block_type == 8
                &&& body.len() < 58 ==> have == body.len() && need <= 58
                &&& body.len() >= 58 ==> have == buf.len() as usize && need == block::clamp(
                    6 + body.len() + bytes::be32(body, 30),
                )
            },
            (Err(e), Err(f)) => e == f,
            _ => false,
        },
{
    reveal(record_at);
}

/// A container holds its records one behind the other: the first at its begin, each next on the
/// boundary behind the one before. Any other record stands alone.
pub proof fn containers_hold_records_on_boundaries(blocks: Seq<u8>)
    requires
        record_at(blocks) is Ok,
    ensures
        ({
            let (outer, _) = record_at(blocks)->Ok_0;
            &&& outer.index != 0xE040 ==> WriteReq::spec_parse(blocks) == Ok::<_, BlockError>(
                seq![outer],
            )
            &&& outer.index == 0xE040 ==> WriteReq::spec_parse(blocks) == block::after(
                seq![outer],
                nested_at(outer.data, 0),
            )
        }),
{
}

/// The record at a boundary of a container, and what follows it.
pub proof fn nested_records_follow_one_another(data: Seq<u8>, pos: int)
    requires
        0 <= pos,
    ensures
        pos >= data.len() ==> nested_at(data, pos) == Ok::<_, BlockError>(Seq::<RecordView>::empty()),
        pos < data.len() ==> match record_at(data.skip(pos)) {
            Err(e) => nested_at(data, pos) == Err::<Seq<RecordView>, _>(e),
            Ok((r, n)) => exists|next: int|
                #![trigger nested_at(data, next)]
                {
                    &&& next % 4 == 0
                    &&& pos + n <= next < pos + n + 4
                    &&& nested_at(data, pos) == block::after(seq![r], nested_at(data, next))
                },
        },
{
    reveal(record_at);
    if pos < data.len() {
        if let Ok((r, n)) = record_at(data.skip(pos)) {
            let next = align4(pos + n);
            assert(nested_at(data, pos) == block::after(seq![r], nested_at(data, next)));
        }
    }
}

/// Where the fields of a response record stand: those of the record it answers, without data
/// and without error.
pub proof fn write_responses_stand_at_their_places(r: RecordView)
    ensures
        ({
            let b = record_res_bytes(r);
            &&& b.len() == 64
            &&& bytes::be16(b, 0) == 0x8008 && bytes::be16(b, 2) == 60 && b[4] == 1 && b[5] == 0
            &&& bytes::be16(b, 6) == r.seq
            &&& Uuid::at(b, 8, Drep::big()) == r.ar_uuid
            &&& bytes::be32(b, 24) == r.api
            &&& bytes::be16(b, 28) == r.slot
            &&& bytes::be16(b, 30) == r.subslot
            &&& bytes::be16(b, 34) == r.index
            &&& forall|i: int| 36 <= i < 64 ==> #[trigger] b[i] == 0
        }),
{
    let b = record_res_bytes(r);
    let id = block::record_id_bytes(r.seq, r.ar_uuid, r.api, r.slot, r.subslot, r.index);
    let h = block::header_bytes(0x8008, 58);
    lemma_record_res_len(r);
    block::record_ids_stand_at_their_places(r.seq, r.ar_uuid, r.api, r.slot, r.subslot, r.index);
    block::block_headers_stand_at_their_places(0x8008, 58);
    assert(forall|i: int| 0 <= i < 6 ==> b[i] == h[i]);
    assert(b.subrange(6, 36) =~= id);
    crate::cm::records::lemma_id_is_read_in_place(b, 6);
}

} // verus!
