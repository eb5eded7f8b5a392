//! IODControlReq / IODControlRes: PrmEnd, ApplicationReady, and Release control blocks. All
//! six variants (request/response for each of the three commands) share one 26-byte body:
//! `reserved u16, ar_uuid, session_key u16, reserved u16, command u16, properties u16`.

use vstd::prelude::*;

use crate::bytes;
use crate::cm::block::ty;
use crate::cm::block::{self, BlockHeader, Cursor};
use crate::cm::{BlockError, CmError};
use crate::rpc::{Drep, Uuid};

pub mod cmd;

verus! {

/// Body length of every control block: 26 bytes after the 6-byte header.
pub const BODY_LEN: usize = 26;

/// One `IODControlReq`/`IODControlRes` block: PrmEnd, ApplicationReady, or Release, request
/// or response.
#[derive(Debug, Clone, Copy, PartialEq, Eq, Structural)]
pub struct ControlBlock {
    /// `BlockType`, identifying which of the six variants this is.
    pub block_type: u16,
    /// The AR this control block applies to.
    pub ar_uuid: Uuid,
    /// The AR's session key, echoed back on every control exchange.
    pub session_key: u16,
    /// `ControlCommand` bitmask.
    pub command: u16,
    /// `ControlBlockProperties`; always `0` on the exchanges this crate builds.
    pub properties: u16,
}

/// Whether `t` is one of the six control block types.
pub open spec fn is_control(t: u16) -> bool {
    ||| t == ty::IOD_CONTROL_REQ_PRM_END
    ||| t == ty::IOD_CONTROL_RES_PRM_END
    ||| t == ty::IOX_BLOCK_REQ_APP_READY
    ||| t == ty::IOX_BLOCK_RES_APP_READY
    ||| t == ty::RELEASE_BLOCK_REQ
    ||| t == ty::RELEASE_BLOCK_RES
}

fn is_control_type(t: u16) -> (r: bool)
    ensures
        r == is_control(t),
{
    t == ty::IOD_CONTROL_REQ_PRM_END || t == ty::IOD_CONTROL_RES_PRM_END || t
        == ty::IOX_BLOCK_REQ_APP_READY || t == ty::IOX_BLOCK_RES_APP_READY || t
        == ty::RELEASE_BLOCK_REQ || t == ty::RELEASE_BLOCK_RES
}

impl ControlBlock {
    /// What `blocks` starts with: a control block of the one body length.
    pub open spec fn spec_parse(blocks: Seq<u8>) -> Result<ControlBlock, CmError> {
        match BlockHeader::spec_parse(blocks) {
            Err(e) => Err(CmError::Block(e)),
            Ok((header, body)) => if !is_control(header.block_type) {
                Err(
                    CmError::Block(
                        BlockError::UnexpectedType {
                            expected: ty::IOD_CONTROL_REQ_PRM_END,
                            got: header.block_type,
                        },
                    ),
                )
            } else if body.len() != BODY_LEN {
                Err(CmError::Block(BlockError::Malformed("control block body length")))
            } else {
                Ok(
                    ControlBlock {
                        block_type: header.block_type,
                        ar_uuid: Uuid::at(body, 2, Drep::big()),
                        session_key: bytes::be16(body, 18),
                        command: bytes::be16(body, 22),
                        properties: bytes::be16(body, 24),
                    },
                )
            },
        }
    }

    /// The block's body on the wire.
    pub open spec fn body_bytes(self) -> Seq<u8> {
        bytes::be16_bytes(0) + self.ar_uuid.spec_bytes(Drep::big()) + bytes::be16_bytes(
            self.session_key,
        ) + bytes::be16_bytes(0) + bytes::be16_bytes(self.command) + bytes::be16_bytes(
            self.properties,
        )
    }

    /// The block's bytes on the wire.
    pub open spec fn spec_bytes(self) -> Seq<u8> {
        block::header_bytes(self.block_type, BODY_LEN as int) + self.body_bytes()
    }

    /// `blocks` = the block header followed by its body (no RPC header/NDR).
    pub fn parse(blocks: &[u8]) -> (res: Result<ControlBlock, CmError>)
        ensures
            res == Self::spec_parse(blocks@),
    {
        let (header, body) = match BlockHeader::parse(blocks) {
            Ok(x) => x,
            Err(e) => {
                return Err(CmError::Block(e));
            },
        };
        if !is_control_type(header.block_type) {
            return Err(
                CmError::Block(
                    BlockError::UnexpectedType {
                        expected: ty::IOD_CONTROL_REQ_PRM_END,
                        got: header.block_type,
                    },
                ),
            );
        }
        if body.len() != BODY_LEN {
            return Err(CmError::Block(BlockError::Malformed("control block body length")));
        }
        let session_key: u16 = bytes::read_be16(body, 18);
        let command: u16 = bytes::read_be16(body, 22);
        let properties: u16 = bytes::read_be16(body, 24);
        Ok(
            ControlBlock {
                block_type: header.block_type,
                ar_uuid: Uuid::read_at(body, 2, Drep::big()),
                session_key,
                command,
                properties,
            },
        )
    }

    /// Write the 6-byte block header followed by the 26-byte body.
    pub fn write(&self, out: &mut Vec<u8>)
        ensures
            final(out)@ == old(out)@ + self.spec_bytes(),
    {
        broadcast use bytes::lemma_add_assoc;

        BlockHeader::write(out, self.block_type, BODY_LEN as u16);
        bytes::put_be16(out, 0);
        self.ar_uuid.write(out, Drep::big());
        bytes::put_be16(out, self.session_key);
        bytes::put_be16(out, 0);
        bytes::put_be16(out, self.command);
        bytes::put_be16(out, self.properties);
    }
}

/// The PrmEnd Done response (`0x8110`) answering a PrmEnd request: same
/// `ar_uuid`/`session_key`, `command = DONE`, `properties = 0`.
pub fn prm_end_done(req: &ControlBlock) -> (r: ControlBlock)
    ensures
        r == (ControlBlock {
            block_type: ty::IOD_CONTROL_RES_PRM_END,
            ar_uuid: req.ar_uuid,
            session_key: req.session_key,
            command: cmd::DONE,
            properties: 0,
        }),
{
    ControlBlock {
        block_type: ty::IOD_CONTROL_RES_PRM_END,
        ar_uuid: req.ar_uuid,
        session_key: req.session_key,
        command: cmd::DONE,
        properties: 0,
    }
}

/// The ApplicationReady request (`0x0112`) the device sends to the controller once
/// parameterization is done.
pub fn app_ready_req(ar_uuid: Uuid, session_key: u16) -> (r: ControlBlock)
    ensures
        r == (ControlBlock {
            block_type: ty::IOX_BLOCK_REQ_APP_READY,
            ar_uuid,
            session_key,
            command: cmd::APPLICATION_READY,
            properties: 0,
        }),
{
    ControlBlock {
        block_type: ty::IOX_BLOCK_REQ_APP_READY,
        ar_uuid,
        session_key,
        command: cmd::APPLICATION_READY,
        properties: 0,
    }
}

/// The Release Done response (`0x8114`) answering a Release request: same
/// `ar_uuid`/`session_key`, `command = DONE`, `properties = 0`.
pub fn release_done(req: &ControlBlock) -> (r: ControlBlock)
    ensures
        r == (ControlBlock {
            block_type: ty::RELEASE_BLOCK_RES,
            ar_uuid: req.ar_uuid,
            session_key: req.session_key,
            command: cmd::DONE,
            properties: 0,
        }),
{
    ControlBlock {
        block_type: ty::RELEASE_BLOCK_RES,
        ar_uuid: req.ar_uuid,
        session_key: req.session_key,
        command: cmd::DONE,
        properties: 0,
    }
}

/// A control block written out reads back as itself, whatever follows.
pub proof fn control_block_round_trip(c: ControlBlock, rest: Seq<u8>)
    requires
        is_control(c.block_type),
    ensures
        c.spec_bytes().len() == 32,
        ControlBlock::spec_parse(c.spec_bytes() + rest) == Ok::<_, CmError>(c),
{
    let body = c.body_bytes();
    let u = c.ar_uuid.spec_bytes(Drep::big());
    let tail = bytes::be16_bytes(c.session_key) + bytes::be16_bytes(0) + bytes::be16_bytes(
        c.command,
    ) + bytes::be16_bytes(c.properties);
    crate::rpc::uuid::uuid_round_trip(c.ar_uuid, Drep::big(), bytes::be16_bytes(0), tail);
    assert(bytes::be16_bytes(0) + u + tail =~= body);
    crate::eth::lemma_at_16(body, 18, c.session_key);
    crate::eth::lemma_at_16(body, 22, c.command);
    crate::eth::lemma_at_16(body, 24, c.properties);
    block::block_round_trip(c.block_type, body, rest);
}

/// Control blocks are those of three exchanges: the end of parameterization, ApplicationReady
/// and Release, each with its response.
pub proof fn control_blocks_are_six(t: u16)
    ensures
        is_control(t) <==> t == 0x0110 || t == 0x8110 || t == 0x0112 || t == 0x8112 || t == 0x0114
            || t == 0x8114,
{
}

/// Where the fields of a control block stand.
pub proof fn control_blocks_stand_at_their_places(c: ControlBlock)
    ensures
        ({
            let b = c.spec_bytes();
            &&& b.len() == 32
            &&& bytes::be16(b, 0) == c.block_type
            &&& bytes::be16(b, 2) == 28 && b[4] == 1 && b[5] == 0
            &&& bytes::be16(b, 6) == 0
            &&& Uuid::at(b, 8, Drep::big()) == c.ar_uuid
            &&& bytes::be16(b, 24) == c.session_key
            &&& bytes::be16(b, 26) == 0
            &&& bytes::be16(b, 28) == c.command
            &&& bytes::be16(b, 30) == c.properties
        }),
{
    let b = c.spec_bytes();
    let u = c.ar_uuid.spec_bytes(Drep::big());
    crate::rpc::uuid::uuid_round_trip(c.ar_uuid, Drep::big(), b.take(8), b.skip(24));
    assert(b.len() == 32);
    assert(b.take(8) + u + b.skip(24) =~= b);
    crate::eth::lemma_at_16(b, 0, c.block_type);
    crate::eth::lemma_at_16(b, 2, 28);
    crate::eth::lemma_at_16(b, 6, 0);
    crate::eth::lemma_at_16(b, 24, c.session_key);
    crate::eth::lemma_at_16(b, 26, 0);
    crate::eth::lemma_at_16(b, 28, c.command);
    crate::eth::lemma_at_16(b, 30, c.properties);
}

/// How a control block is read, and why bytes are refused as one.
pub proof fn control_blocks_are_read_by_place(blocks: Seq<u8>)
    ensures
        match (BlockHeader::spec_parse(blocks), ControlBlock::spec_parse(blocks)) {
            (Ok((h, body)), Ok(c)) => {
                &&& is_control(h.block_type) && body.len() == 26
                &&& c.block_type == h.block_type
                &&& c.ar_uuid == Uuid::at(body, 2, Drep::big())
                &&& c.session_key == bytes::be16(body, 18)
                &&& c.command == bytes::be16(body, 22)
                &&& c.properties == bytes::be16(body, 24)
            },
            (Ok((h, body)), Err(CmError::Block(BlockError::UnexpectedType { expected, got }))) => {
                &&& !is_control(h.block_type)
                &&& expected == 0x0110 && got == h.block_type
            },
            (Ok((h, body)), Err(CmError::Block(BlockError::Malformed(_)))) => is_control(
                h.block_type,
            ) && body.len() != 26,
            (Err(e), Err(CmError::Block(f))) => e == f,
            _ => false,
        },
{
}

/// What the device answers and asks: the AR and session of the request, or those it is told,
/// with `Done` for an answer and `ApplicationReady` for its own request.
pub proof fn control_exchanges_name_their_ar(
    req: &ControlBlock,
    ar_uuid: Uuid,
    session_key: u16,
    r: ControlBlock,
)
    ensures
        call_ensures(prm_end_done, (req,), r) ==> r.block_type == 0x8110 && r.command == 8
            && r.properties == 0 && r.ar_uuid == req.ar_uuid && r.session_key == req.session_key,
        call_ensures(release_done, (req,), r) ==> r.block_type == 0x8114 && r.command == 8
            && r.properties == 0 && r.ar_uuid == req.ar_uuid && r.session_key == req.session_key,
        call_ensures(app_ready_req, (ar_uuid, session_key), r) ==> r.block_type == 0x0112 && r.command
            == 2 && r.properties == 0 && r.ar_uuid == ar_uuid && r.session_key == session_key,
{
}

} // verus!
