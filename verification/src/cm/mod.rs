//! PROFINET context manager: PNIO status, PNIO blocks and the services that establish and
//! run an application relationship (AR).

use vstd::prelude::*;

pub mod ar;
pub mod block;
pub mod connect;
pub mod control;
pub mod manager;
pub mod model;
pub mod records;
pub mod status;
pub mod write;

pub use ar::{AbortReason, Action, ArState, Event};
pub use block::{
    ty, AlarmCrBlockReq, ArBlockReq, BlockHeader, Cursor, DataDescription, ExpectedApi,
    ExpectedSubmodule, ExpectedSubmoduleBlockReq, IocrApi, IocrBlockReq, IocrObject,
};
pub use connect::{build_connect_res, validate, ArParams, ConnectReq, IocrParams};
pub use control::{app_ready_req, cmd, prm_end_done, release_done, ControlBlock};
pub use manager::{
    Cm, CmOutput, Handled, Outgoing, Pending, PendingRequest, RespondCtx, RPC_ARGS_MAX,
};
pub use model::{DeviceModel, SlotModel, SubmoduleModel};
pub use records::{build_read_res, read_record, write_im_record, ReadReq, RecordCtx};
pub use status::{ConnectBlock, PnioStatus};
pub use write::{build_write_res, Record, WriteReq, INDEX_MULTIPLE_WRITE};

verus! {

/// Errors from parsing PNIO blocks (the 6-byte header and the per-type bodies).
#[derive(Debug, Clone, Copy, PartialEq, Eq)]
pub enum BlockError {
    /// Fewer bytes available than the block shape being parsed needs.
    TooShort {
        /// Bytes the parse needs.
        need: usize,
        /// Bytes actually available.
        have: usize,
    },
    /// The block header's `BlockType` is not the one the caller asked to parse.
    UnexpectedType {
        /// `BlockType` the caller expected.
        expected: u16,
        /// `BlockType` actually found.
        got: u16,
    },
    /// The block header's version is not `1.0`.
    BadVersion(u8, u8),
    /// The block header's `BlockLength` declares more bytes than are available.
    BadLength {
        /// `BlockLength` as declared in the block header.
        declared: u16,
        /// Bytes actually available after the header.
        available: usize,
    },
    /// The block parsed to the right length and type but its content violates a
    /// structural rule.
    Malformed(&'static str),
}

/// Errors from the context manager's AR establishment / lifecycle handling.
#[derive(Debug, Clone, Copy, PartialEq, Eq)]
pub enum CmError {
    /// A PNIO block failed to parse.
    Block(BlockError),
    /// The request is well-formed but the AR/CM logic rejects it with this status.
    Reject(PnioStatus),
}

} // verus!
