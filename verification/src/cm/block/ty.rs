//! Block type constants (`BlockType` field), request and response.

use vstd::prelude::*;

verus! {

pub const AR_BLOCK_REQ: u16 = 0x0101;
pub const IOCR_BLOCK_REQ: u16 = 0x0102;
pub const ALARM_CR_BLOCK_REQ: u16 = 0x0103;
pub const EXPECTED_SUBMODULE_BLOCK_REQ: u16 = 0x0104;
pub const IOD_WRITE_REQ_HEADER: u16 = 0x0008;
pub const IOD_READ_REQ_HEADER: u16 = 0x0009;
pub const IOD_CONTROL_REQ_PRM_END: u16 = 0x0110;
pub const IOX_BLOCK_REQ_APP_READY: u16 = 0x0112;
pub const RELEASE_BLOCK_REQ: u16 = 0x0114;
pub const AR_BLOCK_RES: u16 = 0x8101;
pub const IOCR_BLOCK_RES: u16 = 0x8102;
pub const ALARM_CR_BLOCK_RES: u16 = 0x8103;
pub const AR_SERVER_BLOCK_RES: u16 = 0x8106;
pub const IOD_WRITE_RES_HEADER: u16 = 0x8008;
pub const IOD_READ_RES_HEADER: u16 = 0x8009;
pub const IOD_CONTROL_RES_PRM_END: u16 = 0x8110;
pub const IOX_BLOCK_RES_APP_READY: u16 = 0x8112;
pub const RELEASE_BLOCK_RES: u16 = 0x8114;

/// The numbers of the block types: a response has the number of its request with the highest
/// bit set.
pub proof fn block_types_have_their_numbers()
    ensures
        AR_BLOCK_REQ == 0x0101 && AR_BLOCK_RES == 0x8101,
        IOCR_BLOCK_REQ == 0x0102 && IOCR_BLOCK_RES == 0x8102,
        ALARM_CR_BLOCK_REQ == 0x0103 && ALARM_CR_BLOCK_RES == 0x8103,
        EXPECTED_SUBMODULE_BLOCK_REQ == 0x0104 && AR_SERVER_BLOCK_RES == 0x8106,
        IOD_WRITE_REQ_HEADER == 8 && IOD_WRITE_RES_HEADER == 0x8008,
        IOD_READ_REQ_HEADER == 9 && IOD_READ_RES_HEADER == 0x8009,
        IOD_CONTROL_REQ_PRM_END == 0x0110 && IOD_CONTROL_RES_PRM_END == 0x8110,
        IOX_BLOCK_REQ_APP_READY == 0x0112 && IOX_BLOCK_RES_APP_READY == 0x8112,
        RELEASE_BLOCK_REQ == 0x0114 && RELEASE_BLOCK_RES == 0x8114,
{
}

} // verus!
