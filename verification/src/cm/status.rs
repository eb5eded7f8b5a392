//! PNIOStatus: the 4-byte `(Code, Decode, Code1, Code2)` status word carried in RPC
//! response `status` fields and in PNIO block error indications.

use vstd::prelude::*;

verus! {

/// The Connect-request block a `connect_reject` status refers to.
#[derive(Debug, Clone, Copy, PartialEq, Eq, Structural)]
pub enum ConnectBlock {
    ArBlock,
    IocrBlock,
    ExpectedSubmodule,
    AlarmCr,
}

impl ConnectBlock {
    /// The block's number in `PNIOStatus.Code1` of a Connect rejection.
    #[verifier::allow_in_spec]
    pub fn number(self) -> u8
        returns
            (match self {
                ConnectBlock::ArBlock => 1u8,
                ConnectBlock::IocrBlock => 2u8,
                ConnectBlock::ExpectedSubmodule => 3u8,
                ConnectBlock::AlarmCr => 4u8,
            }),
    {
        match self {
            ConnectBlock::ArBlock => 1,
            ConnectBlock::IocrBlock => 2,
            ConnectBlock::ExpectedSubmodule => 3,
            ConnectBlock::AlarmCr => 4,
        }
    }
}

/// The 4-byte PNIOStatus word: `Code` (high byte) / `ErrorDecode` / `ErrorCode1` /
/// `ErrorCode2` (low byte), packed big-endian into a `u32` as it appears on the wire.
#[derive(Debug, Clone, Copy, PartialEq, Eq, Structural)]
pub struct PnioStatus(pub u32);

impl PnioStatus {
    /// RTA_ERR_ABORT: device HmiTimeout (DHT) expired.
    pub const RTA_ABORT_DHT_EXPIRED: u8 = 1;

    /// RTA_ERR_ABORT: an alarm send failed.
    pub const RTA_ABORT_ALARM_SEND_FAILED: u8 = 3;

    /// RTA_ERR_ABORT: device HmiTimeout watchdog expired.
    pub const RTA_ABORT_DHT_WDT_EXPIRED: u8 = 5;

    /// RTA_ERR_ABORT: alarm indication returned an error.
    pub const RTA_ABORT_ALARM_IND_ERR: u8 = 11;

    /// RTA_ERR_ABORT: the AR was removed.
    pub const RTA_ABORT_AR_REMOVED: u8 = 17;

    /// The word of four status bytes.
    pub open spec fn of_bytes(code: u8, decode: u8, code1: u8, code2: u8) -> PnioStatus {
        PnioStatus(
            (code * 0x100_0000 + decode * 0x1_0000 + code1 * 0x100 + code2) as u32,
        )
    }

    /// No error.
    #[verifier::allow_in_spec]
    pub fn ok() -> PnioStatus
        returns
            PnioStatus(0u32),
    {
        PnioStatus(0)
    }

    /// The word of four status bytes.
    #[verifier::allow_in_spec]
    pub fn new(code: u8, decode: u8, code1: u8, code2: u8) -> PnioStatus
        returns
            PnioStatus::of_bytes(code, decode, code1, code2),
    {
        PnioStatus(
            (code as u32) * 0x100_0000 + (decode as u32) * 0x1_0000 + (code1 as u32) * 0x100
                + code2 as u32,
        )
    }

    /// The high byte.
    pub fn code(&self) -> (b: u8)
        ensures
            b == self.0 / 0x100_0000,
    {
        (self.0 / 0x100_0000) as u8
    }

    /// The second byte.
    pub fn decode(&self) -> (b: u8)
        ensures
            b == self.0 / 0x1_0000 % 0x100,
    {
        (self.0 / 0x1_0000 % 0x100) as u8
    }

    /// The third byte.
    pub fn code1(&self) -> (b: u8)
        ensures
            b == self.0 / 0x100 % 0x100,
    {
        (self.0 / 0x100 % 0x100) as u8
    }

    /// The low byte.
    pub fn code2(&self) -> (b: u8)
        ensures
            b == self.0 % 0x100,
    {
        (self.0 % 0x100) as u8
    }

    /// Whether the word says "no error".
    #[verifier::allow_in_spec]
    pub fn is_ok(&self) -> bool
        returns
            self.0 == 0,
    {
        self.0 == 0
    }

    /// The word as an integer.
    #[verifier::allow_in_spec]
    pub fn to_u32(&self) -> u32
        returns
            self.0,
    {
        self.0
    }

    /// Connect problem in the given block (`Code = 0xDB`, `Decode = 0x81`, `Code1` = block,
    /// `Code2` = offending field).
    #[verifier::allow_in_spec]
    pub fn connect_reject(block: ConnectBlock, field: u8) -> PnioStatus
        returns
            PnioStatus::of_bytes(0xDB, 0x81, block.number(), field),
    {
        PnioStatus::new(0xDB, 0x81, block.number(), field)
    }

    /// Connect problem: an AR already exists (state conflict).
    #[verifier::allow_in_spec]
    pub fn connect_ar_already_exists() -> PnioStatus
        returns
            PnioStatus::of_bytes(0xDB, 0x81, 0x3D, 0x0E),
    {
        PnioStatus::new(0xDB, 0x81, 0x3D, 0x0E)
    }

    /// Write problem: access error, invalid index.
    #[verifier::allow_in_spec]
    pub fn write_index_unsupported() -> PnioStatus
        returns
            PnioStatus::of_bytes(0xDF, 0x80, 0xB0, 0x00),
    {
        PnioStatus::new(0xDF, 0x80, 0xB0, 0x00)
    }

    /// Write problem, state conflict: the record's `ar_uuid` does not match the
    /// established AR's.
    #[verifier::allow_in_spec]
    pub fn write_wrong_ar() -> PnioStatus
        returns
            PnioStatus::of_bytes(0xDF, 0x81, 0x3D, 0x03),
    {
        PnioStatus::new(0xDF, 0x81, 0x3D, 0x03)
    }

    /// Write problem, resource unavailable: the AR's accumulated parameter-write records
    /// would exceed the per-AR cap.
    #[verifier::allow_in_spec]
    pub fn write_resource_unavailable() -> PnioStatus
        returns
            PnioStatus::of_bytes(0xDF, 0x80, 0xC3, 0x00),
    {
        PnioStatus::new(0xDF, 0x80, 0xC3, 0x00)
    }

    /// Control problem: wrong state.
    #[verifier::allow_in_spec]
    pub fn control_wrong_state() -> PnioStatus
        returns
            PnioStatus::of_bytes(0xDD, 0x81, 0x3D, 0x03),
    {
        PnioStatus::new(0xDD, 0x81, 0x3D, 0x03)
    }

    /// Requested service not supported.
    #[verifier::allow_in_spec]
    pub fn service_unsupported() -> PnioStatus
        returns
            PnioStatus::of_bytes(0x81, 0x81, 0x05, 0x00),
    {
        PnioStatus::new(0x81, 0x81, 0x05, 0x00)
    }

    /// Read problem: access error, invalid index. Kept distinct from
    /// [`PnioStatus::service_unsupported`], which a trace shows as a Connect problem.
    #[verifier::allow_in_spec]
    pub fn read_index_unsupported() -> PnioStatus
        returns
            PnioStatus::of_bytes(0xDE, 0x80, 0xB0, 0x00),
    {
        PnioStatus::new(0xDE, 0x80, 0xB0, 0x00)
    }

    /// Read problem, state conflict: no established AR, or the request's `ar_uuid` is not
    /// the established one's.
    #[verifier::allow_in_spec]
    pub fn read_wrong_ar() -> PnioStatus
        returns
            PnioStatus::of_bytes(0xDE, 0x81, 0x3D, 0x03),
    {
        PnioStatus::new(0xDE, 0x81, 0x3D, 0x03)
    }

    /// Write problem, invalid parameter: an I&M1-3 record whose shape is refused or whose
    /// `(slot, subslot)` is unknown.
    #[verifier::allow_in_spec]
    pub fn write_invalid_parameter() -> PnioStatus
        returns
            PnioStatus::of_bytes(0xDF, 0x81, 0xB0, 0x02),
    {
        PnioStatus::new(0xDF, 0x81, 0xB0, 0x02)
    }

    /// `CF 81 FD xx`: RTA error, PNIO, protocol class; `code2` says why the AR is aborted.
    #[verifier::allow_in_spec]
    pub fn rta_abort(code2: u8) -> PnioStatus
        returns
            PnioStatus::of_bytes(0xCF, 0x81, 0xFD, code2),
    {
        PnioStatus::new(0xCF, 0x81, 0xFD, code2)
    }
}

/// The four bytes of a status word are read back by the accessors, and a word is determined
/// by its bytes.
pub proof fn status_bytes_round_trip(code: u8, decode: u8, code1: u8, code2: u8)
    ensures
        ({
            let s = PnioStatus::of_bytes(code, decode, code1, code2);
            &&& s.0 / 0x100_0000 == code
            &&& s.0 / 0x1_0000 % 0x100 == decode
            &&& s.0 / 0x100 % 0x100 == code1
            &&& s.0 % 0x100 == code2
        }),
{
    let v = code * 0x100_0000 + decode * 0x1_0000 + code1 * 0x100 + code2;
    assert(v / 0x1_0000 == code * 0x100 + decode);
    assert(v / 0x100 == (code * 0x100 + decode) * 0x100 + code1);
}

/// No rejection reads as "no error".
pub proof fn rejections_are_not_ok(block: ConnectBlock, field: u8)
    ensures
        !PnioStatus::connect_reject(block, field).is_ok(),
        !PnioStatus::connect_ar_already_exists().is_ok(),
        !PnioStatus::write_index_unsupported().is_ok(),
        !PnioStatus::write_wrong_ar().is_ok(),
        !PnioStatus::write_resource_unavailable().is_ok(),
        !PnioStatus::control_wrong_state().is_ok(),
        !PnioStatus::service_unsupported().is_ok(),
        !PnioStatus::read_index_unsupported().is_ok(),
        !PnioStatus::read_wrong_ar().is_ok(),
        !PnioStatus::write_invalid_parameter().is_ok(),
        !PnioStatus::rta_abort(field).is_ok(),
{
}

/// The word that each refusal puts on the wire, as a trace shows it.
pub proof fn refusals_have_their_words(block: ConnectBlock, field: u8, code2: u8)
    ensures
        PnioStatus::ok().0 == 0,
        PnioStatus::connect_reject(ConnectBlock::ArBlock, field).0 == 0xDB81_0100 + field,
        PnioStatus::connect_reject(ConnectBlock::IocrBlock, field).0 == 0xDB81_0200 + field,
        PnioStatus::connect_reject(ConnectBlock::ExpectedSubmodule, field).0 == 0xDB81_0300
            + field,
        PnioStatus::connect_reject(ConnectBlock::AlarmCr, field).0 == 0xDB81_0400 + field,
        PnioStatus::connect_ar_already_exists().0 == 0xDB81_3D0E,
        PnioStatus::write_index_unsupported().0 == 0xDF80_B000,
        PnioStatus::write_wrong_ar().0 == 0xDF81_3D03,
        PnioStatus::write_resource_unavailable().0 == 0xDF80_C300,
        PnioStatus::write_invalid_parameter().0 == 0xDF81_B002,
        PnioStatus::control_wrong_state().0 == 0xDD81_3D03,
        PnioStatus::service_unsupported().0 == 0x8181_0500,
        PnioStatus::read_index_unsupported().0 == 0xDE80_B000,
        PnioStatus::read_wrong_ar().0 == 0xDE81_3D03,
        PnioStatus::rta_abort(code2).0 == 0xCF81_FD00 + code2,
        PnioStatus::RTA_ABORT_DHT_EXPIRED == 1,
        PnioStatus::RTA_ABORT_ALARM_SEND_FAILED == 3,
        PnioStatus::RTA_ABORT_DHT_WDT_EXPIRED == 5,
        PnioStatus::RTA_ABORT_ALARM_IND_ERR == 11,
        PnioStatus::RTA_ABORT_AR_REMOVED == 17,
{
}

} // verus!
